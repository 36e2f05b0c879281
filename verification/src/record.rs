//! The domain record returned for an item lookup.

use vstd::prelude::*;

verus! {

/// A point in time as stored alongside a record: whole seconds and the
/// sub-second remainder in nanoseconds.
#[derive(Clone, Copy, Debug, PartialEq, Eq, Structural)]
pub struct Timestamp {
    pub seconds: u64,
    pub nanos: u32,
}

/// The item data served to callers: a numeric row id, the identifier the
/// item is looked up by, a display name, an optional creation timestamp,
/// and a free-form description. A record is immutable once constructed;
/// cache hits hand out copies.
#[derive(Debug)]
pub struct Record {
    pub id: u64,
    pub ident: String,
    pub name: String,
    pub created_at: Option<Timestamp>,
    pub description: String,
}

/// The mathematical value of a [`Record`]: the same fields with the
/// strings taken as character sequences.
pub struct RecordV {
    pub id: u64,
    pub ident: Seq<char>,
    pub name: Seq<char>,
    pub created_at: Option<Timestamp>,
    pub description: Seq<char>,
}

impl View for Record {
    type V = RecordV;

    open spec fn view(&self) -> RecordV {
        RecordV {
            id: self.id,
            ident: self.ident@,
            name: self.name@,
            created_at: self.created_at,
            description: self.description@,
        }
    }
}

impl Clone for Record {
    /// A clone carries the very same field values.
    fn clone(&self) -> (res: Record)
        ensures
            res == *self,
    {
        Record {
            id: self.id,
            ident: self.ident.clone(),
            name: self.name.clone(),
            created_at: self.created_at,
            description: self.description.clone(),
        }
    }
}

} // verus!
