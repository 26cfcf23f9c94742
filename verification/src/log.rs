//! The change log: one entry for each creation, update or deletion.

use crate::ident::{fresh_id, is_uuid_text};
use vstd::prelude::*;

verus! {

/// The kinds of change that an entry can record.
#[derive(Clone, Copy, Debug, PartialEq, Eq, Structural)]
pub enum EntryType {
    Create,
    Update,
    Delete,
}

/// One entry of the change log. It refers to the changed object by its
/// identifier alone and carries a payload that this crate does not read.
#[derive(Debug)]
pub struct EventLogEntry {
    pub id: String,
    pub entry_type: EntryType,
    pub obj_id: String,
    pub data: String,
}

impl EventLogEntry {
    /// A new entry under a fresh identifier. The kind of change, the
    /// identifier of the changed object and the payload are stored as given.
    pub fn new(entry_type: EntryType, obj_id: &str, data: &str) -> (entry: EventLogEntry)
        ensures
            is_uuid_text(entry.id@),
            entry.entry_type == entry_type,
            entry.obj_id@ == obj_id@,
            entry.data@ == data@,
    {
        EventLogEntry {
            id: fresh_id(),
            entry_type,
            obj_id: obj_id.to_owned(),
            data: data.to_owned(),
        }
    }
}

} // verus!
