//! A snapshot: a copy of all the records of a registry, taken at one point
//! in time.

use crate::model::{listed, SnapshotView};
use crate::record::{RecordView, ServiceRecord};
use vstd::prelude::*;

verus! {

/// A record of a keyed registry together with the key it is stored under.
#[derive(Debug, PartialEq, Eq)]
pub struct KeyedRecord {
    pub key: String,
    pub record: ServiceRecord,
}

impl View for KeyedRecord {
    type V = (Seq<char>, RecordView);

    open spec fn view(&self) -> (Seq<char>, RecordView) {
        (self.key@, self.record@)
    }
}

/// A copy of all the records of a registry, in listing order. Its shape
/// follows the registry's policy.
#[derive(Debug, PartialEq, Eq)]
pub enum Snapshot {
    /// Every record paired with its key.
    Keyed(Vec<KeyedRecord>),
    /// The records in the order in which they were registered.
    Sequence(Vec<ServiceRecord>),
}

impl View for Snapshot {
    type V = SnapshotView;

    open spec fn view(&self) -> SnapshotView {
        match self {
            Snapshot::Keyed(pairs) => SnapshotView::Keyed(
                pairs@.map_values(|pair: KeyedRecord| pair@),
            ),
            Snapshot::Sequence(records) => SnapshotView::Sequence(
                records@.map_values(|record: ServiceRecord| record@),
            ),
        }
    }
}

impl Snapshot {
    /// The number of records listed.
    pub fn len(&self) -> (len: usize)
        ensures
            len == listed(self@).len(),
    {
        match self {
            Snapshot::Keyed(pairs) => pairs.len(),
            Snapshot::Sequence(records) => records.len(),
        }
    }
}

} // verus!
