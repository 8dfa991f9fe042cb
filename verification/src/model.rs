//! The registry as mathematics: a sequence of record views in listing
//! order, the two registration policies over it, and what a snapshot shows.

use crate::record::RecordView;
use vstd::prelude::*;

verus! {

/// How a registry treats a name that is registered again.
#[derive(Clone, Copy, Debug, PartialEq, Eq, Structural)]
pub enum RegistryPolicy {
    /// One record per name: a later registration replaces the earlier one.
    Keyed,
    /// Every registration is appended; names may repeat.
    Sequence,
}

/// What a snapshot stands for in contracts.
pub enum SnapshotView {
    /// Pairs of key and record, in listing order.
    Keyed(Seq<(Seq<char>, RecordView)>),
    /// The records, in the order in which they were registered.
    Sequence(Seq<RecordView>),
}

/// Some record in `records` carries `name`.
pub open spec fn holds_name(records: Seq<RecordView>, name: Seq<char>) -> bool {
    exists|i: int| 0 <= i < records.len() && #[trigger] records[i].name == name
}

/// No two records share a name.
pub open spec fn names_distinct(records: Seq<RecordView>) -> bool {
    forall|i: int, j: int|
        0 <= i < j < records.len() ==> #[trigger] records[i].name != #[trigger] records[j].name
}

/// The invariant of a registry: under the keyed policy at most one record
/// exists per name; under the sequence policy nothing is demanded.
pub open spec fn well_formed(policy: RegistryPolicy, records: Seq<RecordView>) -> bool {
    policy == RegistryPolicy::Keyed ==> names_distinct(records)
}

/// `records` with every record named like `record` replaced by `record`,
/// each in its place.
pub open spec fn replaced(records: Seq<RecordView>, record: RecordView) -> Seq<RecordView> {
    Seq::new(
        records.len(),
        |i: int|
            if records[i].name == record.name {
                record
            } else {
                records[i]
            },
    )
}

/// The records after one registration. The keyed policy replaces the record
/// of that name where there is one; in every other case the record goes to
/// the end.
pub open spec fn registered(
    policy: RegistryPolicy,
    records: Seq<RecordView>,
    record: RecordView,
) -> Seq<RecordView> {
    if policy == RegistryPolicy::Keyed && holds_name(records, record.name) {
        replaced(records, record)
    } else {
        records.push(record)
    }
}

/// The records after the registrations of `batch`, made in order.
pub open spec fn registered_all(
    policy: RegistryPolicy,
    records: Seq<RecordView>,
    batch: Seq<RecordView>,
) -> Seq<RecordView>
    decreases batch.len(),
{
    if batch.len() == 0 {
        records
    } else {
        registered(policy, registered_all(policy, records, batch.drop_last()), batch.last())
    }
}

/// What a snapshot of `records` shows: under the keyed policy each record
/// paired with its name, under the sequence policy the records themselves;
/// in both the order of `records`.
pub open spec fn snapshot_of(policy: RegistryPolicy, records: Seq<RecordView>) -> SnapshotView {
    match policy {
        RegistryPolicy::Keyed => SnapshotView::Keyed(
            Seq::new(records.len(), |i: int| (records[i].name, records[i])),
        ),
        RegistryPolicy::Sequence => SnapshotView::Sequence(records),
    }
}

/// The records that a snapshot lists, without their keys.
pub open spec fn listed(snapshot: SnapshotView) -> Seq<RecordView> {
    match snapshot {
        SnapshotView::Keyed(pairs) => Seq::new(pairs.len(), |i: int| pairs[i].1),
        SnapshotView::Sequence(records) => records,
    }
}

/// The policy under which a snapshot was taken.
pub open spec fn policy_of(snapshot: SnapshotView) -> RegistryPolicy {
    match snapshot {
        SnapshotView::Keyed(_) => RegistryPolicy::Keyed,
        SnapshotView::Sequence(_) => RegistryPolicy::Sequence,
    }
}

/// A snapshot is consistent when it is the snapshot of some well-formed
/// registry: a keyed one pairs every record with its own name and lists no
/// name twice.
pub open spec fn consistent(snapshot: SnapshotView) -> bool {
    match snapshot {
        SnapshotView::Keyed(pairs) => {
            &&& forall|i: int| 0 <= i < pairs.len() ==> (#[trigger] pairs[i]).0 == pairs[i].1.name
            &&& forall|i: int, j: int|
                0 <= i < j < pairs.len() ==> (#[trigger] pairs[i]).0 != (#[trigger] pairs[j]).0
        },
        SnapshotView::Sequence(_) => true,
    }
}

/// The record that a keyed registry holds under `name`.
pub open spec fn record_named(records: Seq<RecordView>, name: Seq<char>) -> RecordView {
    records[choose|i: int| 0 <= i < records.len() && #[trigger] records[i].name == name]
}

/// A registry read as a mapping from name to record. It says all there is
/// to say of a keyed registry but the listing order.
pub open spec fn as_map(records: Seq<RecordView>) -> Map<Seq<char>, RecordView> {
    Map::new(
        |name: Seq<char>| holds_name(records, name),
        |name: Seq<char>| record_named(records, name),
    )
}

/// The record that the latest registration in `batch` under `name` carried.
/// It means something only where `batch` holds that name.
pub open spec fn latest(batch: Seq<RecordView>, name: Seq<char>) -> RecordView
    decreases batch.len(),
{
    if batch.len() == 0 {
        arbitrary()
    } else if batch.last().name == name {
        batch.last()
    } else {
        latest(batch.drop_last(), name)
    }
}

/// `record` is in `records`, and no other record there has its name.
pub open spec fn sole_of_its_name(records: Seq<RecordView>, record: RecordView) -> bool {
    exists|i: int|
        {
            &&& 0 <= i < records.len()
            &&& #[trigger] records[i] == record
            &&& forall|j: int|
                0 <= j < records.len() && (#[trigger] records[j]).name == record.name ==> j == i
        }
}

} // verus!
