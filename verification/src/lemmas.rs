//! What holds of registrations and snapshots, proved over the model.

use crate::model::{
    as_map, consistent, holds_name, latest, listed, names_distinct, policy_of, record_named,
    registered, registered_all, snapshot_of, sole_of_its_name, well_formed, RegistryPolicy,
    SnapshotView,
};
use crate::record::RecordView;
use vstd::prelude::*;

verus! {

/// Registration preserves the invariant: a well-formed registry stays
/// well-formed, so a keyed one never holds two records of one name.
pub proof fn lemma_registration_keeps_well_formed(
    policy: RegistryPolicy,
    records: Seq<RecordView>,
    record: RecordView,
)
    requires
        well_formed(policy, records),
    ensures
        well_formed(policy, registered(policy, records, record)),
{
    if policy == RegistryPolicy::Keyed {
        let after = registered(policy, records, record);
        assert forall|i: int, j: int| 0 <= i < j < after.len() implies #[trigger] after[i].name
            != #[trigger] after[j].name by {
            if holds_name(records, record.name) {
                // A replacement changes no name.
                assert(after[i].name == records[i].name);
                assert(after[j].name == records[j].name);
            } else if j == records.len() {
                // The new record's name is held by no other.
                assert(after[i].name == records[i].name);
            }
        }
    }
}

/// So does a batch of registrations.
pub proof fn lemma_batch_keeps_well_formed(
    policy: RegistryPolicy,
    records: Seq<RecordView>,
    batch: Seq<RecordView>,
)
    requires
        well_formed(policy, records),
    ensures
        well_formed(policy, registered_all(policy, records, batch)),
    decreases batch.len(),
{
    if batch.len() > 0 {
        lemma_batch_keeps_well_formed(policy, records, batch.drop_last());
        lemma_registration_keeps_well_formed(
            policy,
            registered_all(policy, records, batch.drop_last()),
            batch.last(),
        );
    }
}

/// A snapshot lists the records of the registry, all of them and in their
/// order, under either policy; and the snapshot of a well-formed registry is
/// consistent.
pub proof fn lemma_snapshot_lists_records(policy: RegistryPolicy, records: Seq<RecordView>)
    ensures
        listed(snapshot_of(policy, records)) == records,
        policy_of(snapshot_of(policy, records)) == policy,
        well_formed(policy, records) ==> consistent(snapshot_of(policy, records)),
{
    assert(listed(snapshot_of(policy, records)) =~= records);
}

/// A consistent snapshot is the snapshot of one well-formed registry: of the
/// records that it lists, under the policy whose shape it has.
pub proof fn lemma_consistent_snapshot_is_of_a_registry(snapshot: SnapshotView)
    requires
        consistent(snapshot),
    ensures
        well_formed(policy_of(snapshot), listed(snapshot)),
        snapshot == snapshot_of(policy_of(snapshot), listed(snapshot)),
{
    if let SnapshotView::Keyed(pairs) = snapshot {
        let records = listed(snapshot);
        assert forall|i: int| 0 <= i < pairs.len() implies pairs[i] == (
            records[i].name,
            records[i],
        ) by {
            assert(pairs[i].0 == pairs[i].1.name);
        }
        assert(pairs =~= Seq::new(records.len(), |i: int| (records[i].name, records[i])));
    }
}

/// The snapshot of a registry to which nothing was registered is empty.
pub proof fn lemma_fresh_registry_lists_nothing(policy: RegistryPolicy)
    ensures
        listed(snapshot_of(policy, Seq::empty())) == Seq::<RecordView>::empty(),
        registered_all(policy, Seq::empty(), Seq::empty()) == Seq::<RecordView>::empty(),
{
    lemma_snapshot_lists_records(policy, Seq::empty());
}

/// In a keyed registry the name is the key: registering a record is an
/// insertion into the mapping from names to records, which overwrites what
/// the name held before.
pub proof fn lemma_keyed_registration_inserts(records: Seq<RecordView>, record: RecordView)
    requires
        names_distinct(records),
    ensures
        as_map(registered(RegistryPolicy::Keyed, records, record)) == as_map(records).insert(
            record.name,
            record,
        ),
{
    let after = registered(RegistryPolicy::Keyed, records, record);
    lemma_registration_keeps_well_formed(RegistryPolicy::Keyed, records, record);
    // The names held are those held before and the name of the record.
    assert forall|name: Seq<char>| holds_name(after, name) <==> (name == record.name || holds_name(
        records,
        name,
    )) by {
        if name == record.name {
            if holds_name(records, name) {
                let i = choose|i: int| 0 <= i < records.len() && #[trigger] records[i].name == name;
                assert(after[i].name == name);
            } else {
                assert(after[records.len() as int].name == name);
            }
        } else if holds_name(records, name) {
            let i = choose|i: int| 0 <= i < records.len() && #[trigger] records[i].name == name;
            assert(after[i].name == name);
        }
    }
    // Under every other name the record is the one held before, which stands
    // where it stood.
    assert forall|name: Seq<char>|
        holds_name(after, name) && name != record.name implies record_named(after, name)
        == record_named(records, name) by {
        let i = choose|i: int| 0 <= i < after.len() && #[trigger] after[i].name == name;
        let k = choose|k: int| 0 <= k < records.len() && #[trigger] records[k].name == name;
        assert(records[i].name == name);
        assert(i == k);
    }
    assert(as_map(after) =~= as_map(records).insert(record.name, record));
}

/// Under the keyed policy, registering one name twice leaves exactly one
/// record of that name, the later one. The first registration leaves no
/// trace: the outcome is that of the second alone.
pub proof fn lemma_keyed_reregistration_replaces(
    records: Seq<RecordView>,
    first: RecordView,
    second: RecordView,
)
    requires
        names_distinct(records),
        first.name == second.name,
    ensures
        ({
            let once = registered(RegistryPolicy::Keyed, records, first);
            let twice = registered(RegistryPolicy::Keyed, once, second);
            &&& twice == registered(RegistryPolicy::Keyed, records, second)
            &&& twice.len() == once.len()
            &&& names_distinct(twice)
            &&& sole_of_its_name(twice, second)
            &&& as_map(twice)[second.name] == second
        }),
{
    let once = registered(RegistryPolicy::Keyed, records, first);
    let twice = registered(RegistryPolicy::Keyed, once, second);
    lemma_registration_keeps_well_formed(RegistryPolicy::Keyed, records, first);
    lemma_registration_keeps_well_formed(RegistryPolicy::Keyed, once, second);
    lemma_keyed_registration_inserts(once, second);
    // Where the first record went, the second stands now.
    let at: int = if holds_name(records, first.name) {
        choose|i: int| 0 <= i < records.len() && #[trigger] records[i].name == first.name
    } else {
        records.len() as int
    };
    assert(once[at].name == first.name);
    assert(twice[at] == second);
    assert(twice =~= registered(RegistryPolicy::Keyed, records, second));
}

/// Under the sequence policy every registration adds a record at the end,
/// whatever its name: registering twice, under one name or two, leaves both
/// records, in the order of their registration.
pub proof fn lemma_sequence_registration_appends(
    records: Seq<RecordView>,
    first: RecordView,
    second: RecordView,
)
    ensures
        registered(RegistryPolicy::Sequence, records, first) == records.push(first),
        registered(
            RegistryPolicy::Sequence,
            registered(RegistryPolicy::Sequence, records, first),
            second,
        ) == records.push(first).push(second),
        snapshot_of(
            RegistryPolicy::Sequence,
            registered(
                RegistryPolicy::Sequence,
                registered(RegistryPolicy::Sequence, records, first),
                second,
            ),
        ) == SnapshotView::Sequence(records.push(first).push(second)),
{
}

/// Read after write, sequence policy: after a batch of registrations the
/// registry holds what it held before, followed by the batch in order.
pub proof fn lemma_sequence_batch_appends(records: Seq<RecordView>, batch: Seq<RecordView>)
    ensures
        registered_all(RegistryPolicy::Sequence, records, batch) == records + batch,
        snapshot_of(
            RegistryPolicy::Sequence,
            registered_all(RegistryPolicy::Sequence, records, batch),
        ) == SnapshotView::Sequence(records + batch),
    decreases batch.len(),
{
    if batch.len() == 0 {
        assert(records + batch =~= records);
    } else {
        lemma_sequence_batch_appends(records, batch.drop_last());
        assert((records + batch.drop_last()).push(batch.last()) =~= records + batch);
    }
}

/// Read after write, keyed policy: after a batch of registrations the
/// registry maps exactly the names it held before and the names of the
/// batch; a name of the batch to the latest record registered under it, any
/// other name to the record it had.
pub proof fn lemma_keyed_batch_holds_latest(records: Seq<RecordView>, batch: Seq<RecordView>)
    requires
        names_distinct(records),
    ensures
        ({
            let after = registered_all(RegistryPolicy::Keyed, records, batch);
            &&& names_distinct(after)
            &&& listed(snapshot_of(RegistryPolicy::Keyed, after)) == after
            &&& as_map(after) == Map::new(
                |name: Seq<char>| holds_name(records, name) || holds_name(batch, name),
                |name: Seq<char>|
                    if holds_name(batch, name) {
                        latest(batch, name)
                    } else {
                        as_map(records)[name]
                    },
            )
        }),
    decreases batch.len(),
{
    let after = registered_all(RegistryPolicy::Keyed, records, batch);
    let expected = Map::new(
        |name: Seq<char>| holds_name(records, name) || holds_name(batch, name),
        |name: Seq<char>|
            if holds_name(batch, name) {
                latest(batch, name)
            } else {
                as_map(records)[name]
            },
    );
    lemma_batch_keeps_well_formed(RegistryPolicy::Keyed, records, batch);
    lemma_snapshot_lists_records(RegistryPolicy::Keyed, after);
    if batch.len() > 0 {
        let front = batch.drop_last();
        let last = batch.last();
        lemma_keyed_batch_holds_latest(records, front);
        lemma_keyed_registration_inserts(
            registered_all(RegistryPolicy::Keyed, records, front),
            last,
        );
        // The names of the batch are those of its front and the last one.
        assert forall|name: Seq<char>| holds_name(batch, name) <==> (name == last.name
            || holds_name(front, name)) by {
            if holds_name(batch, name) && name != last.name {
                let i = choose|i: int| 0 <= i < batch.len() && #[trigger] batch[i].name == name;
                assert(front[i].name == name);
            }
            if name == last.name {
                assert(batch[batch.len() - 1].name == name);
            } else if holds_name(front, name) {
                let i = choose|i: int| 0 <= i < front.len() && #[trigger] front[i].name == name;
                assert(batch[i].name == name);
            }
        }
    }
    assert(as_map(after) =~= expected);
}

/// Registrations under names that are new and differ from each other are
/// all kept, whole and one record each, under either policy: the registry
/// then holds what it held before, followed by the batch. This is so for
/// every order in which the registrations are made.
pub proof fn lemma_distinct_names_all_kept(
    policy: RegistryPolicy,
    records: Seq<RecordView>,
    batch: Seq<RecordView>,
)
    requires
        names_distinct(batch),
        forall|k: int| 0 <= k < batch.len() ==> !holds_name(records, #[trigger] batch[k].name),
    ensures
        registered_all(policy, records, batch) == records + batch,
        listed(snapshot_of(policy, registered_all(policy, records, batch))) == records + batch,
    decreases batch.len(),
{
    if batch.len() == 0 {
        assert(records + batch =~= records);
    } else {
        let front = batch.drop_last();
        let last = batch.last();
        assert forall|k: int| 0 <= k < front.len() implies !holds_name(
            records,
            #[trigger] front[k].name,
        ) by {
            assert(front[k] == batch[k]);
        }
        assert forall|i: int, j: int| 0 <= i < j < front.len() implies #[trigger] front[i].name
            != #[trigger] front[j].name by {
            assert(batch[i].name != batch[j].name);
        }
        lemma_distinct_names_all_kept(policy, records, front);
        // The last name is new to the registry and to the front of the
        // batch, so the last record is appended under either policy.
        let before = records + front;
        assert forall|i: int| 0 <= i < before.len() implies (#[trigger] before[i]).name
            != last.name by {
            if i < records.len() {
                assert(records[i].name == before[i].name);
                assert(!holds_name(records, batch[batch.len() - 1].name));
            } else {
                assert(batch[i - records.len()].name != batch[batch.len() - 1].name);
            }
        }
        assert(before.push(last) =~= records + batch);
    }
    lemma_snapshot_lists_records(policy, registered_all(policy, records, batch));
}

/// A batch of distinct names stays one when its order changes, and holds the
/// same names.
proof fn lemma_reordering_keeps_names(batch: Seq<RecordView>, reordered: Seq<RecordView>)
    requires
        names_distinct(batch),
        reordered.to_multiset() == batch.to_multiset(),
    ensures
        names_distinct(reordered),
        reordered.len() == batch.len(),
        forall|k: int|
            0 <= k < reordered.len() ==> holds_name(batch, (#[trigger] reordered[k]).name),
{
    batch.to_multiset_ensures();
    reordered.to_multiset_ensures();
    // Every record of the one occurs in the other.
    assert forall|k: int| 0 <= k < reordered.len() implies batch.contains(
        #[trigger] reordered[k],
    ) by {
        assert(batch.to_multiset().count(reordered[k]) > 0);
    }
    assert forall|k: int| 0 <= k < reordered.len() implies holds_name(
        batch,
        (#[trigger] reordered[k]).name,
    ) by {
        let a = choose|a: int| 0 <= a < batch.len() && batch[a] == reordered[k];
        assert(batch[a].name == reordered[k].name);
    }
    // No record occurs twice in the batch, so none does in the other order.
    assert(batch.no_duplicates()) by {
        assert forall|i: int, j: int|
            0 <= i < batch.len() && 0 <= j < batch.len() && i != j implies batch[i]
            != batch[j] by {
            if i < j {
                assert(batch[i].name != batch[j].name);
            } else {
                assert(batch[j].name != batch[i].name);
            }
        }
    }
    batch.lemma_multiset_has_no_duplicates();
    reordered.lemma_multiset_has_no_duplicates_conv();
    // Two records of one name would be one record of the batch, twice.
    assert forall|i: int, j: int| 0 <= i < j < reordered.len() implies #[trigger] reordered[i].name
        != #[trigger] reordered[j].name by {
        let a = choose|a: int| 0 <= a < batch.len() && batch[a] == reordered[i];
        let b = choose|b: int| 0 <= b < batch.len() && batch[b] == reordered[j];
        if a < b {
            assert(batch[a].name != batch[b].name);
        } else if b < a {
            assert(batch[b].name != batch[a].name);
        } else {
            assert(reordered[i] != reordered[j]);
        }
    }
}

/// The order in which registrations under names that are new and differ
/// from each other are made does not matter for what the registry then
/// holds: in any order they leave the same records, one for each
/// registration. Registrations that run at the same time are made one after
/// another in an order that the lock picks; this is why a snapshot taken
/// after them shows them all, whichever order that was.
pub proof fn lemma_order_of_distinct_names_is_immaterial(
    policy: RegistryPolicy,
    records: Seq<RecordView>,
    batch: Seq<RecordView>,
    reordered: Seq<RecordView>,
)
    requires
        names_distinct(batch),
        forall|k: int| 0 <= k < batch.len() ==> !holds_name(records, #[trigger] batch[k].name),
        reordered.to_multiset() == batch.to_multiset(),
    ensures
        registered_all(policy, records, reordered) == records + reordered,
        registered_all(policy, records, reordered).len() == records.len() + batch.len(),
        registered_all(policy, records, reordered).to_multiset() == registered_all(
            policy,
            records,
            batch,
        ).to_multiset(),
{
    lemma_reordering_keeps_names(batch, reordered);
    assert forall|k: int| 0 <= k < reordered.len() implies !holds_name(
        records,
        #[trigger] reordered[k].name,
    ) by {
        let a = choose|a: int|
            0 <= a < batch.len() && #[trigger] batch[a].name == reordered[k].name;
        assert(!holds_name(records, batch[a].name));
    }
    lemma_distinct_names_all_kept(policy, records, batch);
    lemma_distinct_names_all_kept(policy, records, reordered);
    vstd::seq_lib::lemma_multiset_commutative(records, batch);
    vstd::seq_lib::lemma_multiset_commutative(records, reordered);
}

/// A record comes back as it went in: after its registration the snapshot
/// lists the record itself, so its endpoints and its authorized roles are
/// those submitted, element for element and in their order.
pub proof fn lemma_registered_record_is_listed(
    policy: RegistryPolicy,
    records: Seq<RecordView>,
    record: RecordView,
)
    ensures
        ({
            let after = listed(snapshot_of(policy, registered(policy, records, record)));
            exists|i: int|
                {
                    &&& 0 <= i < after.len()
                    &&& #[trigger] after[i] == record
                    &&& after[i].endpoints == record.endpoints
                    &&& after[i].authorized_roles == record.authorized_roles
                }
        }),
{
    let after = registered(policy, records, record);
    lemma_snapshot_lists_records(policy, after);
    if policy == RegistryPolicy::Keyed && holds_name(records, record.name) {
        let i = choose|i: int| 0 <= i < records.len() && #[trigger] records[i].name == record.name;
        assert(after[i] == record);
    } else {
        assert(after[records.len() as int] == record);
    }
}

} // verus!
