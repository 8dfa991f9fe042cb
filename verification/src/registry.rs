//! The registry: the collection of service records and its two operations.

use crate::lemmas::lemma_registration_keeps_well_formed;
use crate::model::{
    consistent, holds_name, policy_of, registered, snapshot_of, well_formed, RegistryPolicy,
};
use crate::record::{RecordView, ServiceRecord};
use crate::snapshot::{KeyedRecord, Snapshot};
use vstd::prelude::*;

verus! {

/// The collection of service records. It starts empty and changes only
/// through [`Registry::register`].
pub struct Registry {
    policy: RegistryPolicy,
    records: Vec<ServiceRecord>,
}

impl View for Registry {
    type V = Seq<RecordView>;

    /// The records in listing order.
    closed spec fn view(&self) -> Seq<RecordView> {
        self.records@.map_values(|record: ServiceRecord| record@)
    }
}

impl Registry {
    #[verifier::type_invariant]
    spec fn valid(self) -> bool {
        well_formed(self.policy, self@)
    }

    /// The policy that the registry was made with.
    pub closed spec fn spec_policy(&self) -> RegistryPolicy {
        self.policy
    }

    /// An empty registry that follows `policy`.
    pub fn new(policy: RegistryPolicy) -> (registry: Registry)
        ensures
            registry.policy() == policy,
            registry@ == Seq::<RecordView>::empty(),
    {
        let registry = Registry { policy, records: Vec::new() };
        assert(registry@ =~= Seq::<RecordView>::empty());
        registry
    }

    /// The policy that the registry was made with.
    #[verifier::when_used_as_spec(spec_policy)]
    pub fn policy(&self) -> (policy: RegistryPolicy)
        ensures
            policy == self.policy(),
            well_formed(policy, self@),
    {
        proof {
            use_type_invariant(self);
        }
        self.policy
    }

    /// The number of records held.
    pub fn len(&self) -> (len: usize)
        ensures
            len == self@.len(),
    {
        self.records.len()
    }

    /// The place of the record named `name`, if there is one.
    fn find(&self, name: &String) -> (found: Option<usize>)
        ensures
            match found {
                Some(i) => i < self@.len() && self@[i as int].name == name@,
                None => !holds_name(self@, name@),
            },
    {
        let mut i: usize = 0;
        while i < self.records.len()
            invariant
                i <= self.records.len(),
                forall|j: int| 0 <= j < i ==> (#[trigger] self@[j]).name != name@,
            decreases self.records.len() - i,
        {
            if self.records[i].name == *name {
                return Some(i);
            }
            i += 1;
        }
        None
    }

    /// Registers `record`. Under the keyed policy it takes the place of the
    /// record of the same name, if there is one; otherwise, and always under
    /// the sequence policy, it is appended. Registration never fails.
    pub fn register(&mut self, record: ServiceRecord)
        ensures
            final(self).policy() == old(self).policy(),
            final(self)@ == registered(old(self).policy(), old(self)@, record@),
            well_formed(final(self).policy(), final(self)@),
    {
        proof {
            use_type_invariant(&*self);
        }
        let found = match self.policy {
            RegistryPolicy::Keyed => self.find(&record.name),
            RegistryPolicy::Sequence => None,
        };
        let ghost before = self@;
        // A push may unwind, so the change is made on the vector while the
        // registry holds an empty one in its place.
        let mut records = Vec::new();
        std::mem::swap(&mut records, &mut self.records);
        match found {
            Some(i) => {
                records[i] = record;
            },
            None => {
                records.push(record);
            },
        }
        proof {
            let after = records@.map_values(|record: ServiceRecord| record@);
            assert(after =~= registered(self.policy, before, record@));
            lemma_registration_keeps_well_formed(self.policy, before, record@);
        }
        self.records = records;
    }

    /// A copy of every record, in listing order: under the keyed policy each
    /// paired with its name as key, under the sequence policy in the order
    /// of registration. The registry is left as it is.
    pub fn snapshot(&self) -> (snapshot: Snapshot)
        ensures
            snapshot@ == snapshot_of(self.policy(), self@),
            policy_of(snapshot@) == self.policy(),
            consistent(snapshot@),
    {
        proof {
            use_type_invariant(self);
        }
        match self.policy {
            RegistryPolicy::Keyed => {
                let mut pairs: Vec<KeyedRecord> = Vec::new();
                let mut i: usize = 0;
                while i < self.records.len()
                    invariant
                        i <= self.records.len(),
                        pairs@.len() == i,
                        forall|j: int|
                            0 <= j < i ==> (#[trigger] pairs@[j])@ == (self@[j].name, self@[j]),
                    decreases self.records.len() - i,
                {
                    let record = self.records[i].clone();
                    let key = record.name.clone();
                    pairs.push(KeyedRecord { key, record });
                    i += 1;
                }
                let snapshot = Snapshot::Keyed(pairs);
                assert(snapshot@ == snapshot_of(self.policy(), self@)) by {
                    assert(pairs@.map_values(|pair: KeyedRecord| pair@) =~= Seq::new(
                        self@.len(),
                        |j: int| (self@[j].name, self@[j]),
                    ));
                }
                snapshot
            },
            RegistryPolicy::Sequence => {
                let mut copies: Vec<ServiceRecord> = Vec::new();
                let mut i: usize = 0;
                while i < self.records.len()
                    invariant
                        i <= self.records.len(),
                        copies@.len() == i,
                        forall|j: int| 0 <= j < i ==> (#[trigger] copies@[j])@ == self@[j],
                    decreases self.records.len() - i,
                {
                    copies.push(self.records[i].clone());
                    i += 1;
                }
                let snapshot = Snapshot::Sequence(copies);
                assert(snapshot@ == snapshot_of(self.policy(), self@)) by {
                    assert(copies@.map_values(|record: ServiceRecord| record@) =~= self@);
                }
                snapshot
            },
        }
    }
}

} // verus!
