//! The store: one registry behind one readers-writer lock, shared by every
//! handle on it.
//!
//! Each operation takes the lock once and gives it up before it returns, and
//! none calls another while it holds the lock. A registration therefore
//! excludes every other operation for its duration, and a snapshot shows the
//! registry as it stood between two registrations, never one half made.
//!
//! What other threads do between two operations is out of sight of the
//! contracts here. They state what holds of every registry that the lock can
//! hand out: the invariant of [`Registry`], and the policy, which a store
//! keeps for life. What one registration or one snapshot does to a given
//! registry is stated on [`Registry::register`] and [`Registry::snapshot`].

use crate::lock::{
    exclusive_value, lock_exclusive, lock_shared, new_lock, share, shared_value,
};
use crate::model::{consistent, policy_of, registered, RegistryPolicy};
use crate::record::{RecordView, ServiceRecord};
use crate::registry::Registry;
use crate::snapshot::Snapshot;
use std::sync::Arc;
use vstd::prelude::*;

verus! {

/// The policy that the type `Pinned<KEYED>` stands for.
spec fn pinned_policy(keyed: bool) -> RegistryPolicy {
    if keyed {
        RegistryPolicy::Keyed
    } else {
        RegistryPolicy::Sequence
    }
}

/// A registry whose policy is written in its type. Nothing is known of what
/// a lock holds but the type, so this is how a store knows the policy of the
/// registry that its lock hands out.
struct Pinned<const KEYED: bool> {
    registry: Registry,
}

impl<const KEYED: bool> Pinned<KEYED> {
    #[verifier::type_invariant]
    spec fn pinned(self) -> bool {
        self.registry.policy() == pinned_policy(KEYED)
    }

    /// An empty registry of the policy that the type names.
    fn new() -> (pinned: Pinned<KEYED>)
        ensures
            pinned.registry.policy() == pinned_policy(KEYED),
            pinned.registry@ == Seq::<RecordView>::empty(),
    {
        let policy = if KEYED {
            RegistryPolicy::Keyed
        } else {
            RegistryPolicy::Sequence
        };
        Pinned { registry: Registry::new(policy) }
    }

    /// Registers `record` as [`Registry::register`] does, under the policy
    /// that the type names.
    fn register(&mut self, record: ServiceRecord)
        ensures
            final(self).registry.policy() == pinned_policy(KEYED),
            final(self).registry@ == registered(
                pinned_policy(KEYED),
                old(self).registry@,
                record@,
            ),
    {
        proof {
            use_type_invariant(&*self);
        }
        // A registration may unwind, so it is made on the registry while an
        // empty one of the same policy stands in its place.
        let mut registry = Registry::new(self.registry.policy());
        std::mem::swap(&mut registry, &mut self.registry);
        registry.register(record);
        self.registry = registry;
    }

    fn snapshot(&self) -> (snapshot: Snapshot)
        ensures
            policy_of(snapshot@) == pinned_policy(KEYED),
            consistent(snapshot@),
    {
        proof {
            use_type_invariant(self);
        }
        self.registry.snapshot()
    }
}

/// The lock of a store, one variant for each policy.
enum Shared {
    Keyed(Arc<parking_lot::RwLock<Pinned<true>>>),
    Sequence(Arc<parking_lot::RwLock<Pinned<false>>>),
}

/// A handle on a shared registry. Handles are made from one another with
/// `clone` and are passed to whoever needs the registry; all of them reach
/// the same records.
pub struct Store {
    service_list: Shared,
}

impl Store {
    /// The policy that the store was made with.
    pub closed spec fn spec_policy(&self) -> RegistryPolicy {
        match self.service_list {
            Shared::Keyed(_) => RegistryPolicy::Keyed,
            Shared::Sequence(_) => RegistryPolicy::Sequence,
        }
    }

    /// A store around a new, empty registry that follows `policy`.
    pub fn new(policy: RegistryPolicy) -> (store: Store)
        ensures
            store.policy() == policy,
    {
        match policy {
            RegistryPolicy::Keyed => Store {
                service_list: Shared::Keyed(Arc::new(new_lock(Pinned::new()))),
            },
            RegistryPolicy::Sequence => Store {
                service_list: Shared::Sequence(Arc::new(new_lock(Pinned::new()))),
            },
        }
    }

    /// The policy that the store was made with.
    #[verifier::when_used_as_spec(spec_policy)]
    pub fn policy(&self) -> (policy: RegistryPolicy)
        ensures
            policy == self.policy(),
    {
        match &self.service_list {
            Shared::Keyed(_) => RegistryPolicy::Keyed,
            Shared::Sequence(_) => RegistryPolicy::Sequence,
        }
    }

    /// Registers `record` in the shared registry, as [`Registry::register`]
    /// does, while no other operation is under way. It never fails.
    pub fn register(&self, record: ServiceRecord) {
        match &self.service_list {
            Shared::Keyed(lock) => {
                let mut access = lock_exclusive(lock);
                exclusive_value(&mut access).register(record);
            },
            Shared::Sequence(lock) => {
                let mut access = lock_exclusive(lock);
                exclusive_value(&mut access).register(record);
            },
        }
    }

    /// A snapshot of the shared registry, as [`Registry::snapshot`] makes
    /// it, taken while no registration is under way. Whatever was registered
    /// by then, the snapshot has the shape of the store's policy and is
    /// consistent.
    pub fn snapshot(&self) -> (snapshot: Snapshot)
        ensures
            policy_of(snapshot@) == self.policy(),
            consistent(snapshot@),
    {
        match &self.service_list {
            Shared::Keyed(lock) => {
                let access = lock_shared(lock);
                shared_value(&access).snapshot()
            },
            Shared::Sequence(lock) => {
                let access = lock_shared(lock);
                shared_value(&access).snapshot()
            },
        }
    }
}

impl Clone for Store {
    /// Another handle on the same registry.
    fn clone(&self) -> (handle: Store)
        ensures
            handle == *self,
    {
        match &self.service_list {
            Shared::Keyed(lock) => Store { service_list: Shared::Keyed(share(lock)) },
            Shared::Sequence(lock) => Store { service_list: Shared::Sequence(share(lock)) },
        }
    }
}

} // verus!
