use service_registry::model::RegistryPolicy;
use service_registry::record::ServiceRecord;
use service_registry::snapshot::Snapshot;
use service_registry::store::Store;

fn numbered(index: usize) -> ServiceRecord {
    ServiceRecord::new(
        format!("service-{index}"),
        format!("http://host-{index}"),
        vec![format!("/a/{index}"), format!("/b/{index}")],
        vec![format!("role-{index}")],
    )
}

fn runtime() -> tokio::runtime::Runtime {
    tokio::runtime::Builder::new_multi_thread().worker_threads(4).build().unwrap()
}

fn registered_concurrently(policy: RegistryPolicy, count: usize) -> Snapshot {
    let store = Store::new(policy);
    let runtime = runtime();
    let mut tasks = Vec::new();
    for index in 0..count {
        let handle = store.clone();
        tasks.push(runtime.spawn_blocking(move || handle.register(numbered(index))));
    }
    for task in tasks {
        runtime.block_on(task).unwrap();
    }
    store.snapshot()
}

#[test]
fn concurrent_registrations_of_distinct_names_are_all_kept_whole_keyed() {
    let count = 16;
    match registered_concurrently(RegistryPolicy::Keyed, count) {
        Snapshot::Keyed(pairs) => {
            assert_eq!(pairs.len(), count);
            for index in 0..count {
                let expected = numbered(index);
                let found: Vec<_> = pairs.iter().filter(|pair| pair.key == expected.name).collect();
                assert_eq!(found.len(), 1);
                assert_eq!(found[0].record, expected);
            }
        }
        Snapshot::Sequence(_) => panic!("a keyed store gave a sequence snapshot"),
    }
}

#[test]
fn concurrent_registrations_of_distinct_names_are_all_kept_whole_sequence() {
    let count = 16;
    match registered_concurrently(RegistryPolicy::Sequence, count) {
        Snapshot::Sequence(records) => {
            assert_eq!(records.len(), count);
            for index in 0..count {
                let expected = numbered(index);
                assert_eq!(records.iter().filter(|record| **record == expected).count(), 1);
            }
        }
        Snapshot::Keyed(_) => panic!("a sequence store gave a keyed snapshot"),
    }
}

#[test]
fn snapshots_taken_during_registrations_are_consistent() {
    let store = Store::new(RegistryPolicy::Keyed);
    let runtime = runtime();
    let mut tasks = Vec::new();
    for index in 0..8 {
        let handle = store.clone();
        tasks.push(runtime.spawn_blocking(move || {
            for round in 0..20 {
                let mut record = numbered(index);
                record.url = format!("http://host-{index}/{round}");
                handle.register(record);
            }
        }));
    }
    let reader = store.clone();
    tasks.push(runtime.spawn_blocking(move || {
        for _ in 0..50 {
            match reader.snapshot() {
                Snapshot::Keyed(pairs) => {
                    for (at, pair) in pairs.iter().enumerate() {
                        assert_eq!(pair.key, pair.record.name);
                        assert_eq!(pair.record.endpoints.len(), 2);
                        assert_eq!(pair.record.authorized_roles.len(), 1);
                        assert!(pairs[..at].iter().all(|other| other.key != pair.key));
                    }
                }
                Snapshot::Sequence(_) => panic!("a keyed store gave a sequence snapshot"),
            }
        }
    }));
    for task in tasks {
        runtime.block_on(task).unwrap();
    }
    assert_eq!(store.snapshot().len(), 8);
}
