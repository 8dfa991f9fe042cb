use service_registry::handlers::{
    add_service_list_item, get_service_list, Acknowledgment, Listing, ADDED_MESSAGE, API_END_POINT,
    API_VERSION, MAX_PAYLOAD_SIZE, STATUS_CREATED, STATUS_OK,
};
use service_registry::model::RegistryPolicy;
use service_registry::record::ServiceRecord;
use service_registry::snapshot::{KeyedRecord, Snapshot};
use service_registry::store::Store;

fn service(name: &str, url: &str) -> ServiceRecord {
    ServiceRecord::new(
        name.to_string(),
        url.to_string(),
        vec!["/health".to_string(), "/v1".to_string()],
        vec!["admin".to_string()],
    )
}

fn pair(record: ServiceRecord) -> KeyedRecord {
    KeyedRecord { key: record.name.clone(), record }
}

#[test]
fn fresh_store_snapshot_is_empty() {
    assert_eq!(Store::new(RegistryPolicy::Keyed).snapshot(), Snapshot::Keyed(Vec::new()));
    assert_eq!(Store::new(RegistryPolicy::Sequence).snapshot(), Snapshot::Sequence(Vec::new()));
}

#[test]
fn store_keeps_the_policy_it_was_made_with() {
    let keyed_store = Store::new(RegistryPolicy::Keyed);
    let sequence_store = Store::new(RegistryPolicy::Sequence);
    assert_eq!(keyed_store.policy(), RegistryPolicy::Keyed);
    assert_eq!(sequence_store.policy(), RegistryPolicy::Sequence);
    keyed_store.register(service("a", "u1"));
    sequence_store.register(service("a", "u1"));
    assert_eq!(keyed_store.policy(), RegistryPolicy::Keyed);
    assert_eq!(sequence_store.policy(), RegistryPolicy::Sequence);
    assert_eq!(keyed_store.clone().policy(), RegistryPolicy::Keyed);
    assert_eq!(sequence_store.clone().policy(), RegistryPolicy::Sequence);
    assert!(matches!(keyed_store.snapshot(), Snapshot::Keyed(_)));
    assert!(matches!(sequence_store.snapshot(), Snapshot::Sequence(_)));
}

#[test]
fn store_snapshot_shows_what_was_registered() {
    let store = Store::new(RegistryPolicy::Keyed);
    store.register(service("a", "u1"));
    store.register(service("b", "u2"));
    assert_eq!(
        store.snapshot(),
        Snapshot::Keyed(vec![pair(service("a", "u1")), pair(service("b", "u2"))])
    );
}

#[test]
fn keyed_store_keeps_the_latest_registration_of_a_name() {
    let store = Store::new(RegistryPolicy::Keyed);
    store.register(service("a", "u1"));
    store.register(service("a", "u2"));
    assert_eq!(store.snapshot(), Snapshot::Keyed(vec![pair(service("a", "u2"))]));
}

#[test]
fn sequence_store_keeps_every_registration() {
    let store = Store::new(RegistryPolicy::Sequence);
    store.register(service("a", "u1"));
    store.register(service("a", "u2"));
    assert_eq!(
        store.snapshot(),
        Snapshot::Sequence(vec![service("a", "u1"), service("a", "u2")])
    );
}

#[test]
fn cloned_handles_reach_the_same_registry() {
    let store = Store::new(RegistryPolicy::Sequence);
    let other = store.clone();
    other.register(service("a", "u1"));
    store.register(service("b", "u2"));
    let expected = Snapshot::Sequence(vec![service("a", "u1"), service("b", "u2")]);
    assert_eq!(store.snapshot(), expected);
    assert_eq!(other.snapshot(), expected);
}

#[test]
fn separate_stores_do_not_share_records() {
    let first = Store::new(RegistryPolicy::Keyed);
    let second = Store::new(RegistryPolicy::Keyed);
    first.register(service("a", "u1"));
    assert_eq!(first.snapshot().len(), 1);
    assert_eq!(second.snapshot().len(), 0);
}

#[test]
fn snapshots_may_be_held_together() {
    let store = Store::new(RegistryPolicy::Keyed);
    store.register(service("a", "u1"));
    let first = store.snapshot();
    let second = store.snapshot();
    store.register(service("b", "u2"));
    assert_eq!(first, second);
    assert_eq!(store.snapshot().len(), 2);
}

#[test]
fn acknowledgment_is_created_with_the_fixed_text() {
    let reply = Acknowledgment::created();
    assert_eq!(reply.status, 201);
    assert_eq!(reply.message, "Added items to the service list");
}

#[test]
fn listing_shows_its_snapshot_with_status_ok() {
    let snapshot = Snapshot::Sequence(vec![service("a", "u1")]);
    let reply = Listing::of(snapshot);
    assert_eq!(reply.status, 200);
    assert_eq!(reply.services, Snapshot::Sequence(vec![service("a", "u1")]));
}

#[test]
fn registration_handler_registers_and_acknowledges() {
    let store = Store::new(RegistryPolicy::Keyed);
    let reply = add_service_list_item(service("auth", "http://auth"), store.clone());
    assert_eq!(reply, Acknowledgment { status: 201, message: "Added items to the service list" });
    assert_eq!(store.snapshot(), Snapshot::Keyed(vec![pair(service("auth", "http://auth"))]));
}

#[test]
fn registration_handler_replaces_under_the_keyed_policy() {
    let store = Store::new(RegistryPolicy::Keyed);
    add_service_list_item(service("a", "u1"), store.clone());
    let reply = add_service_list_item(service("a", "u2"), store.clone());
    assert_eq!(reply.status, STATUS_CREATED);
    assert_eq!(reply.message, ADDED_MESSAGE);
    assert_eq!(
        get_service_list(store.clone()),
        Listing { status: 200, services: Snapshot::Keyed(vec![pair(service("a", "u2"))]) }
    );
}

#[test]
fn registration_handler_appends_under_the_sequence_policy() {
    let store = Store::new(RegistryPolicy::Sequence);
    add_service_list_item(service("a", "u1"), store.clone());
    add_service_list_item(service("a", "u2"), store.clone());
    assert_eq!(
        get_service_list(store.clone()),
        Listing {
            status: 200,
            services: Snapshot::Sequence(vec![service("a", "u1"), service("a", "u2")]),
        }
    );
}

#[test]
fn listing_handler_gives_an_empty_listing_for_an_empty_store() {
    let keyed_reply = get_service_list(Store::new(RegistryPolicy::Keyed));
    assert_eq!(keyed_reply.status, STATUS_OK);
    assert_eq!(keyed_reply.services, Snapshot::Keyed(Vec::new()));
    let sequence_reply = get_service_list(Store::new(RegistryPolicy::Sequence));
    assert_eq!(sequence_reply.status, STATUS_OK);
    assert_eq!(sequence_reply.services, Snapshot::Sequence(Vec::new()));
}

#[test]
fn listing_handler_returns_endpoints_and_roles_as_submitted() {
    let store = Store::new(RegistryPolicy::Keyed);
    let submitted = ServiceRecord::new(
        "svc".to_string(),
        "http://svc".to_string(),
        vec!["/b".to_string(), "/a".to_string(), "/b".to_string()],
        vec!["r2".to_string(), "r1".to_string()],
    );
    add_service_list_item(submitted.clone(), store.clone());
    match get_service_list(store.clone()).services {
        Snapshot::Keyed(pairs) => {
            assert_eq!(pairs.len(), 1);
            assert_eq!(pairs[0].key, "svc");
            assert_eq!(pairs[0].record.endpoints, submitted.endpoints);
            assert_eq!(pairs[0].record.authorized_roles, submitted.authorized_roles);
        }
        Snapshot::Sequence(_) => panic!("a keyed store gave a sequence listing"),
    }
}

#[test]
fn the_constants_of_the_interface() {
    assert_eq!(API_VERSION, "v1");
    assert_eq!(API_END_POINT, "services");
    assert_eq!(MAX_PAYLOAD_SIZE, 16 * 1024);
    assert_eq!(STATUS_OK, 200);
    assert_eq!(STATUS_CREATED, 201);
    assert_eq!(ADDED_MESSAGE, "Added items to the service list");
}
