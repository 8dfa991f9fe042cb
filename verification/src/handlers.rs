//! The two request handlers and the replies they give. A handler takes what
//! the dispatcher decoded and a handle on the store, and returns the reply
//! as plain values; sending it is the dispatcher's business.

use crate::model::{consistent, policy_of};
use crate::record::ServiceRecord;
use crate::snapshot::Snapshot;
use crate::store::Store;
use vstd::prelude::*;

verus! {

/// The first path segment of both routes.
pub const API_VERSION: &'static str = "v1";

/// The second path segment of both routes.
pub const API_END_POINT: &'static str = "services";

/// The largest registration body, in bytes, that the dispatcher lets pass.
pub const MAX_PAYLOAD_SIZE: u64 = 16384;

/// The status of a listing.
pub const STATUS_OK: u16 = 200;

/// The status of a registration.
pub const STATUS_CREATED: u16 = 201;

/// The text that acknowledges a registration.
pub const ADDED_MESSAGE: &'static str = "Added items to the service list";

/// The reply to a registration.
#[derive(Debug, PartialEq, Eq)]
pub struct Acknowledgment {
    pub status: u16,
    pub message: &'static str,
}

/// The reply to a listing request.
#[derive(Debug, PartialEq, Eq)]
pub struct Listing {
    pub status: u16,
    pub services: Snapshot,
}

impl Acknowledgment {
    /// The one acknowledgment there is: "created", with the fixed text.
    pub fn created() -> (reply: Acknowledgment)
        ensures
            reply.status == STATUS_CREATED,
            reply.message@ == ADDED_MESSAGE@,
    {
        Acknowledgment { status: STATUS_CREATED, message: ADDED_MESSAGE }
    }
}

impl Listing {
    /// The listing that shows `snapshot`: every record of it, in its order
    /// and under its keys. An empty snapshot gives an empty listing.
    pub fn of(snapshot: Snapshot) -> (reply: Listing)
        ensures
            reply.status == STATUS_OK,
            reply.services == snapshot,
    {
        Listing { status: STATUS_OK, services: snapshot }
    }
}

/// Handles a registration: builds a record of its own from the fields of
/// `item`, registers it in the store and acknowledges. There is no failure
/// path.
pub fn add_service_list_item(item: ServiceRecord, store: Store) -> (reply: Acknowledgment)
    ensures
        reply.status == STATUS_CREATED,
        reply.message@ == ADDED_MESSAGE@,
{
    let ServiceRecord { name, url, endpoints, authorized_roles } = item;
    let record = ServiceRecord::new(name, url, endpoints, authorized_roles);
    store.register(record);
    Acknowledgment::created()
}

/// Handles a listing request: takes a snapshot of the store and lists it.
/// It never fails; an empty store gives an empty listing.
pub fn get_service_list(store: Store) -> (reply: Listing)
    ensures
        reply.status == STATUS_OK,
        policy_of(reply.services@) == store.policy(),
        consistent(reply.services@),
{
    Listing::of(store.snapshot())
}

} // verus!
