//! The service record and its mathematical view.

use vstd::prelude::*;

verus! {

/// What a [`ServiceRecord`] stands for in contracts: its four fields as
/// sequences of characters.
pub struct RecordView {
    pub name: Seq<char>,
    pub url: Seq<char>,
    pub endpoints: Seq<Seq<char>>,
    pub authorized_roles: Seq<Seq<char>>,
}

/// One registered service. No field is validated: any string content is
/// accepted, the empty name included.
#[derive(Debug, PartialEq, Eq)]
pub struct ServiceRecord {
    pub name: String,
    pub url: String,
    pub endpoints: Vec<String>,
    pub authorized_roles: Vec<String>,
}

impl View for ServiceRecord {
    type V = RecordView;

    open spec fn view(&self) -> RecordView {
        RecordView {
            name: self.name@,
            url: self.url@,
            endpoints: self.endpoints.deep_view(),
            authorized_roles: self.authorized_roles.deep_view(),
        }
    }
}

impl ServiceRecord {
    /// Builds a record from its four fields, which are moved in unchanged.
    pub fn new(
        name: String,
        url: String,
        endpoints: Vec<String>,
        authorized_roles: Vec<String>,
    ) -> (record: ServiceRecord)
        ensures
            record@ == (RecordView {
                name: name@,
                url: url@,
                endpoints: endpoints.deep_view(),
                authorized_roles: authorized_roles.deep_view(),
            }),
    {
        ServiceRecord { name, url, endpoints, authorized_roles }
    }
}

impl Clone for ServiceRecord {
    /// A deep copy: every string is duplicated, in the same order.
    fn clone(&self) -> (copy: ServiceRecord)
        ensures
            copy@ == self@,
    {
        let endpoints = self.endpoints.clone();
        let authorized_roles = self.authorized_roles.clone();
        proof {
            assert(endpoints.deep_view() =~= self.endpoints.deep_view());
            assert(authorized_roles.deep_view() =~= self.authorized_roles.deep_view());
        }
        ServiceRecord {
            name: self.name.clone(),
            url: self.url.clone(),
            endpoints,
            authorized_roles,
        }
    }
}

} // verus!
