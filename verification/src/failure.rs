//! The ways in which a request to the store comes to nothing, and which of
//! them are worth another try.

use vstd::prelude::*;
use crate::service::{EventView, StoreEvent};

verus! {

/// Why a request came to nothing, as the store's client tells it.
#[derive(Debug, Clone, Copy, PartialEq, Eq, Structural, Hash)]
pub enum StoreFailure {
    /// The request could not be sent, or no reply came back.
    Dispatch,
    /// The store failed on its side.
    InternalServerError,
    /// The table was asked more than its throughput allows.
    ProvisionedThroughputExceeded,
    /// The account was asked more than its limit allows.
    RequestLimitExceeded,
    /// An item collection has grown too large.
    ItemCollectionSizeLimitExceeded,
    /// The table does not exist.
    ResourceNotFound,
    /// The credentials could not be had or were not taken.
    Credentials,
    /// The store found the request invalid.
    Validation,
    /// The reply could not be read.
    Parse,
    /// The store replied what its client does not know.
    Unknown,
    /// The client could not run the request.
    Blocking,
}

impl StoreFailure {
    /// Whether the same request may succeed later: failures of the transport,
    /// of the store's own side, and of its throttling pass; the others do not.
    pub open spec fn transient(self) -> bool {
        self is Dispatch || self is InternalServerError || self is ProvisionedThroughputExceeded
            || self is RequestLimitExceeded
    }

    /// What the service is told of the failure: that the store is unavailable
    /// where the failure passes, that it has refused otherwise.
    pub open spec fn reported_as(self) -> EventView {
        if self.transient() {
            EventView::Unavailable
        } else {
            EventView::Refused
        }
    }

    pub fn is_transient(&self) -> (transient: bool)
        ensures
            transient == self.transient(),
    {
        match self {
            StoreFailure::Dispatch => true,
            StoreFailure::InternalServerError => true,
            StoreFailure::ProvisionedThroughputExceeded => true,
            StoreFailure::RequestLimitExceeded => true,
            StoreFailure::ItemCollectionSizeLimitExceeded => false,
            StoreFailure::ResourceNotFound => false,
            StoreFailure::Credentials => false,
            StoreFailure::Validation => false,
            StoreFailure::Parse => false,
            StoreFailure::Unknown => false,
            StoreFailure::Blocking => false,
        }
    }

    /// The event to hand to the service for the failure.
    pub fn event(&self) -> (event: StoreEvent)
        ensures
            event.deep_view() == self.reported_as(),
    {
        if self.is_transient() {
            StoreEvent::Unavailable
        } else {
            StoreEvent::Refused
        }
    }
}

} // verus!
