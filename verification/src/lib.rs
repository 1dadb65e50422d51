//! Households invited to an event, the answers of their members, and the
//! decisions of the service that keeps them in a partitioned row store.
//!
//! The library performs no I/O. Every operation of [`service::HouseholdService`]
//! is a sequence of steps: a step either names the one request to make of the
//! store or ends the operation, and the store's reply is handed back to obtain
//! the next step.

pub mod conversation;
pub mod error;
pub mod failure;
pub mod household;
pub mod ident;
pub mod person;
pub mod record;
pub mod retry;
pub mod rsvp;
pub mod service;
pub mod table;

pub use error::{ConfigError, DecodeError, ServiceError, ValidationError};
pub use failure::StoreFailure;
pub use household::Household;
pub use ident::HouseholdId;
pub use person::{Contact, Person};
pub use record::HouseholdRecord;
pub use retry::RetryPolicy;
pub use rsvp::{DietaryRestrictions, DishPreference, RSVP};
pub use service::{HouseholdService, Operation, ServiceConfig, Step, StoreEvent};
