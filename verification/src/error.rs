//! The failures that the library reports. None of them is fatal: each is a
//! value handed to the caller.

use vstd::prelude::*;

verus! {

/// An input that is refused before anything is asked of the store.
#[derive(Debug, Clone, Copy, PartialEq, Eq, Structural, Hash)]
pub enum ValidationError {
    /// A household needs at least one member.
    EmptyHousehold,
    /// A member names another household than the one it is put in.
    HouseholdMismatch,
    /// A member has no name.
    EmptyName,
    /// A member's contact has no value.
    EmptyContact,
}

/// A stored row that does not describe a person.
#[derive(Debug, Clone, Copy, PartialEq, Eq, Structural, Hash)]
pub enum DecodeError {
    /// The row has no household identifier, or none that can be read.
    MissingHouseholdId,
    /// The row has no name, or an empty one.
    MissingName,
    /// The row lacks the kind of contact or its value, or the value is empty.
    MissingContact,
    /// The kind of contact is none that the library knows.
    UnknownContact,
    /// The dietary restriction is none that the library knows.
    UnknownDietaryRestriction,
    /// The dish is none that the library knows.
    UnknownDishPreference,
}

/// A configuration that no service can work with.
#[derive(Debug, Clone, Copy, PartialEq, Eq, Structural, Hash)]
pub enum ConfigError {
    /// The table has no name.
    EmptyTableName,
    /// A batch must be allowed to hold at least one row.
    ZeroBatchSize,
    /// A batch must be written at least once.
    ZeroAttempts,
}

/// Why an operation of the service ended without a result.
#[derive(Debug, Clone, Copy, PartialEq, Eq, Structural, Hash)]
pub enum ServiceError {
    Validation(ValidationError),
    Decode(DecodeError),
    /// The household to update does not exist.
    NotFound,
    /// The store failed, or kept refusing rows until the retries were used up.
    Store,
    /// The caller's time limit passed.
    Timeout,
    /// The caller withdrew the request.
    Canceled,
}

impl ValidationError {
    pub open spec fn message_text(self) -> Seq<char> {
        match self {
            ValidationError::EmptyHousehold => "A household must have at least one person"@,
            ValidationError::HouseholdMismatch => "Every person must belong to the household"@,
            ValidationError::EmptyName => "A person must have a name"@,
            ValidationError::EmptyContact => "A contact must have a value"@,
        }
    }

    pub fn message(&self) -> (text: String)
        ensures
            text@ == self.message_text(),
    {
        match self {
            ValidationError::EmptyHousehold => {
                "A household must have at least one person".to_owned()
            },
            ValidationError::HouseholdMismatch => {
                "Every person must belong to the household".to_owned()
            },
            ValidationError::EmptyName => "A person must have a name".to_owned(),
            ValidationError::EmptyContact => "A contact must have a value".to_owned(),
        }
    }
}

impl DecodeError {
    pub open spec fn message_text(self) -> Seq<char> {
        match self {
            DecodeError::MissingHouseholdId => "The row has no household identifier"@,
            DecodeError::MissingName => "The row has no name"@,
            DecodeError::MissingContact => "The row has no contact"@,
            DecodeError::UnknownContact => "The row's kind of contact is unknown"@,
            DecodeError::UnknownDietaryRestriction => "The row's dietary restriction is unknown"@,
            DecodeError::UnknownDishPreference => "The row's dish is unknown"@,
        }
    }

    pub fn message(&self) -> (text: String)
        ensures
            text@ == self.message_text(),
    {
        match self {
            DecodeError::MissingHouseholdId => "The row has no household identifier".to_owned(),
            DecodeError::MissingName => "The row has no name".to_owned(),
            DecodeError::MissingContact => "The row has no contact".to_owned(),
            DecodeError::UnknownContact => "The row's kind of contact is unknown".to_owned(),
            DecodeError::UnknownDietaryRestriction => {
                "The row's dietary restriction is unknown".to_owned()
            },
            DecodeError::UnknownDishPreference => "The row's dish is unknown".to_owned(),
        }
    }
}

impl ConfigError {
    pub open spec fn message_text(self) -> Seq<char> {
        match self {
            ConfigError::EmptyTableName => "The table must have a name"@,
            ConfigError::ZeroBatchSize => "A batch must hold at least one row"@,
            ConfigError::ZeroAttempts => "A batch must be written at least once"@,
        }
    }

    pub fn message(&self) -> (text: String)
        ensures
            text@ == self.message_text(),
    {
        match self {
            ConfigError::EmptyTableName => "The table must have a name".to_owned(),
            ConfigError::ZeroBatchSize => "A batch must hold at least one row".to_owned(),
            ConfigError::ZeroAttempts => "A batch must be written at least once".to_owned(),
        }
    }
}

impl ServiceError {
    pub open spec fn message_text(self) -> Seq<char> {
        match self {
            ServiceError::Validation(e) => e.message_text(),
            ServiceError::Decode(e) => e.message_text(),
            ServiceError::NotFound => "That household doesn't exist"@,
            ServiceError::Store => "The store did not accept the request"@,
            ServiceError::Timeout => "The request timed out"@,
            ServiceError::Canceled => "The request was canceled"@,
        }
    }

    pub fn message(&self) -> (text: String)
        ensures
            text@ == self.message_text(),
    {
        match self {
            ServiceError::Validation(e) => e.message(),
            ServiceError::Decode(e) => e.message(),
            ServiceError::NotFound => "That household doesn't exist".to_owned(),
            ServiceError::Store => "The store did not accept the request".to_owned(),
            ServiceError::Timeout => "The request timed out".to_owned(),
            ServiceError::Canceled => "The request was canceled".to_owned(),
        }
    }
}

} // verus!
