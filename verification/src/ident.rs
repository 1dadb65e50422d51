//! Household identifiers and their textual form, which is the partition key of
//! every row of the household.

use vstd::prelude::*;

verus! {

/// The text that `uuid` writes for the identifier with the given 128-bit value:
/// what `Uuid::to_string` returns for `Uuid::from_u128(value)`.
pub uninterp spec fn hyphenated_form(value: u128) -> Seq<char>;

/// The 128-bit value of the identifier that `Uuid::parse_str` reads from a text,
/// `None` where it rejects the text.
pub uninterp spec fn parsed_form(text: Seq<char>) -> Option<u128>;

/// Identifies one household. It stands for a UUID, held as its 128-bit value.
#[derive(Debug, Clone, Copy, PartialEq, Eq, Structural, Hash)]
pub struct HouseholdId {
    pub value: u128,
}

/// Calls `uuid::Uuid::to_string` on the identifier made by `Uuid::from_u128`.
/// Trusted: the result is the hyphenated form of the value, and `Uuid::parse_str`
/// reads that form back as the same value, as the documentation of `parse_str`
/// says of every format that the crate writes.
#[verifier::external_body]
fn format_uuid(value: u128) -> (text: String)
    ensures
        text@ == hyphenated_form(value),
        parsed_form(text@) == Some(value),
{
    uuid::Uuid::from_u128(value).to_string()
}

/// Calls `uuid::Uuid::parse_str`. Trusted: the result is the value of the
/// identifier that was read, `None` where the text was rejected.
#[verifier::external_body]
fn parse_uuid(text: &str) -> (value: Option<u128>)
    ensures
        value == parsed_form(text@),
{
    match uuid::Uuid::parse_str(text) {
        Ok(id) => Some(id.as_u128()),
        Err(_) => None,
    }
}

impl HouseholdId {
    /// The partition key of the household.
    pub open spec fn text(self) -> Seq<char> {
        hyphenated_form(self.value)
    }

    /// The identifier that a partition key denotes, if it denotes one.
    pub open spec fn parsed(text: Seq<char>) -> Option<HouseholdId> {
        match parsed_form(text) {
            Some(value) => Some(HouseholdId { value }),
            None => None,
        }
    }

    pub fn from_u128(value: u128) -> (id: HouseholdId)
        ensures
            id.value == value,
    {
        HouseholdId { value }
    }

    pub fn as_u128(&self) -> (value: u128)
        ensures
            value == self.value,
    {
        self.value
    }

    /// Writes the partition key. Parsing it gives the identifier back.
    pub fn to_text(&self) -> (text: String)
        ensures
            text@ == self.text(),
            HouseholdId::parsed(text@) == Some(*self),
    {
        format_uuid(self.value)
    }

    /// Reads a partition key.
    pub fn parse(text: &str) -> (id: Option<HouseholdId>)
        ensures
            id == HouseholdId::parsed(text@),
    {
        match parse_uuid(text) {
            Some(value) => Some(HouseholdId { value }),
            None => None,
        }
    }
}

} // verus!
