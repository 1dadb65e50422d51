//! An invited person and how to reach them.

use vstd::prelude::*;
use crate::error::ValidationError;
use crate::ident::HouseholdId;
use crate::rsvp::{DietaryRestrictions, DishPreference, RSVP};

verus! {

/// How to reach a person. The value is an address or a number and is not empty.
/// Two contacts are equal when they are of the same kind and have the same
/// value.
#[derive(Debug, Clone, Eq, Hash)]
pub enum Contact {
    Email { value: String },
    SMS { value: String },
}

/// What a `Contact` holds.
pub enum ContactView {
    Email { value: Seq<char> },
    SMS { value: Seq<char> },
}

impl ContactView {
    pub open spec fn value(self) -> Seq<char> {
        match self {
            ContactView::Email { value } => value,
            ContactView::SMS { value } => value,
        }
    }

    pub open spec fn valid(self) -> bool {
        self.value().len() > 0
    }
}

impl DeepView for Contact {
    type V = ContactView;

    open spec fn deep_view(&self) -> ContactView {
        match self {
            Contact::Email { value } => ContactView::Email { value: value@ },
            Contact::SMS { value } => ContactView::SMS { value: value@ },
        }
    }
}

impl PartialEq for Contact {
    fn eq(&self, other: &Contact) -> (same: bool) {
        match (self, other) {
            (Contact::Email { value: mine }, Contact::Email { value: theirs }) => *mine == *theirs,
            (Contact::SMS { value: mine }, Contact::SMS { value: theirs }) => *mine == *theirs,
            _ => false,
        }
    }
}

impl vstd::std_specs::cmp::PartialEqSpecImpl for Contact {
    open spec fn obeys_eq_spec() -> bool {
        true
    }

    open spec fn eq_spec(&self, other: &Contact) -> bool {
        self.deep_view() == other.deep_view()
    }
}

impl Contact {
    /// A contact by e-mail, unless the address is empty.
    pub fn email(value: String) -> (made: Result<Contact, ValidationError>)
        ensures
            value@.len() > 0 ==> made is Ok && made->Ok_0.deep_view() == (ContactView::Email {
                value: value@,
            }),
            value@.len() == 0 ==> made == Err::<Contact, ValidationError>(
                ValidationError::EmptyContact,
            ),
    {
        if value.as_str().is_empty() {
            Err(ValidationError::EmptyContact)
        } else {
            Ok(Contact::Email { value })
        }
    }

    /// A contact by text message, unless the number is empty.
    pub fn sms(value: String) -> (made: Result<Contact, ValidationError>)
        ensures
            value@.len() > 0 ==> made is Ok && made->Ok_0.deep_view() == (ContactView::SMS {
                value: value@,
            }),
            value@.len() == 0 ==> made == Err::<Contact, ValidationError>(
                ValidationError::EmptyContact,
            ),
    {
        if value.as_str().is_empty() {
            Err(ValidationError::EmptyContact)
        } else {
            Ok(Contact::SMS { value })
        }
    }

    pub fn value(&self) -> (value: &String)
        ensures
            value@ == self.deep_view().value(),
    {
        match self {
            Contact::Email { value } => value,
            Contact::SMS { value } => value,
        }
    }

    pub fn is_valid(&self) -> (valid: bool)
        ensures
            valid == self.deep_view().valid(),
    {
        !self.value().as_str().is_empty()
    }

    /// A contact of the same kind with the same value.
    pub fn duplicate(&self) -> (copy: Contact)
        ensures
            copy.deep_view() == self.deep_view(),
    {
        match self {
            Contact::Email { value } => Contact::Email { value: value.clone() },
            Contact::SMS { value } => Contact::SMS { value: value.clone() },
        }
    }
}

/// One invited person. The attendance is open (`None`), yes or no; a diet and a
/// dish count only for one who attends, but are kept as given. Two people are
/// equal when all their fields are.
#[derive(Debug, Clone, Eq, Hash)]
pub struct Person {
    pub household_id: HouseholdId,
    pub name: String,
    pub contact: Contact,
    pub rsvp: Option<bool>,
    pub dietary_restrictions: Option<DietaryRestrictions>,
    pub dish_preference: Option<DishPreference>,
}

/// What a `Person` holds.
pub struct PersonView {
    pub household_id: HouseholdId,
    pub name: Seq<char>,
    pub contact: ContactView,
    pub rsvp: Option<bool>,
    pub dietary_restrictions: Option<DietaryRestrictions>,
    pub dish_preference: Option<DishPreference>,
}

impl PersonView {
    /// What is wrong with the person, if anything: the name is looked at before
    /// the contact.
    pub open spec fn fault(self) -> Option<ValidationError> {
        if self.name.len() == 0 {
            Some(ValidationError::EmptyName)
        } else if !self.contact.valid() {
            Some(ValidationError::EmptyContact)
        } else {
            None
        }
    }

    /// A person has a name and a contact with a value.
    pub open spec fn valid(self) -> bool {
        self.name.len() > 0 && self.contact.valid()
    }

    /// The answer as one value: open, no, or yes with the choices made.
    pub open spec fn answer(self) -> Option<RSVP> {
        match self.rsvp {
            None => None,
            Some(attending) => Some(
                RSVP::of(attending, self.dietary_restrictions, self.dish_preference),
            ),
        }
    }

    /// The person with the answer replaced by the given one.
    pub open spec fn answering(self, answer: Option<RSVP>) -> PersonView {
        match answer {
            None => PersonView {
                rsvp: None,
                dietary_restrictions: None,
                dish_preference: None,
                ..self
            },
            Some(rsvp) => PersonView {
                rsvp: Some(rsvp.attending()),
                dietary_restrictions: rsvp.diet(),
                dish_preference: rsvp.dish(),
                ..self
            },
        }
    }
}

impl DeepView for Person {
    type V = PersonView;

    open spec fn deep_view(&self) -> PersonView {
        PersonView {
            household_id: self.household_id,
            name: self.name@,
            contact: self.contact.deep_view(),
            rsvp: self.rsvp,
            dietary_restrictions: self.dietary_restrictions,
            dish_preference: self.dish_preference,
        }
    }
}

impl PartialEq for Person {
    fn eq(&self, other: &Person) -> (same: bool) {
        self.household_id == other.household_id
            && self.name == other.name
            && self.contact == other.contact
            && self.rsvp == other.rsvp
            && self.dietary_restrictions == other.dietary_restrictions
            && self.dish_preference == other.dish_preference
    }
}

impl vstd::std_specs::cmp::PartialEqSpecImpl for Person {
    open spec fn obeys_eq_spec() -> bool {
        true
    }

    open spec fn eq_spec(&self, other: &Person) -> bool {
        self.deep_view() == other.deep_view()
    }
}

impl Person {
    /// A person who has not answered yet. Refused where the name or the
    /// contact's value is empty.
    pub fn new(household_id: HouseholdId, name: String, contact: Contact) -> (made: Result<
        Person,
        ValidationError,
    >)
        ensures
            made matches Ok(person) ==> person.deep_view() == (PersonView {
                household_id,
                name: name@,
                contact: contact.deep_view(),
                rsvp: None,
                dietary_restrictions: None,
                dish_preference: None,
            }) && person.deep_view().valid(),
            made matches Err(error) ==> Some(error) == (PersonView {
                household_id,
                name: name@,
                contact: contact.deep_view(),
                rsvp: None,
                dietary_restrictions: None,
                dish_preference: None,
            }).fault(),
            made is Ok <==> name@.len() > 0 && contact.deep_view().valid(),
    {
        let person = Person {
            household_id,
            name,
            contact,
            rsvp: None,
            dietary_restrictions: None,
            dish_preference: None,
        };
        match person.check() {
            Ok(()) => Ok(person),
            Err(error) => Err(error),
        }
    }

    /// Says what is wrong with the person, if anything.
    pub fn check(&self) -> (checked: Result<(), ValidationError>)
        ensures
            checked is Ok <==> self.deep_view().valid(),
            checked matches Err(error) ==> Some(error) == self.deep_view().fault(),
    {
        if self.name.as_str().is_empty() {
            Err(ValidationError::EmptyName)
        } else if !self.contact.is_valid() {
            Err(ValidationError::EmptyContact)
        } else {
            Ok(())
        }
    }

    pub fn is_valid(&self) -> (valid: bool)
        ensures
            valid == self.deep_view().valid(),
    {
        self.check().is_ok()
    }

    /// The answer as one value: open, no, or yes with the choices made.
    pub fn answer(&self) -> (answer: Option<RSVP>)
        ensures
            answer == self.deep_view().answer(),
    {
        match self.rsvp {
            None => None,
            Some(attending) => Some(
                RSVP::new(attending, self.dietary_restrictions, self.dish_preference),
            ),
        }
    }

    /// The same person with another answer: the choices are those of the answer.
    pub fn answering(self, answer: Option<RSVP>) -> (person: Person)
        ensures
            person.deep_view() == self.deep_view().answering(answer),
    {
        match answer {
            None => Person {
                household_id: self.household_id,
                name: self.name,
                contact: self.contact,
                rsvp: None,
                dietary_restrictions: None,
                dish_preference: None,
            },
            Some(rsvp) => Person {
                household_id: self.household_id,
                name: self.name,
                contact: self.contact,
                rsvp: Some(rsvp.is_attending()),
                dietary_restrictions: rsvp.dietary_restrictions(),
                dish_preference: rsvp.dish_preference(),
            },
        }
    }

    /// A person with the same fields.
    pub fn duplicate(&self) -> (copy: Person)
        ensures
            copy.deep_view() == self.deep_view(),
    {
        Person {
            household_id: self.household_id,
            name: self.name.clone(),
            contact: self.contact.duplicate(),
            rsvp: self.rsvp,
            dietary_restrictions: self.dietary_restrictions,
            dish_preference: self.dish_preference,
        }
    }
}

/// A person who answers and is then asked for the answer gives that answer back.
pub proof fn answer_is_kept(person: PersonView, answer: Option<RSVP>)
    ensures
        person.answering(answer).answer() == answer,
        person.answering(answer).valid() == person.valid(),
{
}

/// Answering changes nothing where the choices are already those that count.
pub proof fn same_answer_changes_nothing(person: PersonView)
    requires
        person.rsvp == Some(true) || (person.dietary_restrictions is None
            && person.dish_preference is None),
    ensures
        person.answering(person.answer()) == person,
{
}

} // verus!
