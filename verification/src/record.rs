//! The row that stands for one person in the store, and the mapping between the
//! two. A row is flat: its key is the household (which partitions the store) and
//! the member's name (which tells the rows of a partition apart); kinds and
//! choices are written as tags. A row read from the store may lack a field or
//! carry a tag that the library does not know: decoding says so and invents
//! nothing.

use vstd::prelude::*;
use crate::error::DecodeError;
use crate::ident::HouseholdId;
use crate::person::{Contact, ContactView, Person, PersonView};
use crate::rsvp::{DietaryRestrictions, DishPreference};

verus! {

/// One stored row. Two rows are equal when all their fields are.
#[derive(Debug, Clone, Eq, Hash)]
pub struct HouseholdRecord {
    /// The partition key.
    pub household_id: Option<HouseholdId>,
    /// The sort key.
    pub name: Option<String>,
    pub contact_kind: Option<String>,
    pub contact_value: Option<String>,
    pub rsvp: Option<bool>,
    pub dietary_restrictions: Option<String>,
    pub dish_preference: Option<String>,
}

/// What a `HouseholdRecord` holds.
pub struct RecordView {
    pub household_id: Option<HouseholdId>,
    pub name: Option<Seq<char>>,
    pub contact_kind: Option<Seq<char>>,
    pub contact_value: Option<Seq<char>>,
    pub rsvp: Option<bool>,
    pub dietary_restrictions: Option<Seq<char>>,
    pub dish_preference: Option<Seq<char>>,
}

impl DeepView for HouseholdRecord {
    type V = RecordView;

    open spec fn deep_view(&self) -> RecordView {
        RecordView {
            household_id: self.household_id,
            name: self.name.deep_view(),
            contact_kind: self.contact_kind.deep_view(),
            contact_value: self.contact_value.deep_view(),
            rsvp: self.rsvp,
            dietary_restrictions: self.dietary_restrictions.deep_view(),
            dish_preference: self.dish_preference.deep_view(),
        }
    }
}

/// Whether two texts that may be missing are the same.
fn same_text(mine: &Option<String>, theirs: &Option<String>) -> (same: bool)
    ensures
        same == (mine.deep_view() == theirs.deep_view()),
{
    match (mine, theirs) {
        (Some(a), Some(b)) => *a == *b,
        (None, None) => true,
        _ => false,
    }
}

impl PartialEq for HouseholdRecord {
    fn eq(&self, other: &HouseholdRecord) -> (same: bool) {
        self.household_id == other.household_id
            && same_text(&self.name, &other.name)
            && same_text(&self.contact_kind, &other.contact_kind)
            && same_text(&self.contact_value, &other.contact_value)
            && self.rsvp == other.rsvp
            && same_text(&self.dietary_restrictions, &other.dietary_restrictions)
            && same_text(&self.dish_preference, &other.dish_preference)
    }
}

impl vstd::std_specs::cmp::PartialEqSpecImpl for HouseholdRecord {
    open spec fn obeys_eq_spec() -> bool {
        true
    }

    open spec fn eq_spec(&self, other: &HouseholdRecord) -> bool {
        self.deep_view() == other.deep_view()
    }
}

impl RecordView {
    /// What identifies the row in the store: the household and the name.
    pub open spec fn key(self) -> (Option<HouseholdId>, Option<Seq<char>>) {
        (self.household_id, self.name)
    }
}

/// The tag written for a kind of contact.
pub open spec fn contact_tag(contact: ContactView) -> Seq<char> {
    match contact {
        ContactView::Email { .. } => "Email"@,
        ContactView::SMS { .. } => "SMS"@,
    }
}

/// The contact that a tag and a value describe, if the tag is known.
pub open spec fn tagged_contact(tag: Seq<char>, value: Seq<char>) -> Option<ContactView> {
    if tag == "Email"@ {
        Some(ContactView::Email { value })
    } else if tag == "SMS"@ {
        Some(ContactView::SMS { value })
    } else {
        None
    }
}

/// The tag written for a dietary restriction.
pub open spec fn diet_tag(diet: DietaryRestrictions) -> Seq<char> {
    match diet {
        DietaryRestrictions::Vegetarian => "Vegetarian"@,
        DietaryRestrictions::Vegan => "Vegan"@,
        DietaryRestrictions::Pescetarian => "Pescetarian"@,
        DietaryRestrictions::GlutenFree => "GlutenFree"@,
        DietaryRestrictions::DairyFree => "DairyFree"@,
    }
}

/// The dietary restriction that a tag names, if it names one.
pub open spec fn tagged_diet(tag: Seq<char>) -> Option<DietaryRestrictions> {
    if tag == "Vegetarian"@ {
        Some(DietaryRestrictions::Vegetarian)
    } else if tag == "Vegan"@ {
        Some(DietaryRestrictions::Vegan)
    } else if tag == "Pescetarian"@ {
        Some(DietaryRestrictions::Pescetarian)
    } else if tag == "GlutenFree"@ {
        Some(DietaryRestrictions::GlutenFree)
    } else if tag == "DairyFree"@ {
        Some(DietaryRestrictions::DairyFree)
    } else {
        None
    }
}

/// The tag written for a dish.
pub open spec fn dish_tag(dish: DishPreference) -> Seq<char> {
    match dish {
        DishPreference::Chicken => "Chicken"@,
        DishPreference::Steak => "Steak"@,
        DishPreference::Pancakes => "Pancakes"@,
        DishPreference::Pizza => "Pizza"@,
        DishPreference::Seabass => "Seabass"@,
    }
}

/// The dish that a tag names, if it names one.
pub open spec fn tagged_dish(tag: Seq<char>) -> Option<DishPreference> {
    if tag == "Chicken"@ {
        Some(DishPreference::Chicken)
    } else if tag == "Steak"@ {
        Some(DishPreference::Steak)
    } else if tag == "Pancakes"@ {
        Some(DishPreference::Pancakes)
    } else if tag == "Pizza"@ {
        Some(DishPreference::Pizza)
    } else if tag == "Seabass"@ {
        Some(DishPreference::Seabass)
    } else {
        None
    }
}

/// Each kind of contact is read back from its tag, and a known tag is the one
/// written for what it names.
pub proof fn contact_tags_are_told_apart(contact: ContactView, tag: Seq<char>)
    ensures
        tagged_contact(contact_tag(contact), contact.value()) == Some(contact),
        tagged_contact(tag, contact.value()) == Some(contact) ==> tag == contact_tag(contact),
{
    reveal_strlit("Email");
    reveal_strlit("SMS");
    assert("Email"@.len() == 5 && "SMS"@.len() == 3);
}

/// Each dietary restriction is read back from its tag, and a known tag is the
/// one written for what it names.
pub proof fn diet_tags_are_told_apart(diet: DietaryRestrictions, tag: Seq<char>)
    ensures
        tagged_diet(diet_tag(diet)) == Some(diet),
        tagged_diet(tag) == Some(diet) ==> tag == diet_tag(diet),
{
    reveal_strlit("Vegetarian");
    reveal_strlit("Vegan");
    reveal_strlit("Pescetarian");
    reveal_strlit("GlutenFree");
    reveal_strlit("DairyFree");
    assert("Vegetarian"@.len() == 10 && "Vegan"@.len() == 5 && "Pescetarian"@.len() == 11);
    assert("GlutenFree"@.len() == 10 && "DairyFree"@.len() == 9);
    assert("Vegetarian"@[0] != "GlutenFree"@[0]);
}

/// Each dish is read back from its tag, and a known tag is the one written for
/// what it names.
pub proof fn dish_tags_are_told_apart(dish: DishPreference, tag: Seq<char>)
    ensures
        tagged_dish(dish_tag(dish)) == Some(dish),
        tagged_dish(tag) == Some(dish) ==> tag == dish_tag(dish),
{
    reveal_strlit("Chicken");
    reveal_strlit("Steak");
    reveal_strlit("Pancakes");
    reveal_strlit("Pizza");
    reveal_strlit("Seabass");
    assert("Chicken"@.len() == 7 && "Steak"@.len() == 5 && "Pancakes"@.len() == 8);
    assert("Pizza"@.len() == 5 && "Seabass"@.len() == 7);
    assert("Chicken"@[0] != "Seabass"@[0]);
    assert("Steak"@[0] != "Pizza"@[0]);
}


/// Whether a text is the given one.
fn is_text(text: &String, wanted: &str) -> (same: bool)
    ensures
        same == (text@ == wanted@),
{
    let other = wanted.to_owned();
    *text == other
}

impl Contact {
    /// The tag of the contact's kind.
    pub fn tag(&self) -> (tag: String)
        ensures
            tag@ == contact_tag(self.deep_view()),
    {
        match self {
            Contact::Email { .. } => "Email".to_owned(),
            Contact::SMS { .. } => "SMS".to_owned(),
        }
    }

    /// The contact of the kind that the tag names, with the given value.
    pub fn from_tag(tag: &String, value: String) -> (contact: Option<Contact>)
        ensures
            contact.deep_view() == tagged_contact(tag@, value@),
    {
        if is_text(tag, "Email") {
            Some(Contact::Email { value })
        } else if is_text(tag, "SMS") {
            Some(Contact::SMS { value })
        } else {
            None
        }
    }
}

impl DietaryRestrictions {
    pub fn tag(&self) -> (tag: String)
        ensures
            tag@ == diet_tag(*self),
    {
        match self {
            DietaryRestrictions::Vegetarian => "Vegetarian".to_owned(),
            DietaryRestrictions::Vegan => "Vegan".to_owned(),
            DietaryRestrictions::Pescetarian => "Pescetarian".to_owned(),
            DietaryRestrictions::GlutenFree => "GlutenFree".to_owned(),
            DietaryRestrictions::DairyFree => "DairyFree".to_owned(),
        }
    }

    pub fn from_tag(tag: &String) -> (diet: Option<DietaryRestrictions>)
        ensures
            diet == tagged_diet(tag@),
    {
        if is_text(tag, "Vegetarian") {
            Some(DietaryRestrictions::Vegetarian)
        } else if is_text(tag, "Vegan") {
            Some(DietaryRestrictions::Vegan)
        } else if is_text(tag, "Pescetarian") {
            Some(DietaryRestrictions::Pescetarian)
        } else if is_text(tag, "GlutenFree") {
            Some(DietaryRestrictions::GlutenFree)
        } else if is_text(tag, "DairyFree") {
            Some(DietaryRestrictions::DairyFree)
        } else {
            None
        }
    }
}

impl DishPreference {
    pub fn tag(&self) -> (tag: String)
        ensures
            tag@ == dish_tag(*self),
    {
        match self {
            DishPreference::Chicken => "Chicken".to_owned(),
            DishPreference::Steak => "Steak".to_owned(),
            DishPreference::Pancakes => "Pancakes".to_owned(),
            DishPreference::Pizza => "Pizza".to_owned(),
            DishPreference::Seabass => "Seabass".to_owned(),
        }
    }

    pub fn from_tag(tag: &String) -> (dish: Option<DishPreference>)
        ensures
            dish == tagged_dish(tag@),
    {
        if is_text(tag, "Chicken") {
            Some(DishPreference::Chicken)
        } else if is_text(tag, "Steak") {
            Some(DishPreference::Steak)
        } else if is_text(tag, "Pancakes") {
            Some(DishPreference::Pancakes)
        } else if is_text(tag, "Pizza") {
            Some(DishPreference::Pizza)
        } else if is_text(tag, "Seabass") {
            Some(DishPreference::Seabass)
        } else {
            None
        }
    }
}

/// The row that stands for a person.
pub open spec fn encoded(person: PersonView) -> RecordView {
    RecordView {
        household_id: Some(person.household_id),
        name: Some(person.name),
        contact_kind: Some(contact_tag(person.contact)),
        contact_value: Some(person.contact.value()),
        rsvp: person.rsvp,
        dietary_restrictions: match person.dietary_restrictions {
            Some(diet) => Some(diet_tag(diet)),
            None => None,
        },
        dish_preference: match person.dish_preference {
            Some(dish) => Some(dish_tag(dish)),
            None => None,
        },
    }
}

/// The rows that stand for some people, in their order.
pub open spec fn encoded_all(people: Seq<PersonView>) -> Seq<RecordView> {
    Seq::new(people.len(), |i: int| encoded(people[i]))
}

/// The person that a row describes, or what is wrong with the row. The fields
/// are looked at in this order: household, name, contact, dietary restriction,
/// dish. A name or a contact value that is empty counts as missing, so that
/// every person read is valid.
pub open spec fn decoded(record: RecordView) -> Result<PersonView, DecodeError> {
    if record.household_id is None {
        Err(DecodeError::MissingHouseholdId)
    } else if record.name is None || record.name->0.len() == 0 {
        Err(DecodeError::MissingName)
    } else if record.contact_kind is None || record.contact_value is None
        || record.contact_value->0.len() == 0 {
        Err(DecodeError::MissingContact)
    } else if tagged_contact(record.contact_kind->0, record.contact_value->0) is None {
        Err(DecodeError::UnknownContact)
    } else if record.dietary_restrictions is Some && tagged_diet(record.dietary_restrictions->0)
        is None {
        Err(DecodeError::UnknownDietaryRestriction)
    } else if record.dish_preference is Some && tagged_dish(record.dish_preference->0) is None {
        Err(DecodeError::UnknownDishPreference)
    } else {
        Ok(
            PersonView {
                household_id: record.household_id->0,
                name: record.name->0,
                contact: tagged_contact(record.contact_kind->0, record.contact_value->0)->0,
                rsvp: record.rsvp,
                dietary_restrictions: match record.dietary_restrictions {
                    Some(tag) => tagged_diet(tag),
                    None => None,
                },
                dish_preference: match record.dish_preference {
                    Some(tag) => tagged_dish(tag),
                    None => None,
                },
            },
        )
    }
}

/// What is wrong with the first row at or after position `from` that describes
/// no person.
pub open spec fn first_undecodable(records: Seq<RecordView>, from: int) -> Option<DecodeError>
    decreases records.len() - from,
{
    if from < 0 || from >= records.len() {
        None
    } else if decoded(records[from]) is Err {
        Some(decoded(records[from])->Err_0)
    } else {
        first_undecodable(records, from + 1)
    }
}

/// The people that some rows describe, in the rows' order; or, where a row
/// describes no person, what is wrong with the first such row. One bad row
/// spoils the whole: no part of the others is given.
pub open spec fn decoded_all(records: Seq<RecordView>) -> Result<Seq<PersonView>, DecodeError> {
    match first_undecodable(records, 0) {
        Some(error) => Err(error),
        None => Ok(Seq::new(records.len(), |i: int| decoded(records[i])->Ok_0)),
    }
}

/// What a decoding gave, with the people as what they hold.
pub open spec fn person_outcome(outcome: Result<Person, DecodeError>) -> Result<
    PersonView,
    DecodeError,
> {
    match outcome {
        Ok(person) => Ok(person.deep_view()),
        Err(error) => Err(error),
    }
}

/// What a decoding of several rows gave, with the people as what they hold.
pub open spec fn people_outcome(outcome: Result<Vec<Person>, DecodeError>) -> Result<
    Seq<PersonView>,
    DecodeError,
> {
    match outcome {
        Ok(people) => Ok(people.deep_view()),
        Err(error) => Err(error),
    }
}

/// Round trip: the row of a valid person describes that person.
pub proof fn decoding_undoes_encoding(person: PersonView)
    requires
        person.valid(),
    ensures
        decoded(encoded(person)) == Ok::<PersonView, DecodeError>(person),
{
    contact_tags_are_told_apart(person.contact, contact_tag(person.contact));
    if let Some(diet) = person.dietary_restrictions {
        diet_tags_are_told_apart(diet, diet_tag(diet));
    }
    if let Some(dish) = person.dish_preference {
        dish_tags_are_told_apart(dish, dish_tag(dish));
    }
}

/// A row that describes a person describes a valid one, and is the row that
/// stands for that person: nothing in it is ignored.
pub proof fn encoding_undoes_decoding(record: RecordView)
    requires
        decoded(record) is Ok,
    ensures
        decoded(record)->Ok_0.valid(),
        encoded(decoded(record)->Ok_0) == record,
{
    let person = decoded(record)->Ok_0;
    contact_tags_are_told_apart(person.contact, record.contact_kind->0);
    assert(person.contact.value() == record.contact_value->0) by {
        reveal_strlit("Email");
        reveal_strlit("SMS");
    }
    if let Some(tag) = record.dietary_restrictions {
        diet_tags_are_told_apart(tagged_diet(tag)->0, tag);
    }
    if let Some(tag) = record.dish_preference {
        dish_tags_are_told_apart(tagged_dish(tag)->0, tag);
    }
}

/// No row at or after `from` is undecodable exactly when `first_undecodable`
/// finds none.
pub proof fn first_undecodable_finds_every_error(records: Seq<RecordView>, from: int)
    requires
        0 <= from,
    ensures
        first_undecodable(records, from) is None <==> forall|i: int|
            from <= i < records.len() ==> decoded(#[trigger] records[i]) is Ok,
    decreases records.len() - from,
{
    if from < records.len() {
        first_undecodable_finds_every_error(records, from + 1);
        if first_undecodable(records, from) is None {
            assert forall|i: int| from <= i < records.len() implies decoded(
                #[trigger] records[i],
            ) is Ok by {
                if i > from {
                    assert(from + 1 <= i);
                }
            }
        }
    }
}

/// Round trip for a household: the rows of valid people describe those people,
/// in the same order.
pub proof fn decoding_undoes_encoding_of_all(people: Seq<PersonView>)
    requires
        forall|i: int| 0 <= i < people.len() ==> (#[trigger] people[i]).valid(),
    ensures
        decoded_all(encoded_all(people)) == Ok::<Seq<PersonView>, DecodeError>(people),
{
    let records = encoded_all(people);
    assert forall|i: int| 0 <= i < records.len() implies decoded(#[trigger] records[i]) == Ok::<
        PersonView,
        DecodeError,
    >(people[i]) by {
        assert(people[i].valid());
        decoding_undoes_encoding(people[i]);
    }
    first_undecodable_finds_every_error(records, 0);
    assert(decoded_all(records)->Ok_0 =~= people);
}

impl HouseholdRecord {
    /// A row without any field: what stands for an item of the store of which
    /// nothing can be read. It describes no person.
    pub fn empty() -> (record: HouseholdRecord)
        ensures
            record.deep_view() == (RecordView {
                household_id: None,
                name: None,
                contact_kind: None,
                contact_value: None,
                rsvp: None,
                dietary_restrictions: None,
                dish_preference: None,
            }),
            decoded(record.deep_view()) == Err::<PersonView, DecodeError>(
                DecodeError::MissingHouseholdId,
            ),
    {
        HouseholdRecord {
            household_id: None,
            name: None,
            contact_kind: None,
            contact_value: None,
            rsvp: None,
            dietary_restrictions: None,
            dish_preference: None,
        }
    }

    /// Writes the row of a person.
    pub fn encode(person: &Person) -> (record: HouseholdRecord)
        ensures
            record.deep_view() == encoded(person.deep_view()),
            person.deep_view().valid() ==> decoded(record.deep_view()) == Ok::<
                PersonView,
                DecodeError,
            >(person.deep_view()),
    {
        proof {
            if person.deep_view().valid() {
                decoding_undoes_encoding(person.deep_view());
            }
        }
        HouseholdRecord {
            household_id: Some(person.household_id),
            name: Some(person.name.clone()),
            contact_kind: Some(person.contact.tag()),
            contact_value: Some(person.contact.value().clone()),
            rsvp: person.rsvp,
            dietary_restrictions: match person.dietary_restrictions {
                Some(diet) => Some(diet.tag()),
                None => None,
            },
            dish_preference: match person.dish_preference {
                Some(dish) => Some(dish.tag()),
                None => None,
            },
        }
    }

    /// Reads the person that the row describes, or says what is wrong with the
    /// row.
    pub fn decode(&self) -> (outcome: Result<Person, DecodeError>)
        ensures
            person_outcome(outcome) == decoded(self.deep_view()),
            outcome matches Ok(person) ==> person.deep_view().valid(),
    {
        let household_id = match self.household_id {
            Some(id) => id,
            None => {
                return Err(DecodeError::MissingHouseholdId);
            },
        };
        let name = match &self.name {
            Some(name) => name,
            None => {
                return Err(DecodeError::MissingName);
            },
        };
        if name.as_str().is_empty() {
            return Err(DecodeError::MissingName);
        }
        let kind = match &self.contact_kind {
            Some(kind) => kind,
            None => {
                return Err(DecodeError::MissingContact);
            },
        };
        let value = match &self.contact_value {
            Some(value) => value,
            None => {
                return Err(DecodeError::MissingContact);
            },
        };
        if value.as_str().is_empty() {
            return Err(DecodeError::MissingContact);
        }
        let contact = match Contact::from_tag(kind, value.clone()) {
            Some(contact) => contact,
            None => {
                return Err(DecodeError::UnknownContact);
            },
        };
        let dietary_restrictions = match &self.dietary_restrictions {
            None => None,
            Some(tag) => match DietaryRestrictions::from_tag(tag) {
                Some(diet) => Some(diet),
                None => {
                    return Err(DecodeError::UnknownDietaryRestriction);
                },
            },
        };
        let dish_preference = match &self.dish_preference {
            None => None,
            Some(tag) => match DishPreference::from_tag(tag) {
                Some(dish) => Some(dish),
                None => {
                    return Err(DecodeError::UnknownDishPreference);
                },
            },
        };
        proof {
            encoding_undoes_decoding(self.deep_view());
        }
        Ok(
            Person {
                household_id,
                name: name.clone(),
                contact,
                rsvp: self.rsvp,
                dietary_restrictions,
                dish_preference,
            },
        )
    }

    /// A row with the same fields.
    pub fn duplicate(&self) -> (copy: HouseholdRecord)
        ensures
            copy.deep_view() == self.deep_view(),
    {
        HouseholdRecord {
            household_id: self.household_id,
            name: self.name.clone(),
            contact_kind: self.contact_kind.clone(),
            contact_value: self.contact_value.clone(),
            rsvp: self.rsvp,
            dietary_restrictions: self.dietary_restrictions.clone(),
            dish_preference: self.dish_preference.clone(),
        }
    }

    /// Whether two rows have the same key: the one would replace the other in
    /// the store.
    pub fn same_key(&self, other: &HouseholdRecord) -> (same: bool)
        ensures
            same == (self.deep_view().key() == other.deep_view().key()),
    {
        self.household_id == other.household_id && same_text(&self.name, &other.name)
    }
}

/// Writes the rows of some people, in their order.
pub fn encode_all(people: &Vec<Person>) -> (records: Vec<HouseholdRecord>)
    ensures
        records.deep_view() == encoded_all(people.deep_view()),
{
    let mut records: Vec<HouseholdRecord> = Vec::new();
    let mut i: usize = 0;
    while i < people.len()
        invariant
            i <= people.len(),
            records.len() == i,
            forall|j: int|
                0 <= j < i ==> (#[trigger] records[j]).deep_view() == encoded(
                    people[j].deep_view(),
                ),
        decreases people.len() - i,
    {
        records.push(HouseholdRecord::encode(&people[i]));
        i = i + 1;
    }
    assert(records.deep_view() =~= encoded_all(people.deep_view()));
    records
}

/// Reads the people that some rows describe, in the rows' order. Where a row
/// describes no person, the whole fails with what is wrong with the first such
/// row.
pub fn decode_all(records: &Vec<HouseholdRecord>) -> (outcome: Result<Vec<Person>, DecodeError>)
    ensures
        people_outcome(outcome) == decoded_all(records.deep_view()),
{
    let mut people: Vec<Person> = Vec::new();
    let mut i: usize = 0;
    while i < records.len()
        invariant
            i <= records.len(),
            people.len() == i,
            first_undecodable(records.deep_view(), 0) == first_undecodable(
                records.deep_view(),
                i as int,
            ),
            forall|j: int|
                0 <= j < i ==> decoded(records[j].deep_view()) == Ok::<PersonView, DecodeError>(
                    (#[trigger] people[j]).deep_view(),
                ),
        decreases records.len() - i,
    {
        assert(records.deep_view()[i as int] == records[i as int].deep_view());
        match records[i].decode() {
            Ok(person) => {
                people.push(person);
            },
            Err(error) => {
                return Err(error);
            },
        }
        i = i + 1;
    }
    assert(people.deep_view() =~= decoded_all(records.deep_view())->Ok_0);
    Ok(people)
}

} // verus!
