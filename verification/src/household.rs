//! A household: the people who share one invitation.

use vstd::prelude::*;
use crate::error::ValidationError;
use crate::ident::HouseholdId;
use crate::person::{Person, PersonView};

verus! {

/// What is wrong with a person as a member of the household `id`, if anything:
/// belonging to another household comes before the person's own faults.
pub open spec fn member_fault(id: HouseholdId, person: PersonView) -> Option<ValidationError> {
    if person.household_id != id {
        Some(ValidationError::HouseholdMismatch)
    } else {
        person.fault()
    }
}

/// The fault of the first faulty member at or after position `from`.
pub open spec fn first_fault(id: HouseholdId, people: Seq<PersonView>, from: int) -> Option<
    ValidationError,
>
    decreases people.len() - from,
{
    if from < 0 || from >= people.len() {
        None
    } else if member_fault(id, people[from]) is Some {
        member_fault(id, people[from])
    } else {
        first_fault(id, people, from + 1)
    }
}

/// Why `people` are not the members of the household `id`, if they are not: there
/// is nobody, or else the fault of the first faulty member.
pub open spec fn household_fault(id: HouseholdId, people: Seq<PersonView>) -> Option<
    ValidationError,
> {
    if people.len() == 0 {
        Some(ValidationError::EmptyHousehold)
    } else {
        first_fault(id, people, 0)
    }
}

/// The people are at least one, all valid, all of the household `id`.
pub open spec fn members_of(id: HouseholdId, people: Seq<PersonView>) -> bool {
    &&& people.len() > 0
    &&& forall|i: int|
        0 <= i < people.len() ==> (#[trigger] people[i]).household_id == id && people[i].valid()
}

/// No member at or after `from` is faulty exactly when `first_fault` finds none.
pub proof fn first_fault_finds_every_fault(id: HouseholdId, people: Seq<PersonView>, from: int)
    requires
        0 <= from,
    ensures
        first_fault(id, people, from) is None <==> forall|i: int|
            from <= i < people.len() ==> member_fault(id, #[trigger] people[i]) is None,
    decreases people.len() - from,
{
    if from < people.len() {
        first_fault_finds_every_fault(id, people, from + 1);
        if first_fault(id, people, from) is None {
            assert forall|i: int| from <= i < people.len() implies member_fault(
                id,
                #[trigger] people[i],
            ) is None by {
                if i > from {
                    assert(from + 1 <= i);
                }
            }
        }
    }
}

/// People are accepted as a household exactly when they are its members.
pub proof fn faultless_means_members(id: HouseholdId, people: Seq<PersonView>)
    ensures
        household_fault(id, people) is None <==> members_of(id, people),
{
    first_fault_finds_every_fault(id, people, 0);
    if household_fault(id, people) is None {
        assert forall|i: int| 0 <= i < people.len() implies (#[trigger] people[i]).household_id
            == id && people[i].valid() by {
            assert(member_fault(id, people[i]) is None);
        }
    }
    if members_of(id, people) {
        assert forall|i: int| 0 <= i < people.len() implies member_fault(
            id,
            #[trigger] people[i],
        ) is None by {
            assert(people[i].household_id == id && people[i].valid());
        }
    }
}

/// Looks for the first faulty member of the household `id` among `people`.
pub fn check_members(id: HouseholdId, people: &Vec<Person>) -> (checked: Result<
    (),
    ValidationError,
>)
    ensures
        checked is Ok <==> household_fault(id, people.deep_view()) is None,
        checked matches Err(error) ==> household_fault(id, people.deep_view()) == Some(error),
{
    if people.len() == 0 {
        return Err(ValidationError::EmptyHousehold);
    }
    let mut i: usize = 0;
    while i < people.len()
        invariant
            i <= people.len(),
            first_fault(id, people.deep_view(), 0) == first_fault(id, people.deep_view(), i as int),
        decreases people.len() - i,
    {
        let person = &people[i];
        assert(people.deep_view()[i as int] == person.deep_view());
        if person.household_id != id {
            return Err(ValidationError::HouseholdMismatch);
        }
        match person.check() {
            Ok(()) => {},
            Err(error) => {
                return Err(error);
            },
        }
        i = i + 1;
    }
    Ok(())
}

/// A household: an identifier and the people invited under it. It is never
/// stored as such: each member is a row of its own, and the household is what
/// the rows with its identifier say.
#[derive(Debug, Clone, PartialEq, Eq)]
pub struct Household {
    pub id: HouseholdId,
    pub people: Vec<Person>,
}

impl Household {
    /// A household has at least one member, and every member is valid and names
    /// the household as its own.
    pub open spec fn valid(&self) -> bool {
        members_of(self.id, self.people.deep_view())
    }

    /// The household `id` with the given members, unless they are not its members.
    pub fn new(id: HouseholdId, people: Vec<Person>) -> (made: Result<Household, ValidationError>)
        ensures
            made is Ok <==> household_fault(id, people.deep_view()) is None,
            made matches Ok(household) ==> household.id == id && household.people == people
                && household.valid(),
            made matches Err(error) ==> household_fault(id, people.deep_view()) == Some(error),
    {
        match check_members(id, &people) {
            Ok(()) => {
                proof {
                    faultless_means_members(id, people.deep_view());
                }
                Ok(Household { id, people })
            },
            Err(error) => Err(error),
        }
    }

    pub fn is_valid(&self) -> (valid: bool)
        ensures
            valid == self.valid(),
    {
        proof {
            faultless_means_members(self.id, self.people.deep_view());
        }
        check_members(self.id, &self.people).is_ok()
    }
}

} // verus!
