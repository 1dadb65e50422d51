//! What an invited person answers.

use vstd::prelude::*;

verus! {

#[derive(Debug, Clone, Copy, PartialEq, Eq, Structural, Hash)]
pub enum DietaryRestrictions {
    Vegetarian,
    Vegan,
    Pescetarian,
    GlutenFree,
    DairyFree,
}

/// The dishes on offer. `Seabass` is served at some events only.
#[derive(Debug, Clone, Copy, PartialEq, Eq, Structural, Hash)]
pub enum DishPreference {
    Chicken,
    Steak,
    Pancakes,
    Pizza,
    Seabass,
}

/// An answer. Only a person who attends chooses a diet and a dish.
#[derive(Debug, Clone, Copy, PartialEq, Eq, Structural, Hash)]
pub enum RSVP {
    No,
    Yes {
        dietary_restrictions: Option<DietaryRestrictions>,
        dish_preference: Option<DishPreference>,
    },
}

impl RSVP {
    /// Whether the person attends.
    pub open spec fn attending(self) -> bool {
        self is Yes
    }

    /// The diet that the answer names: none where the person stays away.
    pub open spec fn diet(self) -> Option<DietaryRestrictions> {
        match self {
            RSVP::No => None,
            RSVP::Yes { dietary_restrictions, .. } => dietary_restrictions,
        }
    }

    /// The dish that the answer names: none where the person stays away.
    pub open spec fn dish(self) -> Option<DishPreference> {
        match self {
            RSVP::No => None,
            RSVP::Yes { dish_preference, .. } => dish_preference,
        }
    }

    /// The answer of one who attends or not, with the choices that count: those
    /// of one who stays away are left out.
    pub open spec fn of(
        attending: bool,
        dietary_restrictions: Option<DietaryRestrictions>,
        dish_preference: Option<DishPreference>,
    ) -> RSVP {
        if attending {
            RSVP::Yes { dietary_restrictions, dish_preference }
        } else {
            RSVP::No
        }
    }

    pub fn new(
        attending: bool,
        dietary_restrictions: Option<DietaryRestrictions>,
        dish_preference: Option<DishPreference>,
    ) -> (rsvp: RSVP)
        ensures
            rsvp == RSVP::of(attending, dietary_restrictions, dish_preference),
    {
        if attending {
            RSVP::Yes { dietary_restrictions, dish_preference }
        } else {
            RSVP::No
        }
    }

    pub fn is_attending(&self) -> (yes: bool)
        ensures
            yes == self.attending(),
    {
        match self {
            RSVP::No => false,
            RSVP::Yes { .. } => true,
        }
    }

    pub fn dietary_restrictions(&self) -> (diet: Option<DietaryRestrictions>)
        ensures
            diet == self.diet(),
    {
        match self {
            RSVP::No => None,
            RSVP::Yes { dietary_restrictions, .. } => *dietary_restrictions,
        }
    }

    pub fn dish_preference(&self) -> (dish: Option<DishPreference>)
        ensures
            dish == self.dish(),
    {
        match self {
            RSVP::No => None,
            RSVP::Yes { dish_preference, .. } => *dish_preference,
        }
    }
}

/// An answer is what `RSVP::of` makes of its own parts.
pub proof fn rsvp_is_made_of_its_parts(rsvp: RSVP)
    ensures
        RSVP::of(rsvp.attending(), rsvp.diet(), rsvp.dish()) == rsvp,
{
}

} // verus!
