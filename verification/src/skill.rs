//! Abilities that the player has queued for the next shot.

use vstd::prelude::*;

verus! {

/// A queued ability, known by its name.
#[derive(Debug, PartialEq, Eq)]
pub struct Skill {
    pub name: String,
}

/// The names of the queued abilities, in order.
pub open spec fn skill_names(skills: Seq<Skill>) -> Seq<Seq<char>> {
    skills.map_values(|s: Skill| s.name@)
}

} // verus!
