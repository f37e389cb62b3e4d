//! The commands an encounter understands.

use vstd::prelude::*;

verus! {

/// What a user can ask of an encounter.
#[derive(Debug)]
#[allow(inconsistent_fields)]
pub enum Action {
    /// Take `hp` hit points from the participant called `name`.
    Damage { name: String, hp: i32 },
    /// Add a participant; with `hp` it is a monster at full health, without
    /// it a player whose health is not kept.
    AddEntity { name: String, initiative: i32, hp: Option<i32> },
    /// Give `hp` hit points back to the participant called `name`.
    Heal { name: String, hp: i32 },
    /// Move the participant called `name` one place up among its equals.
    NudgeEntity { name: String },
    /// Pass the turn to the next living participant.
    ChangeTurn,
    /// Begin the first round with the first participant.
    StartEncounter,
}

/// The mathematical content of an [`Action`].
#[allow(inconsistent_fields)]
pub enum ActionView {
    Damage { name: Seq<char>, hp: int },
    AddEntity { name: Seq<char>, initiative: int, hp: Option<int> },
    Heal { name: Seq<char>, hp: int },
    NudgeEntity { name: Seq<char> },
    ChangeTurn,
    StartEncounter,
}

impl ActionView {
    /// A monster cannot be added with fewer than zero hit points.
    pub open spec fn wf(self) -> bool {
        self matches ActionView::AddEntity { hp: Some(hp), .. } ==> hp >= 0
    }

    /// Commands whose effect `undo` knows how to reverse.
    pub open spec fn reversible(self) -> bool {
        !(self is NudgeEntity || self is StartEncounter)
    }
}

impl View for Action {
    type V = ActionView;

    open spec fn view(&self) -> ActionView {
        match *self {
            Action::Damage { name, hp } => ActionView::Damage { name: name@, hp: hp as int },
            Action::AddEntity { name, initiative, hp } => ActionView::AddEntity {
                name: name@,
                initiative: initiative as int,
                hp: match hp {
                    Some(hp) => Some(hp as int),
                    None => None,
                },
            },
            Action::Heal { name, hp } => ActionView::Heal { name: name@, hp: hp as int },
            Action::NudgeEntity { name } => ActionView::NudgeEntity { name: name@ },
            Action::ChangeTurn => ActionView::ChangeTurn,
            Action::StartEncounter => ActionView::StartEncounter,
        }
    }
}

impl Clone for Action {
    fn clone(&self) -> (r: Self)
        ensures
            r == *self,
    {
        match self {
            Action::Damage { name, hp } => Action::Damage { name: name.clone(), hp: *hp },
            Action::AddEntity { name, initiative, hp } => Action::AddEntity {
                name: name.clone(),
                initiative: *initiative,
                hp: *hp,
            },
            Action::Heal { name, hp } => Action::Heal { name: name.clone(), hp: *hp },
            Action::NudgeEntity { name } => Action::NudgeEntity { name: name.clone() },
            Action::ChangeTurn => Action::ChangeTurn,
            Action::StartEncounter => Action::StartEncounter,
        }
    }
}

impl PartialEq for Action {
    fn eq(&self, other: &Self) -> (r: bool) {
        match (self, other) {
            (Action::Damage { name, hp }, Action::Damage { name: other_name, hp: other_hp }) => {
                *name == *other_name && *hp == *other_hp
            },
            (
                Action::AddEntity { name, initiative, hp },
                Action::AddEntity { name: other_name, initiative: other_initiative, hp: other_hp },
            ) => {
                *name == *other_name && *initiative == *other_initiative && match (hp, other_hp) {
                    (Some(mine), Some(theirs)) => *mine == *theirs,
                    (None, None) => true,
                    _ => false,
                }
            },
            (Action::Heal { name, hp }, Action::Heal { name: other_name, hp: other_hp }) => {
                *name == *other_name && *hp == *other_hp
            },
            (Action::NudgeEntity { name }, Action::NudgeEntity { name: other_name }) => {
                *name == *other_name
            },
            (Action::ChangeTurn, Action::ChangeTurn) => true,
            (Action::StartEncounter, Action::StartEncounter) => true,
            _ => false,
        }
    }
}

impl vstd::std_specs::cmp::PartialEqSpecImpl for Action {
    open spec fn obeys_eq_spec() -> bool {
        true
    }

    /// Two commands are equal when they say the same: the same kind with
    /// the same name and numbers.
    open spec fn eq_spec(&self, other: &Self) -> bool {
        self@ == other@
    }
}

} // verus!
