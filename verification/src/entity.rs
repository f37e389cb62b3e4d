//! A single combatant: its name, its initiative and, for those whose health
//! is kept, its hit points.

use vstd::prelude::*;
use vstd::string::*;
use crate::text::{decimal, push_decimal};

verus! {

/// `value` brought into the closed range from `low` to `high`.
pub open spec fn bounded(value: int, low: int, high: int) -> int {
    if value < low {
        low
    } else if value > high {
        high
    } else {
        value
    }
}

/// The mathematical content of an [`Entity`].
pub struct EntityView {
    pub name: Seq<char>,
    pub initiative: int,
    pub max_hp: Option<int>,
    pub current_hp: Option<int>,
}

impl EntityView {
    /// Health is either kept in full or not at all, and hit points that are
    /// kept lie between zero and their maximum.
    pub open spec fn wf(self) -> bool {
        match (self.max_hp, self.current_hp) {
            (Some(max), Some(current)) => 0 <= current <= max,
            (None, None) => true,
            _ => false,
        }
    }

    /// Dead means: health is kept and no hit point is left.
    pub open spec fn is_dead(self) -> bool {
        self.current_hp matches Some(current) && current <= 0
    }

    /// The combatant after losing `amount` hit points. Nothing changes when
    /// no health is kept; otherwise the loss stops at zero, and a negative
    /// loss, which is a gain, stops at the maximum.
    pub open spec fn damaged(self, amount: int) -> EntityView {
        match (self.max_hp, self.current_hp) {
            (Some(max), Some(current)) => EntityView {
                current_hp: Some(bounded(current - amount, 0, max)),
                ..self
            },
            _ => self,
        }
    }

    /// The combatant after gaining `amount` hit points. Nothing changes when
    /// no health is kept; otherwise the gain stops at the maximum, and a
    /// negative gain, which is a loss, stops at zero.
    pub open spec fn healed(self, amount: int) -> EntityView {
        match (self.max_hp, self.current_hp) {
            (Some(max), Some(current)) => EntityView {
                current_hp: Some(bounded(current + amount, 0, max)),
                ..self
            },
            _ => self,
        }
    }

    /// How health is shown: current and maximum hit points with a slash
    /// between them, or nothing when no health is kept.
    pub open spec fn health_text(self) -> Seq<char> {
        match (self.max_hp, self.current_hp) {
            (Some(max), Some(current)) => decimal(current) + seq!['/'] + decimal(max),
            _ => Seq::empty(),
        }
    }
}

/// A player or a monster taking part in an encounter.
#[derive(Debug)]
pub struct Entity {
    name: String,
    initiative: i32,
    max_hp: Option<i32>,
    current_hp: Option<i32>,
}

impl View for Entity {
    type V = EntityView;

    closed spec fn view(&self) -> EntityView {
        EntityView {
            name: self.name@,
            initiative: self.initiative as int,
            max_hp: match self.max_hp {
                Some(max) => Some(max as int),
                None => None,
            },
            current_hp: match self.current_hp {
                Some(current) => Some(current as int),
                None => None,
            },
        }
    }
}

impl Clone for Entity {
    fn clone(&self) -> (r: Self)
        ensures
            r == *self,
    {
        proof {
            use_type_invariant(self);
        }
        Entity {
            name: self.name.clone(),
            initiative: self.initiative,
            max_hp: self.max_hp,
            current_hp: self.current_hp,
        }
    }
}

impl PartialEq for Entity {
    fn eq(&self, other: &Self) -> (r: bool) {
        self.name == other.name && self.initiative == other.initiative && match (
            self.max_hp,
            other.max_hp,
        ) {
            (Some(mine), Some(theirs)) => mine == theirs,
            (None, None) => true,
            _ => false,
        } && match (self.current_hp, other.current_hp) {
            (Some(mine), Some(theirs)) => mine == theirs,
            (None, None) => true,
            _ => false,
        }
    }
}

impl vstd::std_specs::cmp::PartialEqSpecImpl for Entity {
    open spec fn obeys_eq_spec() -> bool {
        true
    }

    /// Two participants are equal when name, initiative and health are.
    open spec fn eq_spec(&self, other: &Self) -> bool {
        self@ == other@
    }
}

impl Entity {
    /// Holds of every entity that exists.
    #[verifier::type_invariant]
    pub open spec fn inv(&self) -> bool {
        self@.wf()
    }

    /// A participant whose health is not kept.
    pub fn player(name: &str, initiative: i32) -> (r: Self)
        ensures
            r@ == (EntityView {
                name: name@,
                initiative: initiative as int,
                max_hp: None,
                current_hp: None,
            }),
    {
        Entity { name: name.to_owned(), initiative, max_hp: None, current_hp: None }
    }

    /// A participant at full health with `max_hp` hit points.
    pub fn monster(name: &str, initiative: i32, max_hp: i32) -> (r: Self)
        requires
            max_hp >= 0,
        ensures
            r@ == (EntityView {
                name: name@,
                initiative: initiative as int,
                max_hp: Some(max_hp as int),
                current_hp: Some(max_hp as int),
            }),
    {
        Entity { name: name.to_owned(), initiative, max_hp: Some(max_hp), current_hp: Some(max_hp) }
    }

    /// Whether stored health values make a well-formed participant.
    pub open spec fn parts_wf(max_hp: Option<i32>, current_hp: Option<i32>) -> bool {
        match (max_hp, current_hp) {
            (Some(max), Some(current)) => 0 <= current <= max,
            (None, None) => true,
            _ => false,
        }
    }

    /// Puts a participant together from stored values, or returns `None`
    /// when the health values do not make a well-formed participant.
    pub fn from_parts(
        name: String,
        initiative: i32,
        max_hp: Option<i32>,
        current_hp: Option<i32>,
    ) -> (r: Option<Self>)
        ensures
            r is Some <==> Self::parts_wf(max_hp, current_hp),
            r matches Some(entity) ==> entity@ == (EntityView {
                name: name@,
                initiative: initiative as int,
                max_hp: match max_hp {
                    Some(max) => Some(max as int),
                    None => None,
                },
                current_hp: match current_hp {
                    Some(current) => Some(current as int),
                    None => None,
                },
            }),
    {
        let valid = match (max_hp, current_hp) {
            (Some(max), Some(current)) => 0 <= current && current <= max,
            (None, None) => true,
            _ => false,
        };
        if valid {
            Some(Entity { name, initiative, max_hp, current_hp })
        } else {
            None
        }
    }

    /// The name this participant is found under.
    pub fn get_name(&self) -> (r: &str)
        ensures
            r@ == self@.name,
    {
        self.name.as_str()
    }

    /// The initiative that decides the place in the roster.
    pub fn get_initiative(&self) -> (r: i32)
        ensures
            r == self@.initiative,
    {
        self.initiative
    }

    /// The most hit points this participant can have, if its health is kept.
    pub fn max_hp(&self) -> (r: Option<i32>)
        ensures
            r is Some <==> self@.max_hp is Some,
            r matches Some(max) ==> self@.max_hp == Some(max as int),
    {
        self.max_hp
    }

    /// The hit points this participant has left, if its health is kept.
    pub fn current_hp(&self) -> (r: Option<i32>)
        ensures
            r is Some <==> self@.current_hp is Some,
            r matches Some(current) ==> self@.current_hp == Some(current as int),
    {
        self.current_hp
    }

    /// Whether this participant goes by `name`, letter for letter.
    pub fn is_named(&self, name: &str) -> (r: bool)
        ensures
            r == (self@.name == name@),
    {
        let wanted = name.to_owned();
        self.has_name(&wanted)
    }

    /// Whether this participant goes by the name held in `wanted`.
    pub fn has_name(&self, wanted: &String) -> (r: bool)
        ensures
            r == (self@.name == wanted@),
    {
        self.name == *wanted
    }

    /// Health as shown to the user: current and maximum hit points with a
    /// slash between them, or nothing when no health is kept.
    pub fn display_hp(&self) -> (r: String)
        ensures
            r@ == self@.health_text(),
    {
        proof {
            reveal_strlit("/");
        }
        let mut r = String::new();
        match (self.max_hp, self.current_hp) {
            (Some(max), Some(current)) => {
                push_decimal(&mut r, current);
                r.append("/");
                push_decimal(&mut r, max);
            },
            _ => {},
        }
        r
    }

    /// Takes `damage` hit points away, stopping at zero.
    pub fn reduce_health(&mut self, damage: i32)
        ensures
            final(self)@ == old(self)@.damaged(damage as int),
            final(self)@.wf(),
            final(self)@.current_hp matches Some(current) ==> current >= 0,
            damage >= 0 && old(self)@.current_hp is Some ==> final(self)@.current_hp == Some(
                if old(self)@.current_hp->0 - damage > 0 {
                    old(self)@.current_hp->0 - damage
                } else {
                    0
                },
            ),
    {
        proof {
            use_type_invariant(&*self);
        }
        match (self.max_hp, self.current_hp) {
            (Some(max), Some(current)) => {
                let wanted: i64 = current as i64 - damage as i64;
                let left: i32 = if wanted < 0 {
                    0
                } else if wanted > max as i64 {
                    max
                } else {
                    wanted as i32
                };
                self.current_hp = Some(left);
            },
            _ => {},
        }
    }

    /// Gives `hp` hit points back, stopping at the maximum.
    pub fn increase_health(&mut self, hp: i32)
        ensures
            final(self)@ == old(self)@.healed(hp as int),
            final(self)@.wf(),
            final(self)@.current_hp matches Some(current) ==> current <= final(self)@.max_hp->0,
            hp >= 0 && old(self)@.current_hp is Some ==> final(self)@.current_hp == Some(
                if old(self)@.current_hp->0 + hp < old(self)@.max_hp->0 {
                    old(self)@.current_hp->0 + hp
                } else {
                    old(self)@.max_hp->0
                },
            ),
    {
        proof {
            use_type_invariant(&*self);
        }
        match (self.max_hp, self.current_hp) {
            (Some(max), Some(current)) => {
                let wanted: i64 = current as i64 + hp as i64;
                let left: i32 = if wanted < 0 {
                    0
                } else if wanted > max as i64 {
                    max
                } else {
                    wanted as i32
                };
                self.current_hp = Some(left);
            },
            _ => {},
        }
    }

    /// Whether health is kept and no hit point is left.
    pub fn is_dead(&self) -> (r: bool)
        ensures
            r == self@.is_dead(),
            r <==> (self@.current_hp matches Some(current) && current <= 0),
            self@.current_hp is None ==> !r,
    {
        if let Some(hp) = self.current_hp {
            return hp <= 0;
        }
        false
    }
}

} // verus!
