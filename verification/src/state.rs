//! The encounter itself: the roster, whose turn it is, which round is being
//! played and the log of what was done.

use vstd::prelude::*;
use crate::action::{Action, ActionView};
use crate::entity::{Entity, EntityView};
use crate::laws::{lemma_added_keeps_sorted, lemma_advanced};
use crate::table::{texts, Table, TableView};
use crate::text::{decimal, decimal_string};
use crate::roster::{
    called, first_set, index_of, lemma_first_set, lemma_first_set_is, lemma_first_set_none,
    living, next_living, nudged, slower, sorted, swapped, tied_before, with_added, with_damage,
    with_healing, without, wraps,
};

verus! {

/// The mathematical content of an [`Event`].
pub struct EventView {
    pub round: int,
    pub action: ActionView,
}

/// A command together with the round in which it was given.
#[derive(Debug)]
pub struct Event {
    round: i32,
    action: Action,
}

impl View for Event {
    type V = EventView;

    closed spec fn view(&self) -> EventView {
        EventView { round: self.round as int, action: self.action@ }
    }
}

impl Clone for Event {
    fn clone(&self) -> (r: Self)
        ensures
            r == *self,
    {
        Event { round: self.round, action: self.action.clone() }
    }
}

impl PartialEq for Event {
    fn eq(&self, other: &Self) -> (r: bool) {
        self.round == other.round && self.action == other.action
    }
}

impl vstd::std_specs::cmp::PartialEqSpecImpl for Event {
    open spec fn obeys_eq_spec() -> bool {
        true
    }

    /// Two events are equal when round and command are.
    open spec fn eq_spec(&self, other: &Self) -> bool {
        self@ == other@
    }
}

impl Event {
    /// The record of `action`, given in `round`.
    pub fn new(round: i32, action: Action) -> (r: Self)
        ensures
            r@ == (EventView { round: round as int, action: action@ }),
    {
        Event { round, action }
    }

    /// The round in which the command was given.
    pub fn round(&self) -> (r: i32)
        ensures
            r == self@.round,
    {
        self.round
    }

    /// The command that was given.
    pub fn action(&self) -> (r: &Action)
        ensures
            r@ == self@.action,
    {
        &self.action
    }
}

/// The participant that an `AddEntity` command describes.
pub open spec fn newcomer(name: Seq<char>, initiative: int, hp: Option<int>) -> EntityView {
    EntityView { name, initiative, max_hp: hp, current_hp: hp }
}

/// The mathematical content of a [`State`].
pub struct StateView {
    pub round: int,
    pub turn: nat,
    pub entities: Seq<EntityView>,
    pub history: Seq<EventView>,
}

impl StateView {
    /// Every participant of the roster is well formed.
    pub open spec fn wf(self) -> bool {
        forall|i: int| 0 <= i < self.entities.len() ==> (#[trigger] self.entities[i]).wf()
    }

    /// The encounter before anything happened.
    pub open spec fn fresh() -> StateView {
        StateView { round: 0, turn: 0, entities: Seq::empty(), history: Seq::empty() }
    }

    /// The encounter with `action` written to the end of the log, under the
    /// round that is being played.
    pub open spec fn logged(self, action: ActionView) -> StateView {
        StateView { history: self.history.push(EventView { round: self.round, action }), ..self }
    }

    /// The encounter with `entity` on the roster, behind everyone at least
    /// as fast as it.
    pub open spec fn added(self, entity: EntityView) -> StateView {
        StateView { entities: with_added(self.entities, entity), ..self }
    }

    /// The encounter after the first participant called `name` lost
    /// `amount` hit points; unchanged where nobody is called so.
    pub open spec fn damaged(self, name: Seq<char>, amount: int) -> StateView {
        StateView { entities: with_damage(self.entities, name, amount), ..self }
    }

    /// The encounter after the first participant called `name` gained
    /// `amount` hit points; unchanged where nobody is called so.
    pub open spec fn healed(self, name: Seq<char>, amount: int) -> StateView {
        StateView { entities: with_healing(self.entities, name, amount), ..self }
    }

    /// The encounter after the participant called `name` moved one place up
    /// past a neighbour of the very same initiative.
    pub open spec fn nudged(self, name: Seq<char>) -> StateView {
        StateView { entities: nudged(self.entities, name), ..self }
    }

    /// The first round begins with whoever stands first.
    pub open spec fn started(self) -> StateView {
        StateView { turn: 0, round: 1, ..self }
    }

    /// The turn passes to the next living participant, going round the
    /// roster at most once. Running past the end of the roster begins a new
    /// round. When nobody is alive the turn stays where it is, and the round
    /// still counts up.
    pub open spec fn advanced(self) -> StateView {
        let round = if wraps(self.entities, self.turn as int) {
            self.round + 1
        } else {
            self.round
        };
        match next_living(self.entities, self.turn as int) {
            Some(k) => StateView { turn: k as nat, round, ..self },
            None => StateView { round, ..self },
        }
    }

    /// What `action` does to the encounter, the log aside.
    pub open spec fn effect(self, action: ActionView) -> StateView {
        match action {
            ActionView::Damage { name, hp } => self.damaged(name, hp),
            ActionView::AddEntity { name, initiative, hp } => self.added(
                newcomer(name, initiative, hp),
            ),
            ActionView::Heal { name, hp } => self.healed(name, hp),
            ActionView::NudgeEntity { name } => self.nudged(name),
            ActionView::ChangeTurn => self.advanced(),
            ActionView::StartEncounter => self.started(),
        }
    }

    /// The encounter after `action`: it is logged first and takes effect
    /// then.
    pub open spec fn applied(self, action: ActionView) -> StateView {
        self.logged(action).effect(action)
    }

    /// The encounter after all of `actions`, applied one after the other.
    pub open spec fn applied_all(self, actions: Seq<ActionView>) -> StateView
        decreases actions.len(),
    {
        if actions.len() == 0 {
            self
        } else {
            self.applied_all(actions.drop_last()).applied(actions.last())
        }
    }

    /// The turn pointer one place back; from the front of the roster it goes
    /// to the last place and the round counts down.
    pub open spec fn stepped_back(self) -> StateView {
        if self.turn == 0 {
            StateView { turn: (self.entities.len() - 1) as nat, round: self.round - 1, ..self }
        } else {
            StateView { turn: (self.turn - 1) as nat, ..self }
        }
    }

    /// The encounter after taking back the last logged command. Damage is
    /// healed, healing is dealt as damage, an added participant leaves and a
    /// passed turn steps back; those leave the log one entry shorter. Starts
    /// and nudges cannot be taken back and leave everything as it is, and so
    /// does an empty log.
    pub open spec fn undone(self) -> StateView {
        if self.history.len() == 0 {
            self
        } else {
            let rest = StateView { history: self.history.drop_last(), ..self };
            match self.history.last().action {
                ActionView::Damage { name, hp } => rest.healed(name, hp),
                ActionView::Heal { name, hp } => rest.damaged(name, hp),
                ActionView::AddEntity { name, .. } => StateView {
                    entities: without(self.entities, name),
                    ..rest
                },
                ActionView::ChangeTurn => rest.stepped_back(),
                ActionView::NudgeEntity { .. } => self,
                ActionView::StartEncounter => self,
            }
        }
    }

    /// The mark in front of a row: a star for the participant whose turn it
    /// is, nothing for the others.
    pub open spec fn marker(self, index: int) -> Seq<char> {
        if index == self.turn {
            seq!['*']
        } else {
            Seq::empty()
        }
    }

    /// The cells of the row for the participant at `index`: the turn mark,
    /// the name, the initiative and the health.
    pub open spec fn row(self, index: int) -> Seq<Seq<char>> {
        seq![
            self.marker(index),
            self.entities[index].name,
            decimal(self.entities[index].initiative),
            self.entities[index].health_text(),
        ]
    }

    /// The roster as a table, one row for each participant in roster order.
    pub open spec fn table(self) -> TableView {
        TableView {
            headers: seq![Seq::empty(), "NAME"@, "INITIATIVE"@, "HP"@],
            rows: Seq::new(self.entities.len(), |index: int| self.row(index)),
        }
    }

    /// What there is to tell the user once `action` has been applied:
    /// after damage the fate or the health of the one hit, after healing its
    /// health, after a start or a passed turn whose turn it is. Nothing is
    /// told of a name that nobody has, nor of other commands.
    pub open spec fn report(self, action: ActionView) -> Option<Seq<char>> {
        match action {
            ActionView::Damage { name, .. } => match index_of(self.entities, name) {
                Some(k) => Some(
                    if self.entities[k].is_dead() {
                        name + " Killed"@
                    } else {
                        name + ": "@ + self.entities[k].health_text()
                    },
                ),
                None => None,
            },
            ActionView::Heal { name, .. } => match index_of(self.entities, name) {
                Some(k) => Some(name + " "@ + self.entities[k].health_text()),
                None => None,
            },
            ActionView::StartEncounter => Some(self.entities[self.turn as int].name + "'s turn"@),
            ActionView::ChangeTurn => Some(self.entities[self.turn as int].name + "'s turn"@),
            _ => None,
        }
    }

    /// How an `undo` ends on this encounter.
    pub open spec fn undo_outcome(self) -> UndoOutcome {
        if self.history.len() == 0 {
            UndoOutcome::Nothing
        } else if self.history.last().action.reversible() {
            UndoOutcome::Reverted
        } else {
            UndoOutcome::Unsupported
        }
    }
}

/// How an `undo` ended.
#[derive(Clone, Copy, Debug, PartialEq, Eq, Structural)]
pub enum UndoOutcome {
    /// The log was empty; nothing changed.
    Nothing,
    /// The last command was taken back and left the log.
    Reverted,
    /// The last command is of a kind that cannot be taken back; nothing
    /// changed.
    Unsupported,
}

/// The views of a run of participants, place by place.
pub open spec fn entity_views(entities: Seq<Entity>) -> Seq<EntityView> {
    entities.map_values(|e: Entity| e@)
}

/// The views of a run of logged events, place by place.
pub open spec fn event_views(events: Seq<Event>) -> Seq<EventView> {
    events.map_values(|e: Event| e@)
}

/// An encounter in progress.
#[derive(Debug)]
pub struct State {
    round: i32,
    turn: usize,
    entities: Vec<Entity>,
    history: Vec<Event>,
}

impl View for State {
    type V = StateView;

    closed spec fn view(&self) -> StateView {
        StateView {
            round: self.round as int,
            turn: self.turn as nat,
            entities: entity_views(self.entities@),
            history: event_views(self.history@),
        }
    }
}

impl Default for State {
    /// The encounter before anything happened: round zero, nobody on the
    /// roster, nothing in the log.
    fn default() -> (r: Self)
        ensures
            r@ == StateView::fresh(),
    {
        let r = State { round: 0, turn: 0, entities: Vec::new(), history: Vec::new() };
        assert(r@.entities =~= Seq::empty());
        assert(r@.history =~= Seq::empty());
        r
    }
}

impl State {
    /// Puts an encounter together from stored values. The walk over the
    /// participants is there to learn that each of them is well formed.
    pub fn from_parts(round: i32, turn: usize, entities: Vec<Entity>, history: Vec<Event>) -> (r:
        Self)
        ensures
            r@ == (StateView {
                round: round as int,
                turn: turn as nat,
                entities: entity_views(entities@),
                history: event_views(history@),
            }),
            r@.wf(),
    {
        let mut checked: usize = 0;
        while checked < entities.len()
            invariant
                checked <= entities.len(),
                forall|i: int| 0 <= i < checked ==> (#[trigger] entities@[i])@.wf(),
            decreases entities.len() - checked,
        {
            let entity = &entities[checked];
            proof {
                use_type_invariant(entity);
            }
            checked = checked + 1;
        }
        State { round, turn, entities, history }
    }

    /// The round that is being played; zero before the start.
    pub fn round(&self) -> (r: i32)
        ensures
            r == self@.round,
    {
        self.round
    }

    /// The place on the roster of the participant whose turn it is.
    pub fn turn(&self) -> (r: usize)
        ensures
            r == self@.turn,
    {
        self.turn
    }

    /// The roster, in the order of play.
    pub fn entities(&self) -> (r: &Vec<Entity>)
        ensures
            entity_views(r@) == self@.entities,
    {
        &self.entities
    }

    /// The log of commands, oldest first.
    pub fn history(&self) -> (r: &Vec<Event>)
        ensures
            event_views(r@) == self@.history,
    {
        &self.history
    }
}

impl State {
    /// The place of the first participant called `name`.
    fn position(&self, name: &str) -> (r: Option<usize>)
        ensures
            match r {
                Some(k) => k < self.entities.len() && index_of(self@.entities, name@) == Some(
                    k as int,
                ),
                None => index_of(self@.entities, name@) is None,
            },
    {
        let wanted = name.to_owned();
        let ghost flags = called(self@.entities, name@);
        let mut index: usize = 0;
        while index < self.entities.len()
            invariant
                index <= self.entities.len(),
                wanted@ == name@,
                flags == called(self@.entities, name@),
                forall|j: int| 0 <= j < index ==> !flags[j],
            decreases self.entities.len() - index,
        {
            if self.entities[index].has_name(&wanted) {
                proof {
                    lemma_first_set_is(flags, 0, index as int);
                }
                return Some(index);
            }
            index = index + 1;
        }
        proof {
            lemma_first_set_none(flags, 0);
        }
        None
    }

    /// The place of the first living participant from `from` on.
    fn living_from(&self, from: usize) -> (r: Option<usize>)
        ensures
            match r {
                Some(k) => k < self.entities.len() && first_set(
                    living(self@.entities),
                    from as int,
                ) == Some(k as int),
                None => first_set(living(self@.entities), from as int) is None,
            },
    {
        let ghost alive = living(self@.entities);
        let mut index: usize = from;
        while index < self.entities.len()
            invariant
                from <= index,
                alive == living(self@.entities),
                forall|j: int| from <= j < index ==> !alive[j],
            decreases self.entities.len() - index,
        {
            if !self.entities[index].is_dead() {
                proof {
                    lemma_first_set_is(alive, from as int, index as int);
                }
                return Some(index);
            }
            index = index + 1;
        }
        proof {
            lemma_first_set_none(alive, from as int);
        }
        None
    }

    /// The place of the first living participant behind the turn.
    fn living_behind_turn(&self) -> (r: Option<usize>)
        ensures
            match r {
                Some(k) => k < self.entities.len() && first_set(
                    living(self@.entities),
                    self@.turn as int + 1,
                ) == Some(k as int),
                None => wraps(self@.entities, self@.turn as int),
            },
    {
        if self.turn < self.entities.len() {
            self.living_from(self.turn + 1)
        } else {
            None
        }
    }

    /// Adds a participant behind everyone at least as fast as it.
    pub fn add_entity(&mut self, entity: Entity)
        ensures
            final(self)@ == old(self)@.added(entity@),
            old(self)@.wf() ==> final(self)@.wf(),
            sorted(old(self)@.entities) ==> sorted(final(self)@.entities),
    {
        proof {
            use_type_invariant(&entity);
            if sorted(self@.entities) {
                lemma_added_keeps_sorted(self@.entities, entity@);
            }
        }
        let ghost flags = slower(self@.entities, entity@.initiative);
        let mut index: usize = 0;
        while index < self.entities.len() && self.entities[index].get_initiative()
            >= entity.get_initiative()
            invariant
                index <= self.entities.len(),
                flags == slower(self@.entities, entity@.initiative),
                forall|j: int| 0 <= j < index ==> !flags[j],
            decreases self.entities.len() - index,
        {
            index = index + 1;
        }
        proof {
            if index < self.entities.len() {
                lemma_first_set_is(flags, 0, index as int);
            } else {
                lemma_first_set_none(flags, 0);
            }
        }
        let ghost before = self@.entities;
        let ghost added = entity@;
        self.entities.insert(index, entity);
        proof {
            assert(self@.entities =~= before.insert(index as int, added));
        }
    }

    /// Takes `damage` hit points from the first participant called `name`
    /// and returns that participant, or `None` when nobody is called so.
    pub fn damage_entity(&mut self, name: &str, damage: i32) -> (r: Option<&Entity>)
        ensures
            final(self)@ == old(self)@.damaged(name@, damage as int),
            match index_of(old(self)@.entities, name@) {
                Some(k) => r matches Some(entity) && entity@ == final(self)@.entities[k],
                None => r is None,
            },
            old(self)@.wf() ==> final(self)@.wf(),
            sorted(old(self)@.entities) ==> sorted(final(self)@.entities),
    {
        match self.position(name) {
            Some(k) => {
                let ghost before = self@.entities;
                self.entities[k].reduce_health(damage);
                proof {
                    assert(self@.entities =~= before.update(
                        k as int,
                        before[k as int].damaged(damage as int),
                    ));
                }
                Some(&self.entities[k])
            },
            None => None,
        }
    }

    /// Gives `hp` hit points back to the first participant called `name` and
    /// returns that participant, or `None` when nobody is called so.
    pub fn heal_entity(&mut self, name: &str, hp: i32) -> (r: Option<&Entity>)
        ensures
            final(self)@ == old(self)@.healed(name@, hp as int),
            match index_of(old(self)@.entities, name@) {
                Some(k) => r matches Some(entity) && entity@ == final(self)@.entities[k],
                None => r is None,
            },
            old(self)@.wf() ==> final(self)@.wf(),
            sorted(old(self)@.entities) ==> sorted(final(self)@.entities),
    {
        match self.position(name) {
            Some(k) => {
                let ghost before = self@.entities;
                self.entities[k].increase_health(hp);
                proof {
                    assert(self@.entities =~= before.update(
                        k as int,
                        before[k as int].healed(hp as int),
                    ));
                }
                Some(&self.entities[k])
            },
            None => None,
        }
    }

    /// Moves the participant called `name` one place up, past a neighbour of
    /// the very same initiative. Only the first such pair is exchanged.
    pub fn nudge(&mut self, name: &str)
        ensures
            final(self)@ == old(self)@.nudged(name@),
            final(self)@.entities == old(self)@.entities || exists|k: int|
                {
                    &&& 0 <= k < old(self)@.entities.len() - 1
                    &&& (#[trigger] old(self)@.entities[k + 1]).name == name@
                    &&& old(self)@.entities[k].initiative == old(self)@.entities[k + 1].initiative
                    &&& final(self)@.entities == swapped(old(self)@.entities, k)
                },
            old(self)@.wf() ==> final(self)@.wf(),
            sorted(old(self)@.entities) ==> sorted(final(self)@.entities),
    {
        let wanted = name.to_owned();
        let ghost flags = tied_before(self@.entities, name@);
        let mut second: usize = 1;
        while second < self.entities.len()
            invariant
                1 <= second,
                wanted@ == name@,
                *self == *old(self),
                flags == tied_before(self@.entities, name@),
                forall|j: int| 0 <= j < second - 1 ==> !flags[j],
            decreases self.entities.len() - second,
        {
            if self.entities[second].has_name(&wanted) && self.entities[second
                - 1].get_initiative() == self.entities[second].get_initiative() {
                proof {
                    lemma_first_set_is(flags, 0, second - 1);
                }
                let ghost before = self@.entities;
                let mover = self.entities.remove(second);
                self.entities.insert(second - 1, mover);
                proof {
                    assert(self@.entities =~= swapped(before, second - 1));
                }
                return ;
            }
            second = second + 1;
        }
        proof {
            lemma_first_set_none(flags, 0);
        }
    }

    /// Begins the first round and returns whoever stands first, or `None`
    /// when the roster is empty.
    pub fn start(&mut self) -> (r: Option<&Entity>)
        ensures
            final(self)@ == old(self)@.started(),
            match r {
                Some(entity) => old(self)@.entities.len() > 0 && entity@ == old(self)@.entities[0],
                None => old(self)@.entities.len() == 0,
            },
    {
        self.turn = 0;
        self.round = 1;
        if self.entities.len() > 0 {
            Some(&self.entities[0])
        } else {
            None
        }
    }

    /// Whether the turn can be passed on: somebody is on the roster, and the
    /// round counter has room where the turn runs past the end of the roster.
    pub open spec fn can_advance(&self) -> bool {
        &&& self@.entities.len() > 0
        &&& wraps(self@.entities, self@.turn as int) ==> self@.round < i32::MAX
    }

    /// Passes the turn to the next living participant and returns it, or
    /// `None` when nobody is alive.
    pub fn next_turn(&mut self) -> (r: Option<&Entity>)
        requires
            old(self).can_advance(),
        ensures
            final(self)@ == old(self)@.advanced(),
            match next_living(old(self)@.entities, old(self)@.turn as int) {
                Some(k) => r matches Some(entity) && entity@ == old(self)@.entities[k]
                    && !entity@.is_dead() && final(self)@.turn == k,
                None => r is None,
            },
            r is None <==> forall|j: int|
                0 <= j < old(self)@.entities.len() ==> (#[trigger] old(self)@.entities[j]).is_dead(),
            final(self)@.round == old(self)@.round + 1 || final(self)@.round == old(self)@.round,
            final(self)@.round == old(self)@.round + 1 <==> forall|j: int|
                old(self)@.turn < j < old(self)@.entities.len() ==> (
                #[trigger] old(self)@.entities[j]).is_dead(),
    {
        proof {
            lemma_advanced(self@);
        }
        let behind = self.living_behind_turn();
        let found = match behind {
            Some(k) => Some(k),
            None => {
                self.round = self.round + 1;
                self.living_from(0)
            },
        };
        match found {
            Some(k) => {
                self.turn = k;
                Some(&self.entities[k])
            },
            None => None,
        }
    }

    /// The participant whose turn it is.
    pub fn current_turn_entity(&self) -> (r: &Entity)
        requires
            self@.turn < self@.entities.len(),
        ensures
            r@ == self@.entities[self@.turn as int],
    {
        &self.entities[self.turn]
    }

    /// The first participant called `name`.
    pub fn get_entity(&self, name: &str) -> (r: Option<&Entity>)
        ensures
            match index_of(self@.entities, name@) {
                Some(k) => r matches Some(entity) && entity@ == self@.entities[k],
                None => r is None,
            },
    {
        match self.position(name) {
            Some(k) => Some(&self.entities[k]),
            None => None,
        }
    }

    /// Whether `action` can be applied: a monster comes with hit points that
    /// are not negative, and a turn is passed on only where it can be.
    pub open spec fn accepts(&self, action: ActionView) -> bool {
        &&& action.wf()
        &&& action is ChangeTurn ==> self.can_advance()
    }

    /// Tells whether `process_action` takes `action` as things stand.
    pub fn permits(&self, action: &Action) -> (r: bool)
        ensures
            r == self.accepts(action@),
    {
        match action {
            Action::AddEntity { hp: Some(hp), .. } => *hp >= 0,
            Action::ChangeTurn => self.entities.len() > 0 && (self.round < i32::MAX
                || self.living_behind_turn().is_some()),
            _ => true,
        }
    }

    /// Logs `action` under the current round, then carries it out. A command
    /// is logged even where it changes nothing.
    pub fn process_action(&mut self, action: &Action)
        requires
            old(self).accepts(action@),
        ensures
            final(self)@ == old(self)@.applied(action@),
            final(self)@.history == old(self)@.history.push(
                EventView { round: old(self)@.round, action: action@ },
            ),
            old(self)@.wf() ==> final(self)@.wf(),
            sorted(old(self)@.entities) ==> sorted(final(self)@.entities),
    {
        let ghost before = self@;
        self.history.push(Event { action: action.clone(), round: self.round });
        proof {
            assert(self@.history =~= before.logged(action@).history);
        }
        match action {
            Action::Damage { name, hp } => {
                self.damage_entity(name.as_str(), *hp);
            },
            Action::AddEntity { name, initiative, hp } => match hp {
                Some(hp) => {
                    self.add_entity(Entity::monster(name.as_str(), *initiative, *hp));
                },
                None => {
                    self.add_entity(Entity::player(name.as_str(), *initiative));
                },
            },
            Action::Heal { name, hp } => {
                self.heal_entity(name.as_str(), *hp);
            },
            Action::NudgeEntity { name } => {
                self.nudge(name.as_str());
            },
            Action::ChangeTurn => {
                self.next_turn();
            },
            Action::StartEncounter => {
                self.start();
            },
        }
    }

    /// Whether the last logged command can be looked at for taking back:
    /// stepping the turn back from the front of the roster needs somebody on
    /// the roster and room in the round counter.
    pub open spec fn can_undo(&self) -> bool {
        self@.history.len() > 0 && self@.history.last().action is ChangeTurn && self@.turn == 0
            ==> self@.entities.len() > 0 && self@.round > i32::MIN
    }

    /// Tells whether `undo` can run as things stand.
    pub fn permits_undo(&self) -> (r: bool)
        ensures
            r == self.can_undo(),
    {
        let logged = self.history.len();
        if logged == 0 {
            return true;
        }
        match self.history[logged - 1].action {
            Action::ChangeTurn => self.turn != 0 || (self.entities.len() > 0 && self.round
                > i32::MIN),
            _ => true,
        }
    }

    /// Takes back the last logged command, where that is possible, and says
    /// how it went.
    pub fn undo(&mut self) -> (r: UndoOutcome)
        requires
            old(self).can_undo(),
        ensures
            final(self)@ == old(self)@.undone(),
            r == old(self)@.undo_outcome(),
            match r {
                UndoOutcome::Reverted => final(self)@.history == old(self)@.history.drop_last(),
                _ => final(self)@ == old(self)@,
            },
            old(self)@.wf() ==> final(self)@.wf(),
            sorted(old(self)@.entities) ==> sorted(final(self)@.entities),
    {
        let ghost before = self@;
        match self.history.pop() {
            None => UndoOutcome::Nothing,
            Some(event) => {
                proof {
                    assert(self@.history =~= before.history.drop_last());
                }
                match &event.action {
                    Action::Damage { name, hp } => {
                        self.heal_entity(name.as_str(), *hp);
                        UndoOutcome::Reverted
                    },
                    Action::Heal { name, hp } => {
                        self.damage_entity(name.as_str(), *hp);
                        UndoOutcome::Reverted
                    },
                    Action::AddEntity { name, .. } => {
                        match self.position(name.as_str()) {
                            Some(k) => {
                                self.entities.remove(k);
                                proof {
                                    assert(self@.entities =~= before.entities.remove(k as int));
                                }
                            },
                            None => {},
                        }
                        UndoOutcome::Reverted
                    },
                    Action::ChangeTurn => {
                        if self.turn == 0 {
                            self.turn = self.entities.len() - 1;
                            self.round = self.round - 1;
                        } else {
                            self.turn = self.turn - 1;
                        }
                        UndoOutcome::Reverted
                    },
                    _ => {
                        self.history.push(event);
                        proof {
                            assert(self@.history =~= before.history);
                        }
                        UndoOutcome::Unsupported
                    },
                }
            },
        }
    }

    /// The roster laid out as a table, with a star in front of the
    /// participant whose turn it is.
    pub fn show(&self) -> (r: String)
        ensures
            r@ == self@.table().text(),
    {
        proof {
            reveal_strlit("*");
        }
        let mut headers: Vec<String> = Vec::new();
        headers.push(String::new());
        headers.push("NAME".to_owned());
        headers.push("INITIATIVE".to_owned());
        headers.push("HP".to_owned());
        let mut table = Table::new(headers);
        let mut index: usize = 0;
        while index < self.entities.len()
            invariant
                index <= self.entities.len(),
                table@.wf(),
                table@.headers == self@.table().headers,
                table@.rows == self@.table().rows.take(index as int),
                "*"@ == seq!['*'],
            decreases self.entities.len() - index,
        {
            let entity = &self.entities[index];
            let mut row: Vec<String> = Vec::new();
            row.push(
                if index == self.turn {
                    "*".to_owned()
                } else {
                    String::new()
                },
            );
            row.push(entity.get_name().to_owned());
            row.push(decimal_string(entity.get_initiative()));
            row.push(entity.display_hp());
            proof {
                assert(texts(row@) =~= self@.row(index as int));
            }
            table.add_row(row);
            index = index + 1;
        }
        proof {
            assert(table@.rows =~= self@.table().rows);
        }
        table.print()
    }

    /// Whether there is something to report on after `action`: a start or a
    /// passed turn is reported with the participant whose turn it is, so the
    /// turn must point into the roster.
    pub open spec fn can_report(&self, action: ActionView) -> bool {
        action is StartEncounter || action is ChangeTurn ==> self@.turn < self@.entities.len()
    }

    /// What there is to tell the user once `action` has been applied.
    pub fn report(&self, action: &Action) -> (r: Option<String>)
        requires
            self.can_report(action@),
        ensures
            match self@.report(action@) {
                Some(text) => r matches Some(told) && told@ == text,
                None => r is None,
            },
    {
        match action {
            Action::Damage { name, .. } => match self.get_entity(name.as_str()) {
                Some(entity) => {
                    proof {
                        lemma_first_set(called(self@.entities, name@), 0);
                    }
                    let mut told = entity.get_name().to_owned();
                    if entity.is_dead() {
                        told.append(" Killed");
                    } else {
                        told.append(": ");
                        told.append(entity.display_hp().as_str());
                    }
                    Some(told)
                },
                None => None,
            },
            Action::Heal { name, .. } => match self.get_entity(name.as_str()) {
                Some(entity) => {
                    proof {
                        lemma_first_set(called(self@.entities, name@), 0);
                    }
                    let mut told = entity.get_name().to_owned();
                    told.append(" ");
                    told.append(entity.display_hp().as_str());
                    Some(told)
                },
                None => None,
            },
            Action::StartEncounter | Action::ChangeTurn => {
                let mut told = self.current_turn_entity().get_name().to_owned();
                told.append("'s turn");
                Some(told)
            },
            _ => None,
        }
    }
}

} // verus!
