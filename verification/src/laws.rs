//! What holds of every encounter and of every table, proved over the
//! mathematical views.

use vstd::prelude::*;
use crate::action::ActionView;
use crate::entity::EntityView;
use crate::roster::{
    called, first_set, index_of, insertion_index, lemma_first_set, living, next_living, nudged,
    slower, sorted, tied_before, with_added, with_damage, with_healing, wraps,
};
use crate::state::{newcomer, EventView, StateView, UndoOutcome};
use crate::table::{cells_text, column_width, line_text, TableView};
use crate::text::{byte_len, padded};

verus! {

/// A loss of hit points that is not negative leaves what the subtraction
/// leaves, or zero where that would be less.
pub proof fn lemma_damage_stops_at_zero(entity: EntityView, amount: int)
    requires
        entity.wf(),
        amount >= 0,
    ensures
        entity.damaged(amount).wf(),
        entity.current_hp matches Some(current) ==> entity.damaged(amount).current_hp == Some(
            if current - amount > 0 {
                current - amount
            } else {
                0
            },
        ),
        entity.current_hp is None ==> entity.damaged(amount) == entity,
{
}

/// A gain of hit points that is not negative gives what the addition gives,
/// or the maximum where that would be more.
pub proof fn lemma_healing_stops_at_maximum(entity: EntityView, amount: int)
    requires
        entity.wf(),
        amount >= 0,
    ensures
        entity.healed(amount).wf(),
        entity.current_hp matches Some(current) ==> entity.healed(amount).current_hp == Some(
            if current + amount < entity.max_hp->0 {
                current + amount
            } else {
                entity.max_hp->0
            },
        ),
        entity.current_hp is None ==> entity.healed(amount) == entity,
{
}

/// Whatever the amount, hit points stay between zero and their maximum, and
/// nobody whose health is not kept is ever dead.
pub proof fn lemma_health_stays_in_range(entity: EntityView, amount: int)
    requires
        entity.wf(),
    ensures
        entity.damaged(amount).wf(),
        entity.healed(amount).wf(),
        entity.damaged(amount).current_hp matches Some(current) ==> current >= 0,
        entity.is_dead() <==> (entity.current_hp matches Some(current) && current <= 0),
        entity.current_hp is None ==> !entity.is_dead(),
{
}

/// A newcomer stands behind everyone at least as fast as it is, and in a
/// sorted roster in front of everyone slower; nobody else changes place
/// relative to the others.
pub proof fn lemma_added_place(roster: Seq<EntityView>, entity: EntityView)
    ensures
        ({
            let k = insertion_index(roster, entity.initiative);
            &&& 0 <= k <= roster.len()
            &&& with_added(roster, entity) == roster.insert(k, entity)
            &&& forall|j: int| 0 <= j < k ==> (#[trigger] roster[j]).initiative >= entity.initiative
            &&& k < roster.len() ==> roster[k].initiative < entity.initiative
            &&& sorted(roster) ==> forall|j: int|
                k <= j < roster.len() ==> (#[trigger] roster[j]).initiative < entity.initiative
        }),
{
    let flags = slower(roster, entity.initiative);
    lemma_first_set(flags, 0);
    let k = insertion_index(roster, entity.initiative);
    assert forall|j: int| 0 <= j < k implies (#[trigger] roster[j]).initiative
        >= entity.initiative by {
        assert(!flags[j]);
    }
}

/// Adding to a sorted roster leaves it sorted.
pub proof fn lemma_added_keeps_sorted(roster: Seq<EntityView>, entity: EntityView)
    requires
        sorted(roster),
    ensures
        sorted(with_added(roster, entity)),
{
    lemma_added_place(roster, entity);
}

/// The roster that comes of adding `entrants` one after the other, the first
/// of them to an empty roster.
pub open spec fn enrolled(entrants: Seq<EntityView>) -> Seq<EntityView>
    decreases entrants.len(),
{
    if entrants.len() == 0 {
        Seq::empty()
    } else {
        with_added(enrolled(entrants.drop_last()), entrants.last())
    }
}

/// The commands that add `entrants` one after the other. An entrant whose
/// health is kept is added with its current hit points, which are then its
/// maximum too.
pub open spec fn additions(entrants: Seq<EntityView>) -> Seq<ActionView> {
    Seq::new(
        entrants.len(),
        |i: int|
            ActionView::AddEntity {
                name: entrants[i].name,
                initiative: entrants[i].initiative,
                hp: entrants[i].current_hp,
            },
    )
}

/// For each place of the roster that comes of adding `entrants` one after
/// the other, the number of the entrant that stands there, counted in the
/// order of their coming.
pub open spec fn enrolment_order(entrants: Seq<EntityView>) -> Seq<int>
    decreases entrants.len(),
{
    if entrants.len() == 0 {
        Seq::empty()
    } else {
        enrolment_order(entrants.drop_last()).insert(
            insertion_index(enrolled(entrants.drop_last()), entrants.last().initiative),
            entrants.len() - 1,
        )
    }
}

/// Whatever is added in whatever order, the roster holds every entrant
/// once, the faster in front of the slower, and of two that are equally fast
/// the one that came first in front.
pub proof fn lemma_enrolled_in_order(entrants: Seq<EntityView>)
    ensures
        enrolled(entrants).len() == entrants.len(),
        enrolment_order(entrants).len() == entrants.len(),
        sorted(enrolled(entrants)),
        forall|p: int|
            0 <= p < entrants.len() ==> 0 <= (#[trigger] enrolment_order(entrants)[p])
                < entrants.len() && enrolled(entrants)[p] == entrants[enrolment_order(
                entrants,
            )[p]],
        forall|p: int, q: int|
            0 <= p < q < entrants.len() ==> enrolment_order(entrants)[p] != enrolment_order(
                entrants,
            )[q],
        forall|p: int, q: int|
            0 <= p < q < entrants.len() ==> {
                ||| enrolled(entrants)[p].initiative > enrolled(entrants)[q].initiative
                ||| enrolled(entrants)[p].initiative == enrolled(entrants)[q].initiative
                    && enrolment_order(entrants)[p] < enrolment_order(entrants)[q]
            },
    decreases entrants.len(),
{
    if entrants.len() > 0 {
        lemma_enrolled_in_order(entrants.drop_last());
        lemma_added_place(enrolled(entrants.drop_last()), entrants.last());
    }
}

/// A nudge exchanges the participant called `name` with the one right in
/// front of it, and only where the two have the very same initiative; it is
/// the first such pair that is exchanged. Everyone else stays in place, and
/// without such a pair so does everyone.
pub proof fn lemma_nudge_swaps_tied_neighbours(roster: Seq<EntityView>, name: Seq<char>)
    ensures
        nudged(roster, name).len() == roster.len(),
        match first_set(tied_before(roster, name), 0) {
            Some(k) => {
                &&& 0 <= k < roster.len() - 1
                &&& roster[k + 1].name == name
                &&& roster[k].initiative == roster[k + 1].initiative
                &&& nudged(roster, name)[k] == roster[k + 1]
                &&& nudged(roster, name)[k + 1] == roster[k]
                &&& forall|j: int|
                    0 <= j < roster.len() && j != k && j != k + 1 ==> #[trigger] nudged(
                        roster,
                        name,
                    )[j] == roster[j]
                &&& forall|j: int|
                    0 <= j < k ==> !((#[trigger] roster[j + 1]).name == name
                        && roster[j].initiative == roster[j + 1].initiative)
            },
            None => {
                &&& nudged(roster, name) == roster
                &&& forall|j: int|
                    0 <= j < roster.len() - 1 ==> !((#[trigger] roster[j + 1]).name == name
                        && roster[j].initiative == roster[j + 1].initiative)
            },
        },
        sorted(roster) ==> sorted(nudged(roster, name)),
{
    let flags = tied_before(roster, name);
    lemma_first_set(flags, 0);
    match first_set(flags, 0) {
        Some(k) => {
            assert forall|j: int| 0 <= j < k implies !((#[trigger] roster[j + 1]).name == name
                && roster[j].initiative == roster[j + 1].initiative) by {
                assert(!flags[j]);
            }
        },
        None => {
            assert forall|j: int| 0 <= j < roster.len() - 1 implies !((#[trigger] roster[j
                + 1]).name == name && roster[j].initiative == roster[j + 1].initiative) by {
                assert(!flags[j]);
            }
        },
    }
}

/// Passing the turn on goes to the first living participant behind the
/// turn, or else to the first living one from the front; everyone passed
/// over is dead. The round counts up by one exactly where the turn runs past
/// the end of the roster, and not at all otherwise. Where nobody is alive
/// the turn stays in place. Roster and log are untouched.
pub proof fn lemma_advanced(state: StateView)
    ensures
        state.advanced().entities == state.entities,
        state.advanced().history == state.history,
        state.advanced().round == if wraps(state.entities, state.turn as int) {
            state.round + 1
        } else {
            state.round
        },
        wraps(state.entities, state.turn as int) <==> forall|j: int|
            state.turn < j < state.entities.len() ==> (#[trigger] state.entities[j]).is_dead(),
        match next_living(state.entities, state.turn as int) {
            Some(k) => {
                &&& 0 <= k < state.entities.len()
                &&& state.advanced().turn == k
                &&& !state.entities[k].is_dead()
                &&& if wraps(state.entities, state.turn as int) {
                    forall|j: int| 0 <= j < k ==> (#[trigger] state.entities[j]).is_dead()
                } else {
                    state.turn < k && forall|j: int|
                        state.turn < j < k ==> (#[trigger] state.entities[j]).is_dead()
                }
            },
            None => {
                &&& state.advanced().turn == state.turn
                &&& wraps(state.entities, state.turn as int)
                &&& forall|j: int|
                    0 <= j < state.entities.len() ==> (#[trigger] state.entities[j]).is_dead()
            },
        },
{
    let alive = living(state.entities);
    let turn = state.turn as int;
    lemma_first_set(alive, turn + 1);
    lemma_first_set(alive, 0);
    if wraps(state.entities, turn) {
        assert forall|j: int| turn < j < state.entities.len() implies (
        #[trigger] state.entities[j]).is_dead() by {
            assert(!alive[j]);
        }
    }
    match next_living(state.entities, turn) {
        Some(k) => {
            if wraps(state.entities, turn) {
                assert forall|j: int| 0 <= j < k implies (#[trigger] state.entities[j]).is_dead() by {
                    assert(!alive[j]);
                }
            } else {
                assert forall|j: int| turn < j < k implies (
                #[trigger] state.entities[j]).is_dead() by {
                    assert(!alive[j]);
                }
            }
        },
        None => {
            assert forall|j: int| 0 <= j < state.entities.len() implies (
            #[trigger] state.entities[j]).is_dead() by {
                assert(!alive[j]);
            }
        },
    }
}

/// Losing or gaining hit points changes nobody's name, so whoever was found
/// under a name before is found under it after.
pub proof fn lemma_health_keeps_names(
    roster: Seq<EntityView>,
    name: Seq<char>,
    amount: int,
    wanted: Seq<char>,
)
    ensures
        index_of(with_damage(roster, name, amount), wanted) == index_of(roster, wanted),
        index_of(with_healing(roster, name, amount), wanted) == index_of(roster, wanted),
{
    lemma_first_set(called(roster, name), 0);
    assert(called(with_damage(roster, name, amount), wanted) =~= called(roster, wanted));
    assert(called(with_healing(roster, name, amount), wanted) =~= called(roster, wanted));
}

/// Damage that is taken back at once leaves the log as it was before the
/// two steps, and the turn and the round with it. Where the damage did not
/// run into a bound, which is to say that the hit points less the amount lie
/// between zero and the maximum, the whole encounter is as it was.
pub proof fn lemma_damage_then_undo(state: StateView, name: Seq<char>, amount: int)
    requires
        state.wf(),
    ensures
        ({
            let after = state.applied(ActionView::Damage { name, hp: amount }).undone();
            &&& after.history == state.history
            &&& after.round == state.round
            &&& after.turn == state.turn
            &&& after.entities.len() == state.entities.len()
            &&& match index_of(state.entities, name) {
                Some(k) => {
                    &&& forall|j: int|
                        0 <= j < state.entities.len() && j != k ==> #[trigger] after.entities[j]
                            == state.entities[j]
                    &&& match (state.entities[k].max_hp, state.entities[k].current_hp) {
                        (Some(max), Some(current)) => 0 <= current - amount <= max ==> after
                            == state,
                        _ => after == state,
                    }
                },
                None => after == state,
            }
        }),
{
    let hit = state.applied(ActionView::Damage { name, hp: amount });
    let after = hit.undone();
    assert(hit.history.drop_last() =~= state.history);
    lemma_health_keeps_names(state.entities, name, amount, name);
    lemma_first_set(called(state.entities, name), 0);
    match index_of(state.entities, name) {
        Some(k) => {
            match (state.entities[k].max_hp, state.entities[k].current_hp) {
                (Some(max), Some(current)) => {
                    if 0 <= current - amount <= max {
                        assert(after.entities =~= state.entities);
                    }
                },
                _ => {
                    assert(after.entities =~= state.entities);
                },
            }
        },
        None => {},
    }
}

/// An addition that is taken back at once leaves the log, the turn and the
/// round as they were before the two steps. What leaves the roster is one
/// participant of the added name, the first in roster order, and everyone
/// else keeps their order. Where nobody had that name before, the whole
/// encounter is as it was.
pub proof fn lemma_add_then_undo(
    state: StateView,
    name: Seq<char>,
    initiative: int,
    hp: Option<int>,
)
    ensures
        ({
            let joined = state.applied(ActionView::AddEntity { name, initiative, hp });
            let after = joined.undone();
            &&& after.history == state.history
            &&& after.round == state.round
            &&& after.turn == state.turn
            &&& index_of(joined.entities, name) matches Some(k) && joined.entities[k].name == name
                && after.entities == joined.entities.remove(k)
            &&& index_of(state.entities, name) is None ==> after == state
        }),
{
    let entity = newcomer(name, initiative, hp);
    let joined = state.applied(ActionView::AddEntity { name, initiative, hp });
    lemma_added_place(state.entities, entity);
    let at = insertion_index(state.entities, initiative);
    let flags = called(joined.entities, name);
    assert(flags[at]);
    lemma_first_set(flags, 0);
    if index_of(state.entities, name) is None {
        let before = called(state.entities, name);
        lemma_first_set(before, 0);
        assert forall|j: int| 0 <= j < at implies !flags[j] by {
            assert(joined.entities[j] == state.entities[j]);
            assert(!before[j]);
        }
        assert(state.entities.insert(at, entity).remove(at) =~= state.entities);
    }
}

/// Whether a passed turn that is taken back at once ends where it began:
/// the turn points into the roster, and the participant in the next place,
/// the first place after the last, is alive or the only one there is.
pub open spec fn steps_straight(state: StateView) -> bool {
    &&& state.turn < state.entities.len()
    &&& {
        let next: int = if state.turn + 1 < state.entities.len() {
            state.turn as int + 1
        } else {
            0
        };
        !state.entities[next].is_dead() || state.entities.len() == 1
    }
}

/// Passing the turn on and taking that back at once restores the turn and
/// the round exactly where no dead participant was passed over, and then
/// the whole encounter is as it was. Taking back steps one place back, not
/// to where the turn came from.
pub proof fn lemma_advance_then_undo(state: StateView)
    requires
        state.entities.len() > 0,
    ensures
        ({
            let after = state.applied(ActionView::ChangeTurn).undone();
            &&& after.entities == state.entities
            &&& after.history == state.history
            &&& steps_straight(state) <==> after.turn == state.turn && after.round == state.round
            &&& steps_straight(state) ==> after == state
        }),
{
    lemma_advanced(state);
}

/// Whatever command is applied, the log grows by that command under
/// the round in which it was given, a roster that was sorted stays sorted,
/// and a well-formed encounter stays well formed where the command is.
pub proof fn lemma_applied(state: StateView, action: ActionView)
    ensures
        state.applied(action).history == state.history.push(
            EventView { round: state.round, action },
        ),
        sorted(state.entities) ==> sorted(state.applied(action).entities),
        state.wf() && action.wf() ==> state.applied(action).wf(),
{
    match action {
        ActionView::Damage { name, .. } => {
            lemma_first_set(called(state.entities, name), 0);
        },
        ActionView::Heal { name, .. } => {
            lemma_first_set(called(state.entities, name), 0);
        },
        ActionView::AddEntity { name, initiative, hp } => {
            lemma_added_place(state.entities, newcomer(name, initiative, hp));
        },
        ActionView::NudgeEntity { name } => {
            lemma_nudge_swaps_tied_neighbours(state.entities, name);
        },
        ActionView::ChangeTurn => {},
        ActionView::StartEncounter => {},
    }
}

/// Whatever commands are applied in whatever order, a roster that was
/// sorted stays sorted, every command is in the log, and the encounter stays
/// well formed where the commands are. In an encounter that began empty the
/// roster is therefore sorted at all times.
pub proof fn lemma_applied_all(state: StateView, actions: Seq<ActionView>)
    ensures
        state.applied_all(actions).history.len() == state.history.len() + actions.len(),
        forall|i: int|
            0 <= i < actions.len() ==> (#[trigger] state.applied_all(actions).history[state.history.len()
                + i]).action == actions[i],
        sorted(state.entities) ==> sorted(state.applied_all(actions).entities),
        state.wf() && (forall|i: int| 0 <= i < actions.len() ==> (#[trigger] actions[i]).wf())
            ==> state.applied_all(actions).wf(),
        sorted(StateView::fresh().applied_all(actions).entities),
    decreases actions.len(),
{
    if actions.len() > 0 {
        let earlier = actions.drop_last();
        lemma_applied_all(state, earlier);
        lemma_applied(state.applied_all(earlier), actions.last());
        lemma_applied(StateView::fresh().applied_all(earlier), actions.last());
    }
}

/// Additions alone, made to an empty encounter, give the roster of the
/// added in the order that `lemma_enrolled_in_order` describes. The entrants
/// are as they come: at full health where health is kept.
pub proof fn lemma_additions_enrol(entrants: Seq<EntityView>)
    requires
        forall|i: int|
            0 <= i < entrants.len() ==> (#[trigger] entrants[i]).max_hp == entrants[i].current_hp,
    ensures
        StateView::fresh().applied_all(additions(entrants)).entities == enrolled(entrants),
    decreases entrants.len(),
{
    if entrants.len() > 0 {
        let earlier = entrants.drop_last();
        lemma_additions_enrol(earlier);
        assert(additions(entrants).drop_last() =~= additions(earlier));
    }
}

/// Taking back the last command leaves a well-formed encounter well formed
/// and a sorted roster sorted. A command that can be taken back leaves the
/// log; with an empty log, or a last command that cannot be taken back,
/// nothing changes at all.
pub proof fn lemma_undone(state: StateView)
    ensures
        state.wf() ==> state.undone().wf(),
        sorted(state.entities) ==> sorted(state.undone().entities),
        match state.undo_outcome() {
            UndoOutcome::Reverted => state.undone().history == state.history.drop_last(),
            _ => state.undone() == state,
        },
{
    if state.history.len() > 0 {
        match state.history.last().action {
            ActionView::Damage { name, .. } => {
                lemma_first_set(called(state.entities, name), 0);
            },
            ActionView::Heal { name, .. } => {
                lemma_first_set(called(state.entities, name), 0);
            },
            ActionView::AddEntity { name, .. } => {
                lemma_first_set(called(state.entities, name), 0);
            },
            _ => {},
        }
    }
}

/// The column is as wide as its header and each of its cells need, and no
/// wider than one of them.
pub proof fn lemma_column_width(header: Seq<char>, rows: Seq<Seq<Seq<char>>>, column: int)
    ensures
        column_width(header, rows, column) >= byte_len(header),
        forall|j: int|
            0 <= j < rows.len() ==> column_width(header, rows, column) >= byte_len(
                #[trigger] rows[j][column],
            ),
        column_width(header, rows, column) == byte_len(header) || exists|j: int|
            0 <= j < rows.len() && column_width(header, rows, column) == byte_len(
                #[trigger] rows[j][column],
            ),
    decreases rows.len(),
{
    if rows.len() > 0 {
        let front = rows.drop_last();
        lemma_column_width(header, front, column);
        assert forall|j: int| 0 <= j < rows.len() implies column_width(header, rows, column)
            >= byte_len(#[trigger] rows[j][column]) by {
            if j < front.len() {
                assert(front[j] == rows[j]);
            }
        }
        if column_width(header, rows, column) != byte_len(rows.last()[column]) && column_width(
            header,
            front,
            column,
        ) != byte_len(header) {
            let j = choose|j: int|
                0 <= j < front.len() && column_width(header, front, column) == byte_len(
                    #[trigger] front[j][column],
                );
            assert(front[j] == rows[j]);
        }
    }
}

/// Text never has more characters than bytes, and text made of ASCII
/// characters has as many of the one as of the other.
pub proof fn lemma_characters_fit_bytes(text: Seq<char>)
    ensures
        text.len() <= byte_len(text),
        vstd::utf8::is_ascii_chars(text) ==> text.len() == byte_len(text),
    decreases text.len(),
{
    if text.len() > 0 {
        lemma_characters_fit_bytes(text.drop_first());
    }
    if vstd::utf8::is_ascii_chars(text) {
        vstd::utf8::is_ascii_chars_encode_utf8(text);
    }
}

/// The number of characters in the first `count` cells of a line whose
/// cells fit their columns: each column's width and one blank.
pub open spec fn cells_len(widths: Seq<nat>, count: int) -> nat
    decreases count,
{
    if count <= 0 {
        0
    } else {
        cells_len(widths, count - 1) + widths[count - 1] + 1
    }
}

/// Cells that are no wider than their columns fill the columns exactly.
pub proof fn lemma_cells_fill_columns(cells: Seq<Seq<char>>, widths: Seq<nat>, count: int)
    requires
        0 <= count <= cells.len(),
        count <= widths.len(),
        forall|c: int| 0 <= c < count ==> (#[trigger] cells[c]).len() <= widths[c],
    ensures
        cells_text(cells, widths, count).len() == cells_len(widths, count),
    decreases count,
{
    if count > 0 {
        lemma_cells_fill_columns(cells, widths, count - 1);
    }
}

/// The columns of a table line up: the line of headers and the line of
/// every row have the same number of characters, the widths of all columns
/// and a blank after each, and then the line feed.
pub proof fn lemma_lines_align(table: TableView)
    requires
        table.wf(),
    ensures
        line_text(table.headers, table.widths()).len() == cells_len(
            table.widths(),
            table.headers.len() as int,
        ) + 1,
        forall|j: int|
            0 <= j < table.rows.len() ==> line_text(#[trigger] table.rows[j], table.widths()).len()
                == cells_len(table.widths(), table.headers.len() as int) + 1,
{
    let widths = table.widths();
    let count = table.headers.len() as int;
    assert forall|c: int| 0 <= c < count implies (#[trigger] table.headers[c]).len()
        <= widths[c] by {
        lemma_characters_fit_bytes(table.headers[c]);
        lemma_column_width(table.headers[c], table.rows, c);
    }
    lemma_cells_fill_columns(table.headers, widths, count);
    assert forall|j: int| 0 <= j < table.rows.len() implies line_text(
        #[trigger] table.rows[j],
        widths,
    ).len() == cells_len(widths, count) + 1 by {
        let row = table.rows[j];
        assert(row.len() == count);
        assert forall|c: int| 0 <= c < count implies (#[trigger] row[c]).len() <= widths[c] by {
            lemma_characters_fit_bytes(row[c]);
            lemma_column_width(table.headers[c], table.rows, c);
        }
        lemma_cells_fill_columns(row, widths, count);
    }
}

} // verus!
