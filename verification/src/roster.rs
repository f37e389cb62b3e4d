//! The order of a roster, as mathematics: where a newcomer goes, who is found
//! under a name, which neighbours a nudge swaps and who is next to act.

use vstd::prelude::*;
use crate::entity::EntityView;

verus! {

/// The least index from `from` on at which `flags` holds `true`, if there is
/// one.
pub open spec fn first_set(flags: Seq<bool>, from: int) -> Option<int>
    decreases flags.len() - from,
{
    if from < 0 || from >= flags.len() {
        None
    } else if flags[from] {
        Some(from)
    } else {
        first_set(flags, from + 1)
    }
}

/// `first_set` finds a set flag, skips only unset ones, and finds nothing
/// only where nothing is set.
pub proof fn lemma_first_set(flags: Seq<bool>, from: int)
    requires
        0 <= from,
    ensures
        match first_set(flags, from) {
            Some(k) => from <= k < flags.len() && flags[k] && forall|j: int|
                from <= j < k ==> !flags[j],
            None => forall|j: int| from <= j < flags.len() ==> !flags[j],
        },
    decreases flags.len() - from,
{
    if from < flags.len() && !flags[from] {
        lemma_first_set(flags, from + 1);
    }
}

/// Whatever index has a set flag with none set between `from` and it is the
/// one that `first_set` finds.
pub proof fn lemma_first_set_is(flags: Seq<bool>, from: int, k: int)
    requires
        0 <= from <= k < flags.len(),
        flags[k],
        forall|j: int| from <= j < k ==> !flags[j],
    ensures
        first_set(flags, from) == Some(k),
    decreases k - from,
{
    if from < k {
        lemma_first_set_is(flags, from + 1, k);
    }
}

/// Where nothing is set from `from` on, `first_set` finds nothing.
pub proof fn lemma_first_set_none(flags: Seq<bool>, from: int)
    requires
        forall|j: int| from <= j < flags.len() ==> !flags[j],
    ensures
        first_set(flags, from) is None,
    decreases flags.len() - from,
{
    if 0 <= from < flags.len() {
        lemma_first_set_none(flags, from + 1);
    }
}

/// For each place of the roster, whether its initiative is strictly below
/// `initiative`.
pub open spec fn slower(roster: Seq<EntityView>, initiative: int) -> Seq<bool> {
    Seq::new(roster.len(), |i: int| roster[i].initiative < initiative)
}

/// For each place of the roster, whether the participant there is called
/// `name`.
pub open spec fn called(roster: Seq<EntityView>, name: Seq<char>) -> Seq<bool> {
    Seq::new(roster.len(), |i: int| roster[i].name == name)
}

/// For each place of the roster but the last, whether the participant after
/// it is called `name` and has the very initiative of the one at it.
pub open spec fn tied_before(roster: Seq<EntityView>, name: Seq<char>) -> Seq<bool> {
    Seq::new(
        if roster.len() == 0 {
            0nat
        } else {
            (roster.len() - 1) as nat
        },
        |i: int| roster[i + 1].name == name && roster[i].initiative == roster[i + 1].initiative,
    )
}

/// For each place of the roster, whether the participant there is alive.
pub open spec fn living(roster: Seq<EntityView>) -> Seq<bool> {
    Seq::new(roster.len(), |i: int| !roster[i].is_dead())
}

/// Highest initiative first; equal initiatives may stand in any order.
pub open spec fn sorted(roster: Seq<EntityView>) -> bool {
    forall|i: int, j: int| 0 <= i < j < roster.len() ==> roster[i].initiative >= roster[j].initiative
}

/// The place of the first participant called `name`.
pub open spec fn index_of(roster: Seq<EntityView>, name: Seq<char>) -> Option<int> {
    first_set(called(roster, name), 0)
}

/// The place a newcomer with `initiative` takes: that of the first
/// participant with a strictly lower initiative, or the end of the roster.
pub open spec fn insertion_index(roster: Seq<EntityView>, initiative: int) -> int {
    match first_set(slower(roster, initiative), 0) {
        Some(k) => k,
        None => roster.len() as int,
    }
}

/// The roster with `entity` added behind everyone at least as fast.
pub open spec fn with_added(roster: Seq<EntityView>, entity: EntityView) -> Seq<EntityView> {
    roster.insert(insertion_index(roster, entity.initiative), entity)
}

/// The roster without the first participant called `name`.
pub open spec fn without(roster: Seq<EntityView>, name: Seq<char>) -> Seq<EntityView> {
    match index_of(roster, name) {
        Some(k) => roster.remove(k),
        None => roster,
    }
}

/// The roster after the first participant called `name` lost `amount` hit
/// points.
pub open spec fn with_damage(roster: Seq<EntityView>, name: Seq<char>, amount: int) -> Seq<
    EntityView,
> {
    match index_of(roster, name) {
        Some(k) => roster.update(k, roster[k].damaged(amount)),
        None => roster,
    }
}

/// The roster after the first participant called `name` gained `amount` hit
/// points.
pub open spec fn with_healing(roster: Seq<EntityView>, name: Seq<char>, amount: int) -> Seq<
    EntityView,
> {
    match index_of(roster, name) {
        Some(k) => roster.update(k, roster[k].healed(amount)),
        None => roster,
    }
}

/// The roster with the places `k` and `k + 1` exchanged.
pub open spec fn swapped(roster: Seq<EntityView>, k: int) -> Seq<EntityView> {
    roster.update(k, roster[k + 1]).update(k + 1, roster[k])
}

/// The roster after a nudge: at the first place where a participant called
/// `name` stands right behind one of equal initiative, the two are
/// exchanged; without such a place nothing moves.
pub open spec fn nudged(roster: Seq<EntityView>, name: Seq<char>) -> Seq<EntityView> {
    match first_set(tied_before(roster, name), 0) {
        Some(k) => swapped(roster, k),
        None => roster,
    }
}

/// Whether passing the turn on from `turn` runs past the end of the roster:
/// nobody behind `turn` is alive.
pub open spec fn wraps(roster: Seq<EntityView>, turn: int) -> bool {
    first_set(living(roster), turn + 1) is None
}

/// The place of the next living participant after `turn`, going round the
/// roster once: first those behind `turn`, then from the front.
pub open spec fn next_living(roster: Seq<EntityView>, turn: int) -> Option<int> {
    match first_set(living(roster), turn + 1) {
        Some(k) => Some(k),
        None => first_set(living(roster), 0),
    }
}

} // verus!
