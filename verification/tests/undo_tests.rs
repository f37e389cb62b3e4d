use combat_tracker::action::Action;
use combat_tracker::entity::Entity;
use combat_tracker::state::{Event, State, UndoOutcome};

fn roster(state: &State) -> Vec<Entity> {
    state.entities().clone()
}

fn log(state: &State) -> Vec<Event> {
    state.history().clone()
}

fn damage(name: &str, hp: i32) -> Action {
    Action::Damage { name: name.to_string(), hp }
}

fn heal(name: &str, hp: i32) -> Action {
    Action::Heal { name: name.to_string(), hp }
}

fn add_monster(name: &str, initiative: i32, hp: i32) -> Action {
    Action::AddEntity { name: name.to_string(), initiative, hp: Some(hp) }
}

fn add_player(name: &str, initiative: i32) -> Action {
    Action::AddEntity { name: name.to_string(), initiative, hp: None }
}

fn party() -> State {
    let mut state = State::default();
    state.process_action(&add_monster("Orc", 8, 15));
    state.process_action(&add_player("Mira", 12));
    state.process_action(&add_monster("Rat", 8, 3));
    state.process_action(&Action::StartEncounter);
    state
}

#[test]
fn undo_on_an_empty_log_does_nothing() {
    let mut state = State::default();
    assert!(state.permits_undo());
    assert_eq!(state.undo(), UndoOutcome::Nothing);
    assert_eq!(state.round(), 0);
    assert_eq!(state.turn(), 0);
    assert!(state.entities().is_empty());
    assert!(state.history().is_empty());
}

#[test]
fn damage_then_undo_restores_health_and_log() {
    let mut state = party();
    let before_roster = roster(&state);
    let before_log = log(&state);
    state.process_action(&damage("Orc", 6));
    assert_eq!(state.get_entity("Orc").unwrap().current_hp(), Some(9));
    assert_eq!(state.history().len(), before_log.len() + 1);
    assert_eq!(state.undo(), UndoOutcome::Reverted);
    assert_eq!(state.get_entity("Orc").unwrap().current_hp(), Some(15));
    assert_eq!(roster(&state), before_roster);
    assert_eq!(log(&state), before_log);
}

#[test]
fn damage_down_to_zero_then_undo_restores_health() {
    let mut state = party();
    state.process_action(&damage("Rat", 3));
    assert!(state.get_entity("Rat").unwrap().is_dead());
    assert_eq!(state.undo(), UndoOutcome::Reverted);
    assert_eq!(state.get_entity("Rat").unwrap().current_hp(), Some(3));
}

#[test]
fn undo_of_damage_that_ran_into_zero_gives_back_the_amount() {
    let mut state = party();
    state.process_action(&damage("Rat", 1));
    state.process_action(&damage("Rat", 5));
    assert_eq!(state.get_entity("Rat").unwrap().current_hp(), Some(0));
    state.undo();
    assert_eq!(state.get_entity("Rat").unwrap().current_hp(), Some(3));
    state.undo();
    assert_eq!(state.get_entity("Rat").unwrap().current_hp(), Some(3));
}

#[test]
fn damage_of_a_player_or_of_nobody_then_undo_changes_nothing() {
    let mut state = party();
    let before_roster = roster(&state);
    let before_log = log(&state);
    state.process_action(&damage("Mira", 6));
    assert_eq!(state.undo(), UndoOutcome::Reverted);
    state.process_action(&damage("Nobody", 6));
    assert_eq!(state.undo(), UndoOutcome::Reverted);
    assert_eq!(roster(&state), before_roster);
    assert_eq!(log(&state), before_log);
}

#[test]
fn heal_then_undo_takes_the_amount_away() {
    let mut state = party();
    state.process_action(&damage("Orc", 10));
    state.process_action(&heal("Orc", 4));
    assert_eq!(state.get_entity("Orc").unwrap().current_hp(), Some(9));
    assert_eq!(state.undo(), UndoOutcome::Reverted);
    assert_eq!(state.get_entity("Orc").unwrap().current_hp(), Some(5));
    assert_eq!(state.history().len(), 5);
}

#[test]
fn undo_of_healing_that_ran_into_the_maximum_takes_the_amount_away() {
    let mut state = party();
    state.process_action(&damage("Orc", 2));
    state.process_action(&heal("Orc", 10));
    assert_eq!(state.get_entity("Orc").unwrap().current_hp(), Some(15));
    state.undo();
    assert_eq!(state.get_entity("Orc").unwrap().current_hp(), Some(5));
}

#[test]
fn add_then_undo_removes_the_newcomer() {
    let mut state = party();
    let before_roster = roster(&state);
    let before_log = log(&state);
    state.process_action(&add_monster("Bat", 10, 4));
    assert_eq!(state.entities().len(), 4);
    assert_eq!(state.entities()[1].get_name(), "Bat");
    assert_eq!(state.undo(), UndoOutcome::Reverted);
    assert_eq!(roster(&state), before_roster);
    assert_eq!(log(&state), before_log);
    assert_eq!(state.round(), 1);
    assert_eq!(state.turn(), 0);
}

#[test]
fn add_then_undo_at_either_end_of_the_roster() {
    let mut state = party();
    let before_roster = roster(&state);
    state.process_action(&add_player("Fast", 99));
    assert_eq!(state.entities()[0].get_name(), "Fast");
    state.undo();
    assert_eq!(roster(&state), before_roster);
    state.process_action(&add_player("Slow", 0));
    assert_eq!(state.entities()[3].get_name(), "Slow");
    state.undo();
    assert_eq!(roster(&state), before_roster);
}

#[test]
fn undo_of_an_addition_removes_the_first_of_that_name() {
    let mut state = State::default();
    state.process_action(&add_monster("twin", 9, 10));
    state.process_action(&add_monster("twin", 5, 20));
    assert_eq!(state.undo(), UndoOutcome::Reverted);
    assert_eq!(state.entities().len(), 1);
    assert_eq!(state.entities()[0], Entity::monster("twin", 5, 20));
    assert_eq!(state.history().len(), 1);
}

#[test]
fn undo_of_an_addition_whose_participant_is_gone_only_shortens_the_log() {
    let history = vec![Event::new(0, add_player("Gone", 3))];
    let mut state = State::from_parts(0, 0, vec![Entity::player("Here", 4)], history);
    assert_eq!(state.undo(), UndoOutcome::Reverted);
    assert_eq!(state.entities().len(), 1);
    assert_eq!(state.entities()[0].get_name(), "Here");
    assert!(state.history().is_empty());
}

#[test]
fn advance_then_undo_restores_turn_and_round() {
    let mut state = party();
    state.process_action(&Action::ChangeTurn);
    assert_eq!((state.round(), state.turn()), (1, 1));
    assert_eq!(state.undo(), UndoOutcome::Reverted);
    assert_eq!((state.round(), state.turn()), (1, 0));
    assert_eq!(state.history().len(), 4);
}

#[test]
fn advance_across_the_end_then_undo_restores_turn_and_round() {
    let mut state = party();
    state.process_action(&Action::ChangeTurn);
    state.process_action(&Action::ChangeTurn);
    assert_eq!((state.round(), state.turn()), (1, 2));
    state.process_action(&Action::ChangeTurn);
    assert_eq!((state.round(), state.turn()), (2, 0));
    assert!(state.permits_undo());
    state.undo();
    assert_eq!((state.round(), state.turn()), (1, 2));
    state.undo();
    assert_eq!((state.round(), state.turn()), (1, 1));
    state.undo();
    assert_eq!((state.round(), state.turn()), (1, 0));
}

#[test]
fn advance_of_a_lone_dead_participant_then_undo_restores_turn_and_round() {
    let mut state = State::default();
    state.process_action(&add_monster("Rat", 8, 0));
    state.process_action(&Action::StartEncounter);
    state.process_action(&Action::ChangeTurn);
    assert_eq!((state.round(), state.turn()), (2, 0));
    state.undo();
    assert_eq!((state.round(), state.turn()), (1, 0));
}

#[test]
fn undo_of_an_advance_steps_back_one_place_even_past_the_dead() {
    let mut state = State::default();
    state.process_action(&add_player("a", 30));
    state.process_action(&add_monster("b", 20, 5));
    state.process_action(&add_player("c", 10));
    state.process_action(&Action::StartEncounter);
    state.process_action(&damage("b", 5));
    state.process_action(&Action::ChangeTurn);
    assert_eq!((state.round(), state.turn()), (1, 2));
    state.undo();
    assert_eq!((state.round(), state.turn()), (1, 1));
    assert!(state.current_turn_entity().is_dead());
}

#[test]
fn undo_of_a_start_is_unsupported_and_keeps_everything() {
    let mut state = party();
    let before_roster = roster(&state);
    let before_log = log(&state);
    assert_eq!(state.undo(), UndoOutcome::Unsupported);
    assert_eq!(state.undo(), UndoOutcome::Unsupported);
    assert_eq!(roster(&state), before_roster);
    assert_eq!(log(&state), before_log);
    assert_eq!((state.round(), state.turn()), (1, 0));
}

#[test]
fn undo_of_a_nudge_is_unsupported_and_keeps_everything() {
    let mut state = party();
    state.process_action(&Action::NudgeEntity { name: "Rat".to_string() });
    assert_eq!(state.entities()[1].get_name(), "Rat");
    let before_roster = roster(&state);
    let before_log = log(&state);
    assert_eq!(state.undo(), UndoOutcome::Unsupported);
    assert_eq!(roster(&state), before_roster);
    assert_eq!(log(&state), before_log);
}

#[test]
fn an_unsupported_entry_blocks_until_something_else_is_logged() {
    let mut state = party();
    assert_eq!(state.undo(), UndoOutcome::Unsupported);
    state.process_action(&damage("Orc", 1));
    assert_eq!(state.undo(), UndoOutcome::Reverted);
    assert_eq!(state.undo(), UndoOutcome::Unsupported);
    assert_eq!(state.history().len(), 4);
}

#[test]
fn permits_undo_guards_the_step_back_from_the_front() {
    let empty = State::from_parts(1, 0, Vec::new(), vec![Event::new(1, Action::ChangeTurn)]);
    assert!(!empty.permits_undo());
    let lowest = State::from_parts(
        i32::MIN,
        0,
        vec![Entity::player("a", 1)],
        vec![Event::new(1, Action::ChangeTurn)],
    );
    assert!(!lowest.permits_undo());
    let mid = State::from_parts(
        i32::MIN,
        1,
        vec![Entity::player("a", 1)],
        vec![Event::new(1, Action::ChangeTurn)],
    );
    assert!(mid.permits_undo());
    let other = State::from_parts(i32::MIN, 0, Vec::new(), vec![Event::new(1, damage("a", 1))]);
    assert!(other.permits_undo());
    let mut fine = State::from_parts(
        -7,
        0,
        vec![Entity::player("a", 1), Entity::player("b", 1)],
        vec![Event::new(1, Action::ChangeTurn)],
    );
    assert!(fine.permits_undo());
    assert_eq!(fine.undo(), UndoOutcome::Reverted);
    assert_eq!((fine.round(), fine.turn()), (-8, 1));
}

#[test]
fn events_and_actions_compare_by_value() {
    let a = Event::new(2, damage("Orc", 3));
    assert_eq!(a.clone(), a);
    assert_eq!(a.round(), 2);
    assert_eq!(a.action(), &damage("Orc", 3));
    assert_ne!(a, Event::new(3, damage("Orc", 3)));
    assert_ne!(a, Event::new(2, damage("Orc", 4)));
    assert_ne!(a, Event::new(2, heal("Orc", 3)));
    assert_ne!(damage("Orc", 3), damage("Orb", 3));
    assert_ne!(add_player("a", 1), add_monster("a", 1, 0));
    assert_ne!(add_player("a", 1), add_player("a", 2));
    assert_eq!(add_monster("a", 1, 5).clone(), add_monster("a", 1, 5));
    assert_ne!(Action::ChangeTurn, Action::StartEncounter);
    assert_eq!(Action::ChangeTurn.clone(), Action::ChangeTurn);
    assert_eq!(
        Action::NudgeEntity { name: "a".to_string() },
        Action::NudgeEntity { name: "a".to_string() }
    );
    assert_ne!(
        Action::NudgeEntity { name: "a".to_string() },
        Action::NudgeEntity { name: "b".to_string() }
    );
}
