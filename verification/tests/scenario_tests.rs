use combat_tracker::action::Action;
use combat_tracker::entity::Entity;
use combat_tracker::state::State;

fn names(state: &State) -> Vec<String> {
    state.entities().iter().map(|e| e.get_name().to_string()).collect()
}

#[test]
fn two_tied_monsters_through_an_encounter() {
    let mut state = State::default();
    state.add_entity(Entity::monster("A", 10, 20));
    state.add_entity(Entity::monster("B", 10, 20));
    assert_eq!(names(&state), vec!["A", "B"]);

    state.nudge("B");
    assert_eq!(names(&state), vec!["B", "A"]);

    let active = state.start().map(|e| e.get_name().to_string());
    assert_eq!(active.as_deref(), Some("B"));
    assert_eq!(state.round(), 1);
    assert_eq!(state.turn(), 0);

    let hit = state.damage_entity("B", 25).map(|e| e.clone()).unwrap();
    assert_eq!(hit.current_hp(), Some(0));
    assert!(hit.is_dead());
    assert!(state.get_entity("B").unwrap().is_dead());

    let next = state.next_turn().map(|e| e.get_name().to_string());
    assert_eq!(next.as_deref(), Some("A"));
    assert_eq!(state.turn(), 1);
    assert_eq!(state.round(), 1);

    let again = state.next_turn().map(|e| e.get_name().to_string());
    assert_eq!(again.as_deref(), Some("A"));
    assert_eq!(state.turn(), 1);
    assert_eq!(state.round(), 2);
}

#[test]
fn two_tied_monsters_both_dead() {
    let mut state = State::default();
    state.add_entity(Entity::monster("A", 10, 20));
    state.add_entity(Entity::monster("B", 10, 20));
    state.nudge("B");
    state.start();
    state.damage_entity("B", 25);
    state.damage_entity("A", 20);
    assert!(state.next_turn().is_none());
    assert_eq!(state.turn(), 0);
    assert_eq!(state.round(), 2);
}

#[test]
fn the_same_encounter_through_commands() {
    let mut state = State::default();
    let commands = vec![
        Action::AddEntity { name: "A".to_string(), initiative: 10, hp: Some(20) },
        Action::AddEntity { name: "B".to_string(), initiative: 10, hp: Some(20) },
        Action::NudgeEntity { name: "B".to_string() },
        Action::StartEncounter,
        Action::Damage { name: "B".to_string(), hp: 25 },
        Action::ChangeTurn,
        Action::ChangeTurn,
    ];
    for command in &commands {
        assert!(state.permits(command));
        state.process_action(command);
    }
    assert_eq!(names(&state), vec!["B", "A"]);
    assert_eq!(state.entities()[0].display_hp(), "0/20");
    assert_eq!(state.entities()[1].display_hp(), "20/20");
    assert_eq!(state.turn(), 1);
    assert_eq!(state.round(), 2);
    assert_eq!(state.history().len(), 7);
    let rounds: Vec<i32> = state.history().iter().map(|e| e.round()).collect();
    assert_eq!(rounds, vec![0, 0, 0, 0, 1, 1, 1]);
}

#[test]
fn reports_after_commands() {
    let mut state = State::default();
    let add = Action::AddEntity { name: "Orc".to_string(), initiative: 10, hp: Some(20) };
    state.process_action(&add);
    assert_eq!(state.report(&add), None);
    let join = Action::AddEntity { name: "Mira".to_string(), initiative: 15, hp: None };
    state.process_action(&join);
    let nudge = Action::NudgeEntity { name: "Orc".to_string() };
    state.process_action(&nudge);
    assert_eq!(state.report(&nudge), None);

    state.process_action(&Action::StartEncounter);
    assert_eq!(state.report(&Action::StartEncounter).as_deref(), Some("Mira's turn"));

    let scratch = Action::Damage { name: "Orc".to_string(), hp: 5 };
    state.process_action(&scratch);
    assert_eq!(state.report(&scratch).as_deref(), Some("Orc: 15/20"));

    let mend = Action::Heal { name: "Orc".to_string(), hp: 2 };
    state.process_action(&mend);
    assert_eq!(state.report(&mend).as_deref(), Some("Orc 17/20"));

    let poke = Action::Damage { name: "Mira".to_string(), hp: 5 };
    state.process_action(&poke);
    assert_eq!(state.report(&poke).as_deref(), Some("Mira: "));
    let soothe = Action::Heal { name: "Mira".to_string(), hp: 5 };
    state.process_action(&soothe);
    assert_eq!(state.report(&soothe).as_deref(), Some("Mira "));

    let miss = Action::Damage { name: "Elf".to_string(), hp: 5 };
    state.process_action(&miss);
    assert_eq!(state.report(&miss), None);
    let miss = Action::Heal { name: "Elf".to_string(), hp: 5 };
    state.process_action(&miss);
    assert_eq!(state.report(&miss), None);

    state.process_action(&Action::ChangeTurn);
    assert_eq!(state.report(&Action::ChangeTurn).as_deref(), Some("Orc's turn"));

    let kill = Action::Damage { name: "Orc".to_string(), hp: 17 };
    state.process_action(&kill);
    assert_eq!(state.report(&kill).as_deref(), Some("Orc Killed"));
}

#[test]
fn show_lays_the_roster_out() {
    let mut state = State::default();
    state.add_entity(Entity::monster("A", 10, 20));
    state.add_entity(Entity::monster("B", 10, 20));
    state.add_entity(Entity::player("Mirabelle", 3));
    state.nudge("B");
    state.start();
    state.damage_entity("B", 25);
    let expected = format!(
        "{}{}{}{}",
        format!("{:<1} {:<9} {:<10} {:<5} \n", "", "NAME", "INITIATIVE", "HP"),
        format!("{:<1} {:<9} {:<10} {:<5} \n", "*", "B", "10", "0/20"),
        format!("{:<1} {:<9} {:<10} {:<5} \n", "", "A", "10", "20/20"),
        format!("{:<1} {:<9} {:<10} {:<5} \n", "", "Mirabelle", "3", ""),
    );
    assert_eq!(state.show(), expected);
    assert_eq!(
        state.show(),
        "  NAME      INITIATIVE HP    \n\
         * B         10         0/20  \n\
         \x20 A         10         20/20 \n\
         \x20 Mirabelle 3                \n"
    );
}

#[test]
fn show_moves_the_star_with_the_turn() {
    let mut state = State::default();
    state.add_entity(Entity::player("a", 2));
    state.add_entity(Entity::player("b", 1));
    state.start();
    state.next_turn();
    assert_eq!(state.show(), "  NAME INITIATIVE HP \n  a    2             \n* b    1             \n");
}

#[test]
fn show_of_an_empty_roster_is_the_header_line() {
    let state = State::default();
    assert_eq!(state.show(), " NAME INITIATIVE HP \n");
}
