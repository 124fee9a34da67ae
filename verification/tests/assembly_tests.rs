use matchcoord::assembly::{AddError, CharacterAssembly};
use matchcoord::game::{Cell, Character, Class, GameDefinition, GameMap};
use matchcoord::id_map::{Id, IdMapBuilder};

fn sample_game() -> GameDefinition {
    let mut classes: IdMapBuilder<Class> = IdMapBuilder::new();
    classes.add(Class {
        name: "Knight".to_string(),
        description: "Sword and shield".to_string(),
        health: 30,
        mana: 5,
    });
    classes.add(Class {
        name: "Mage".to_string(),
        description: "Staff and robes".to_string(),
        health: 20,
        mana: 30,
    });
    let mut maps: IdMapBuilder<GameMap> = IdMapBuilder::new();
    maps.add(GameMap {
        name: "Arena".to_string(),
        width: 8,
        height: 8,
        teams: vec![
            ("Red".to_string(), vec![Id::new(0), Id::new(1)]),
            ("Blue".to_string(), vec![Id::new(8), Id::new(9)]),
        ],
    });
    GameDefinition { classes: classes.build(), maps: maps.build() }
}

fn character(class: usize, team: usize, cell: usize) -> Character {
    Character {
        name: "Hero".to_string(),
        class: Id::new(class),
        team: Id::new(team),
        position: Id::new(cell),
        current_health: 30,
        current_mana: 5,
    }
}

#[test]
fn only_the_last_successful_add_completes_the_assembly() {
    // Capacity 4: can_build must stay false until exactly the 4th success.
    let g = sample_game();
    let mut a = CharacterAssembly::new(4, Id::new(0));
    assert!(!a.can_build());
    a.add(&g, character(0, 0, 0), "tokA".to_string()).unwrap();
    assert!(!a.can_build());
    a.add(&g, character(1, 0, 1), "tokB".to_string()).unwrap();
    assert!(!a.can_build());
    a.add(&g, character(0, 1, 8), "tokC".to_string()).unwrap();
    assert!(!a.can_build());
    a.add(&g, character(1, 1, 9), "tokD".to_string()).unwrap();
    assert!(a.can_build());
}

#[test]
fn failed_adds_do_not_advance_completion() {
    let g = sample_game();
    let mut a = CharacterAssembly::new(2, Id::new(0));
    a.add(&g, character(0, 0, 0), "tokA".to_string()).unwrap();
    // Same cell: refused, so the assembly must still not be complete.
    assert_eq!(
        a.add(&g, character(1, 0, 0), "tokB".to_string()),
        Err(AddError::CellOccupied)
    );
    assert!(!a.can_build());
    a.add(&g, character(1, 0, 1), "tokB".to_string()).unwrap();
    assert!(a.can_build());
}

#[test]
fn add_mints_sequential_character_ids() {
    let g = sample_game();
    let mut a = CharacterAssembly::new(3, Id::new(0));
    let first = a.add(&g, character(0, 0, 0), "tokA".to_string()).unwrap();
    let second = a.add(&g, character(1, 0, 1), "tokB".to_string()).unwrap();
    assert_eq!(first.raw(), 0);
    assert_eq!(second.raw(), 1);
}

#[test]
fn add_refuses_when_full() {
    let g = sample_game();
    let mut a = CharacterAssembly::new(1, Id::new(0));
    a.add(&g, character(0, 0, 0), "tokA".to_string()).unwrap();
    assert_eq!(
        a.add(&g, character(1, 1, 8), "tokB".to_string()),
        Err(AddError::Full)
    );
}

#[test]
fn add_refuses_a_token_already_handed_out() {
    let g = sample_game();
    let mut a = CharacterAssembly::new(3, Id::new(0));
    a.add(&g, character(0, 0, 0), "tok".to_string()).unwrap();
    assert_eq!(
        a.add(&g, character(1, 1, 8), "tok".to_string()),
        Err(AddError::TokenInUse)
    );
}

#[test]
fn add_refuses_an_unknown_class() {
    let g = sample_game();
    let mut a = CharacterAssembly::new(3, Id::new(0));
    assert_eq!(
        a.add(&g, character(7, 0, 0), "tok".to_string()),
        Err(AddError::UnknownClass)
    );
}

#[test]
fn add_refuses_an_unknown_team() {
    let g = sample_game();
    let mut a = CharacterAssembly::new(3, Id::new(0));
    assert_eq!(
        a.add(&g, character(0, 5, 0), "tok".to_string()),
        Err(AddError::UnknownTeam)
    );
}

#[test]
fn add_refuses_a_cell_the_team_does_not_start_on() {
    let g = sample_game();
    let mut a = CharacterAssembly::new(3, Id::new(0));
    // Cell 8 belongs to the Blue team's starting cells, not Red's.
    assert_eq!(
        a.add(&g, character(0, 0, 8), "tok".to_string()),
        Err(AddError::UnknownCell)
    );
}

#[test]
fn add_refuses_an_occupied_cell() {
    let g = sample_game();
    let mut a = CharacterAssembly::new(3, Id::new(0));
    a.add(&g, character(0, 0, 1), "tokA".to_string()).unwrap();
    assert_eq!(
        a.add(&g, character(1, 0, 1), "tokB".to_string()),
        Err(AddError::CellOccupied)
    );
}

#[test]
fn build_yields_the_roster_and_the_token_mapping() {
    let g = sample_game();
    let mut a = CharacterAssembly::new(2, Id::new(0));
    let ida = a.add(&g, character(0, 0, 0), "tokA".to_string()).unwrap();
    let idb = a.add(&g, character(1, 1, 8), "tokB".to_string()).unwrap();
    assert!(a.can_build());
    let (roster, logins) = a.build();
    assert_eq!(roster.len(), 2);
    assert_eq!(roster.get(ida).unwrap().class, Id::<Class>::new(0));
    assert_eq!(roster.get(idb).unwrap().class, Id::<Class>::new(1));
    assert_eq!(logins.len(), 2);
    assert_eq!(logins[0], ("tokA".to_string(), ida));
    assert_eq!(logins[1], ("tokB".to_string(), idb));
}

#[test]
fn enrolment_takes_class_stats_from_the_definition() {
    let g = sample_game();
    let mut a = CharacterAssembly::new(2, Id::new(0));
    let mage = Character {
        name: "Wiz".to_string(),
        class: Id::new(1),
        team: Id::new(0),
        position: Id::<Cell>::new(0),
        current_health: 20,
        current_mana: 30,
    };
    let id = a.add(&g, mage, "tok".to_string()).unwrap();
    a.add(&g, character(0, 0, 1), "tok2".to_string()).unwrap();
    let (roster, _) = a.build();
    assert_eq!(roster.get(id).unwrap().current_mana, 30);
}
