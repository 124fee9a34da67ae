use matchcoord::game::{Class, GameDefinition, GameMap};
use matchcoord::id_map::{Id, IdMapBuilder};
use matchcoord::registry::{
    ActionError, CreateError, EngineVerdict, JoinError, SessionRegistry,
};
use matchcoord::wire::{WireGetGame, WireNewCharRequest};

fn sample_game() -> GameDefinition {
    let mut classes: IdMapBuilder<Class> = IdMapBuilder::new();
    classes.add(Class {
        name: "Knight".to_string(),
        description: "Sword and shield".to_string(),
        health: 30,
        mana: 5,
    });
    classes.add(Class {
        name: "Mage".to_string(),
        description: "Staff and robes".to_string(),
        health: 20,
        mana: 30,
    });
    let mut maps: IdMapBuilder<GameMap> = IdMapBuilder::new();
    maps.add(GameMap {
        name: "Arena".to_string(),
        width: 8,
        height: 8,
        teams: vec![
            ("Red".to_string(), vec![Id::new(0), Id::new(1)]),
            ("Blue".to_string(), vec![Id::new(8), Id::new(9)]),
        ],
    });
    GameDefinition { classes: classes.build(), maps: maps.build() }
}

fn request(name: &str, class: usize, team: usize, cell: usize) -> WireNewCharRequest {
    WireNewCharRequest {
        name: name.to_string(),
        class: Id::new(class),
        team: Id::new(team),
        position: Id::new(cell),
    }
}

#[test]
fn created_session_ids_are_ten_characters_and_distinct() {
    let g = sample_game();
    let mut reg = SessionRegistry::new();
    let a = reg.create_session(&g, Id::new(0), 2).unwrap();
    let b = reg.create_session(&g, Id::new(0), 2).unwrap();
    assert_eq!(a.chars().count(), 10);
    assert_eq!(b.chars().count(), 10);
    assert_ne!(a, b);
}

#[test]
fn a_colliding_session_id_is_refused_not_overwritten() {
    let g = sample_game();
    let mut reg = SessionRegistry::new();
    reg.create_session_with_id(&g, "AAAAAAAAAA".to_string(), Id::new(0), 2)
        .unwrap();
    // Forced collision: the same id again must be refused.
    assert_eq!(
        reg.create_session_with_id(&g, "AAAAAAAAAA".to_string(), Id::new(0), 3),
        Err(CreateError::IdInUse)
    );
    // The original entry survived with its own seat count.
    match reg.describe(&"AAAAAAAAAA".to_string()) {
        WireGetGame::Assembling { team_size, .. } => assert_eq!(team_size, 2),
        other => panic!("expected an assembling session, got {:?}", other),
    }
}

#[test]
fn a_colliding_login_token_is_refused_not_reused() {
    let g = sample_game();
    let mut reg = SessionRegistry::new();
    reg.create_session_with_id(&g, "AAAAAAAAAA".to_string(), Id::new(0), 2)
        .unwrap();
    let sid = "AAAAAAAAAA".to_string();
    reg.join_with_token(&g, &sid, request("One", 0, 0, 0), "tok0123456".to_string())
        .unwrap();
    assert!(reg.token_taken(&"tok0123456".to_string()));
    // Forced collision: the same token for another character is refused.
    assert_eq!(
        reg.join_with_token(&g, &sid, request("Two", 0, 0, 1), "tok0123456".to_string()),
        Err(JoinError::TokenInUse)
    );
}

#[test]
fn create_session_refuses_an_unknown_map() {
    let g = sample_game();
    let mut reg = SessionRegistry::new();
    assert_eq!(
        reg.create_session(&g, Id::new(9), 2),
        Err(CreateError::UnknownMap)
    );
}

#[test]
fn create_session_refuses_a_zero_team_size() {
    let g = sample_game();
    let mut reg = SessionRegistry::new();
    assert_eq!(
        reg.create_session(&g, Id::new(0), 0),
        Err(CreateError::InvalidTeamSize)
    );
}

#[test]
fn create_session_refuses_an_overflowing_seat_count() {
    let g = sample_game();
    let mut reg = SessionRegistry::new();
    assert_eq!(
        reg.create_session(&g, Id::new(0), usize::MAX),
        Err(CreateError::TooManySeats)
    );
}

#[test]
fn join_on_an_absent_id_yields_no_such_session() {
    let g = sample_game();
    let mut reg = SessionRegistry::new();
    reg.create_session(&g, Id::new(0), 1).unwrap();
    assert_eq!(
        reg.join(&g, &"ZZZZZZZZZZ".to_string(), request("One", 0, 0, 0)),
        Err(JoinError::NoSuchSession)
    );
}

#[test]
fn describe_on_an_absent_id_is_not_found() {
    let g = sample_game();
    let mut reg = SessionRegistry::new();
    reg.create_session(&g, Id::new(0), 1).unwrap();
    assert_eq!(reg.describe(&"ZZZZZZZZZZ".to_string()), WireGetGame::NotFound);
}

#[test]
fn join_refuses_an_unknown_class() {
    let g = sample_game();
    let mut reg = SessionRegistry::new();
    let sid = reg.create_session(&g, Id::new(0), 2).unwrap();
    assert_eq!(
        reg.join(&g, &sid, request("One", 9, 0, 0)),
        Err(JoinError::InvalidClass)
    );
}

#[test]
fn join_refuses_an_unknown_team() {
    let g = sample_game();
    let mut reg = SessionRegistry::new();
    let sid = reg.create_session(&g, Id::new(0), 2).unwrap();
    assert_eq!(
        reg.join(&g, &sid, request("One", 0, 7, 0)),
        Err(JoinError::InvalidTeam)
    );
}

#[test]
fn join_refuses_a_cell_not_offered_to_the_team() {
    let g = sample_game();
    let mut reg = SessionRegistry::new();
    let sid = reg.create_session(&g, Id::new(0), 2).unwrap();
    assert_eq!(
        reg.join(&g, &sid, request("One", 0, 0, 8)),
        Err(JoinError::InvalidCell)
    );
}

#[test]
fn join_refuses_an_occupied_cell() {
    let g = sample_game();
    let mut reg = SessionRegistry::new();
    let sid = reg.create_session(&g, Id::new(0), 2).unwrap();
    reg.join(&g, &sid, request("One", 0, 0, 0)).unwrap();
    assert_eq!(
        reg.join(&g, &sid, request("Two", 1, 0, 0)),
        Err(JoinError::CellOccupied)
    );
}

#[test]
fn minted_login_tokens_are_ten_characters() {
    let g = sample_game();
    let mut reg = SessionRegistry::new();
    let sid = reg.create_session(&g, Id::new(0), 2).unwrap();
    let created = reg.join(&g, &sid, request("One", 0, 0, 0)).unwrap();
    assert_eq!(created.0.chars().count(), 10);
    assert!(reg.token_taken(&created.0));
}

#[test]
fn the_filling_join_switches_the_session_to_running() {
    // Two teams of two seats each: the fourth join must flip the phase.
    let g = sample_game();
    let mut reg = SessionRegistry::new();
    let sid = reg.create_session(&g, Id::new(0), 2).unwrap();
    reg.join(&g, &sid, request("One", 0, 0, 0)).unwrap();
    reg.join(&g, &sid, request("Two", 1, 0, 1)).unwrap();
    reg.join(&g, &sid, request("Three", 0, 1, 8)).unwrap();
    match reg.describe(&sid) {
        WireGetGame::Assembling { .. } => {},
        other => panic!("expected still assembling, got {:?}", other),
    }
    let fourth = reg.join(&g, &sid, request("Four", 1, 1, 9)).unwrap();
    assert_eq!(fourth.1.raw(), 3);
    match reg.describe(&sid) {
        WireGetGame::Running(run) => assert_eq!(run.0.map, Id::new(0)),
        other => panic!("expected running, got {:?}", other),
    }
    // A fifth join attempt is refused: the session already runs.
    assert_eq!(
        reg.join(&g, &sid, request("Five", 0, 0, 0)),
        Err(JoinError::AlreadyRunning)
    );
}

#[test]
fn a_token_of_one_session_is_unknown_to_another() {
    let g = sample_game();
    let mut reg = SessionRegistry::new();
    // Session A keeps assembling; session B fills and runs.
    let sid_a = reg.create_session(&g, Id::new(0), 2).unwrap();
    let sid_b = reg.create_session(&g, Id::new(0), 1).unwrap();
    let token_a = reg.join(&g, &sid_a, request("One", 0, 0, 0)).unwrap().0;
    reg.join(&g, &sid_b, request("Bee", 0, 0, 0)).unwrap();
    reg.join(&g, &sid_b, request("Boo", 1, 1, 8)).unwrap();
    // Replaying A's token against the running session B is refused as an
    // unknown login, not as some other party's character.
    assert_eq!(
        reg.authorize_action(&sid_b, &token_a),
        Err(ActionError::UnknownLogin)
    );
    assert_eq!(
        reg.submit_action(&sid_b, &token_a, EngineVerdict::Rejected),
        Err(ActionError::UnknownLogin)
    );
}

#[test]
fn actions_on_an_assembling_session_are_premature() {
    let g = sample_game();
    let mut reg = SessionRegistry::new();
    let sid = reg.create_session(&g, Id::new(0), 2).unwrap();
    let token = reg.join(&g, &sid, request("One", 0, 0, 0)).unwrap().0;
    assert_eq!(
        reg.submit_action(&sid, &token, EngineVerdict::Rejected),
        Err(ActionError::StillAssembling)
    );
    assert_eq!(
        reg.submit_action(&"ZZZZZZZZZZ".to_string(), &token, EngineVerdict::Rejected),
        Err(ActionError::NoSuchSession)
    );
}

#[test]
fn turn_authority_moves_with_the_engine_verdict() {
    // One team of two seats; the first enrolled character opens the match.
    let g = sample_game();
    let mut reg = SessionRegistry::new();
    let sid = reg.create_session(&g, Id::new(0), 1).unwrap();
    let tok0 = reg.join(&g, &sid, request("One", 0, 0, 0)).unwrap();
    let tok1 = reg.join(&g, &sid, request("Two", 1, 1, 8)).unwrap();
    assert_eq!(tok0.1.raw(), 0);
    assert_eq!(tok1.1.raw(), 1);
    // Character 0 holds the first turn; character 1 is told to wait.
    assert_eq!(reg.authorize_action(&sid, &tok0.0), Ok(tok0.1));
    assert_eq!(
        reg.authorize_action(&sid, &tok1.0),
        Err(ActionError::NotYourTurn)
    );
    // The engine accepts character 0's action and passes the turn on.
    reg.submit_action(&sid, &tok0.0, EngineVerdict::Accepted { next_turn: Id::new(1) })
        .unwrap();
    // An immediate repeat claim by character 0 is refused.
    assert_eq!(
        reg.authorize_action(&sid, &tok0.0),
        Err(ActionError::NotYourTurn)
    );
    assert_eq!(
        reg.submit_action(&sid, &tok0.0, EngineVerdict::Rejected),
        Err(ActionError::NotYourTurn)
    );
    // Unless the engine legitimately returns the turn to character 0.
    reg.submit_action(&sid, &tok1.0, EngineVerdict::Accepted { next_turn: Id::new(0) })
        .unwrap();
    assert_eq!(reg.authorize_action(&sid, &tok0.0), Ok(tok0.1));
}

#[test]
fn the_roster_holds_each_request_with_its_class_stats() {
    let g = sample_game();
    let mut reg = SessionRegistry::new();
    let sid = reg.create_session(&g, Id::new(0), 1).unwrap();
    // No roster yet while the session assembles.
    let knight = reg.join(&g, &sid, request("Kay", 0, 0, 0)).unwrap();
    assert!(reg.roster(&sid).is_none());
    let mage = reg.join(&g, &sid, request("Mim", 1, 1, 8)).unwrap();
    // Running now: the roster lists the characters in id order, each with
    // the request's identity and the class's base health and mana.
    let roster = reg.roster(&sid).unwrap();
    assert_eq!(roster.len(), 2);
    let kay = roster.get(knight.1).unwrap();
    assert_eq!(kay.name, "Kay");
    assert_eq!(kay.class, Id::new(0));
    assert_eq!(kay.team, Id::new(0));
    assert_eq!(kay.position, Id::new(0));
    assert_eq!(kay.current_health, 30);
    assert_eq!(kay.current_mana, 5);
    let mim = roster.get(mage.1).unwrap();
    assert_eq!(mim.name, "Mim");
    assert_eq!(mim.class, Id::new(1));
    assert_eq!(mim.team, Id::new(1));
    assert_eq!(mim.position, Id::new(8));
    assert_eq!(mim.current_health, 20);
    assert_eq!(mim.current_mana, 30);
    // An action hands the roster's id order on unchanged.
    reg.submit_action(&sid, &knight.0, EngineVerdict::Accepted { next_turn: mage.1 })
        .unwrap();
    assert_eq!(reg.roster(&sid).unwrap().len(), 2);
}

#[test]
fn an_engine_rejection_passes_through_and_keeps_the_turn() {
    let g = sample_game();
    let mut reg = SessionRegistry::new();
    let sid = reg.create_session(&g, Id::new(0), 1).unwrap();
    let tok0 = reg.join(&g, &sid, request("One", 0, 0, 0)).unwrap();
    reg.join(&g, &sid, request("Two", 1, 1, 8)).unwrap();
    assert_eq!(
        reg.submit_action(&sid, &tok0.0, EngineVerdict::Rejected),
        Err(ActionError::Rejected)
    );
    // The rejection changed nothing: character 0 still holds the turn.
    assert_eq!(reg.authorize_action(&sid, &tok0.0), Ok(tok0.1));
}
