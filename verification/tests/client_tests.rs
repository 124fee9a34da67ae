use matchcoord::client::{
    CreateCharacterState, CreateCharacterStep, CreateOrJoinData, CreateOrJoinState, Event,
    GlobalState, PlayGameState, Request, Response, SelectMapState, WaitForGameCreationState,
    wrap_dec, wrap_inc,
};
use matchcoord::game::{Class, GameDefinition, GameMap};
use matchcoord::id_map::{Id, IdMapBuilder};
use matchcoord::input::{char_to_event, key_to_event, RawKey, TuiEvent};
use matchcoord::wire::{
    RunningSnapshot, WireCreatedChar, WireCreatedGame, WireGetGame, WireRunningGame,
};

fn game_with_maps(n: usize) -> GameDefinition {
    let mut classes: IdMapBuilder<Class> = IdMapBuilder::new();
    classes.add(Class {
        name: "Knight".to_string(),
        description: "Sword and shield".to_string(),
        health: 30,
        mana: 5,
    });
    classes.add(Class {
        name: "Mage".to_string(),
        description: "Staff and robes".to_string(),
        health: 20,
        mana: 30,
    });
    let mut maps: IdMapBuilder<GameMap> = IdMapBuilder::new();
    for i in 0..n {
        maps.add(GameMap {
            name: format!("Arena {}", i),
            width: 8,
            height: 8,
            teams: vec![
                ("Red".to_string(), vec![Id::new(0), Id::new(1)]),
                ("Blue".to_string(), vec![Id::new(8), Id::new(9)]),
            ],
        });
    }
    GameDefinition { classes: classes.build(), maps: maps.build() }
}

fn join_lobby(buffer: &str) -> GlobalState {
    GlobalState::CreateOrJoin(CreateOrJoinState::Join(CreateOrJoinData {
        login: buffer.to_string(),
    }))
}

fn wizard(step: CreateCharacterStep) -> CreateCharacterState {
    CreateCharacterState {
        name: String::new(),
        class_index: 0,
        team_index: 0,
        position_index: 0,
        classes: vec![Id::new(0), Id::new(1)],
        teams: vec![Id::new(0), Id::new(1)],
        map: Id::new(0),
        game_id: "AAAAAAAAAA".to_string(),
        step,
    }
}

fn waiting() -> WaitForGameCreationState {
    WaitForGameCreationState {
        map: Id::new(0),
        game_id: "AAAAAAAAAA".to_string(),
        login: "tok0123456".to_string(),
        id: Id::new(1),
    }
}

#[test]
fn wrap_functions_wrap_at_the_ends() {
    assert_eq!(wrap_dec(0, 3), 2);
    assert_eq!(wrap_inc(2, 3), 0);
    assert_eq!(wrap_inc(0, 3), 1);
    assert_eq!(wrap_dec(2, 3), 1);
}

#[test]
fn wrap_functions_are_total_beyond_the_option_count() {
    // A cursor past the option count still gets the plain formulas:
    // modulo for the increment, an unwrapped decrement otherwise.
    assert_eq!(wrap_inc(5, 3), 0);
    assert_eq!(wrap_inc(6, 3), 1);
    assert_eq!(wrap_dec(5, 3), 4);
    assert_eq!(wrap_dec(0, 1), 0);
}

#[test]
fn left_from_first_map_wraps_to_last() {
    // Three map choices, cursor at 0: Left lands on 2.
    let g = game_with_maps(3);
    let s = SelectMapState { map_ids: g.maps.ids(), curr_id: 0 };
    let (state, request) = s.next(&g, Event::Left);
    match state {
        GlobalState::SelectMap(s2) => assert_eq!(s2.curr_id, 2),
        other => panic!("unexpected state {:?}", other),
    }
    assert!(request.is_none());
}

#[test]
fn right_from_last_map_wraps_to_first() {
    let g = game_with_maps(3);
    let s = SelectMapState { map_ids: g.maps.ids(), curr_id: 2 };
    let (state, request) = s.next(&g, Event::Right);
    match state {
        GlobalState::SelectMap(s2) => assert_eq!(s2.curr_id, 0),
        other => panic!("unexpected state {:?}", other),
    }
    assert!(request.is_none());
}

#[test]
fn confirm_on_a_map_requests_session_creation() {
    let g = game_with_maps(3);
    let s = SelectMapState { map_ids: g.maps.ids(), curr_id: 1 };
    let (_, request) = s.next(&g, Event::Confirm);
    match request {
        Some(Request::CreateGame(q)) => {
            assert_eq!(q.map, Id::new(1));
            assert_eq!(q.team_size, 2);
        },
        other => panic!("unexpected request {:?}", other),
    }
}

#[test]
fn confirm_on_the_team_step_always_opens_the_class_step() {
    let g = game_with_maps(1);
    // Whatever happened before — a moved cursor, typed input, a timeout —
    // Confirm on the team step lands on the class step.
    for prelude in [Event::Left, Event::Right, Event::Timeout, Event::Other] {
        let start = GlobalState::CreateCharacter(wizard(CreateCharacterStep::Team));
        let (mid, _) = start.next(&g, prelude);
        let (state, request) = mid.next(&g, Event::Confirm);
        match state {
            GlobalState::CreateCharacter(c) => {
                assert_eq!(c.step, CreateCharacterStep::Class)
            },
            other => panic!("unexpected state {:?}", other),
        }
        assert!(request.is_none());
    }
}

#[test]
fn the_wizard_steps_advance_strictly_in_order() {
    let g = game_with_maps(1);
    let mut state = GlobalState::CreateCharacter(wizard(CreateCharacterStep::Team));
    for expected in [
        CreateCharacterStep::Class,
        CreateCharacterStep::Position,
        CreateCharacterStep::Name,
    ] {
        let (next, _) = state.next(&g, Event::Confirm);
        match &next {
            GlobalState::CreateCharacter(c) => assert_eq!(c.step, expected),
            other => panic!("unexpected state {:?}", other),
        }
        state = next;
    }
}

#[test]
fn the_name_step_types_and_submits_the_enrolment() {
    let g = game_with_maps(1);
    let state = GlobalState::CreateCharacter(wizard(CreateCharacterStep::Name));
    let (state, _) = state.next(&g, Event::PrintableString("Bo".to_string()));
    let (state, _) = state.next(&g, Event::PrintableString("bb".to_string()));
    let (state, _) = state.next(&g, Event::Backspace);
    let (_, request) = state.next(&g, Event::Confirm);
    match request {
        Some(Request::CreateChar { game_id, request }) => {
            assert_eq!(game_id, "AAAAAAAAAA");
            assert_eq!(request.name, "Bob");
            assert_eq!(request.class, Id::new(0));
            assert_eq!(request.team, Id::new(0));
            assert_eq!(request.position, Id::new(0));
        },
        other => panic!("unexpected request {:?}", other),
    }
}

#[test]
fn the_position_step_reads_the_cell_list_live() {
    let g = game_with_maps(1);
    let mut w = wizard(CreateCharacterStep::Position);
    w.team_index = 1;
    let (state, _) = GlobalState::CreateCharacter(w).next(&g, Event::Right);
    let (_, request) = match state {
        GlobalState::CreateCharacter(mut c) => {
            assert_eq!(c.position_index, 1);
            c.step = CreateCharacterStep::Name;
            GlobalState::CreateCharacter(c).next(&g, Event::Confirm)
        },
        other => panic!("unexpected state {:?}", other),
    };
    match request {
        // Team 1's second starting cell, not team 0's.
        Some(Request::CreateChar { request, .. }) => assert_eq!(request.position, Id::new(9)),
        other => panic!("unexpected request {:?}", other),
    }
}

#[test]
fn arrows_toggle_between_create_and_join() {
    let g = game_with_maps(1);
    let (state, _) = GlobalState::new().next(&g, Event::Right);
    assert_eq!(state, join_lobby(""));
    let (state, _) = state.next(&g, Event::Left);
    assert_eq!(
        state,
        GlobalState::CreateOrJoin(CreateOrJoinState::Create(CreateOrJoinData {
            login: String::new()
        }))
    );
}

#[test]
fn the_join_buffer_edits_like_a_text_field() {
    let g = game_with_maps(1);
    let (state, _) = join_lobby("").next(&g, Event::PrintableString("abc".to_string()));
    assert_eq!(state, join_lobby("abc"));
    let (state, _) = state.next(&g, Event::Backspace);
    assert_eq!(state, join_lobby("ab"));
    // Backspace on an empty buffer stays empty rather than faulting.
    let (state, _) = join_lobby("").next(&g, Event::Backspace);
    assert_eq!(state, join_lobby(""));
}

#[test]
fn confirm_in_create_mode_opens_map_selection() {
    let g = game_with_maps(2);
    let (state, request) = GlobalState::new().next(&g, Event::Confirm);
    match state {
        GlobalState::SelectMap(s) => {
            assert_eq!(s.curr_id, 0);
            assert_eq!(s.map_ids.len(), 2);
        },
        other => panic!("unexpected state {:?}", other),
    }
    assert!(request.is_none());
}

#[test]
fn a_ten_character_buffer_is_looked_up_as_a_session_id() {
    let g = game_with_maps(1);
    let (state, request) = join_lobby("AAAAAAAAAA").next(&g, Event::Confirm);
    assert_eq!(state, join_lobby("AAAAAAAAAA"));
    match request {
        Some(Request::LookUpGame { game_id }) => assert_eq!(game_id, "AAAAAAAAAA"),
        other => panic!("unexpected request {:?}", other),
    }
}

#[test]
fn a_compound_buffer_is_looked_up_for_rejoining() {
    let g = game_with_maps(1);
    let (_, request) = join_lobby("AAAAAAAAAA/tok0123456").next(&g, Event::Confirm);
    match request {
        Some(Request::Rejoin { game_id, login }) => {
            assert_eq!(game_id, "AAAAAAAAAA");
            assert_eq!(login, "tok0123456");
        },
        other => panic!("unexpected request {:?}", other),
    }
    // Twenty-one characters without the separator stay put, no request.
    let (state, request) = join_lobby("AAAAAAAAAAXtok0123456").next(&g, Event::Confirm);
    assert_eq!(state, join_lobby("AAAAAAAAAAXtok0123456"));
    assert!(request.is_none());
    // Any other length stays put as well.
    let (_, request) = join_lobby("short").next(&g, Event::Confirm);
    assert!(request.is_none());
}

#[test]
fn a_timeout_leaves_every_screen_exactly_as_it_was() {
    let g = game_with_maps(3);
    for event in [Event::Timeout, Event::Other] {
        let (state, request) = join_lobby("abc").next(&g, event.clone());
        assert_eq!(state, join_lobby("abc"));
        assert!(request.is_none());

        let s = SelectMapState { map_ids: g.maps.ids(), curr_id: 1 };
        let (state, request) = GlobalState::SelectMap(s).next(&g, event.clone());
        match state {
            GlobalState::SelectMap(s2) => {
                assert_eq!(s2.curr_id, 1);
                assert_eq!(s2.map_ids, g.maps.ids());
            },
            other => panic!("unexpected state {:?}", other),
        }
        assert!(request.is_none());

        let (state, request) =
            GlobalState::CreateCharacter(wizard(CreateCharacterStep::Position)).next(
                &g,
                event.clone(),
            );
        assert_eq!(
            state,
            GlobalState::CreateCharacter(wizard(CreateCharacterStep::Position))
        );
        assert!(request.is_none());

        let (state, request) = GlobalState::WaitForGameCreation(waiting()).next(&g, event.clone());
        assert_eq!(state, GlobalState::WaitForGameCreation(waiting()));
        assert!(request.is_none());
    }
}

#[test]
fn exit_wins_from_every_screen_and_is_terminal() {
    let g = game_with_maps(1);
    let screens = [
        GlobalState::new(),
        join_lobby("abc"),
        GlobalState::SelectMap(SelectMapState { map_ids: g.maps.ids(), curr_id: 0 }),
        GlobalState::CreateCharacter(wizard(CreateCharacterStep::Team)),
        GlobalState::WaitForGameCreation(waiting()),
        GlobalState::Exit,
    ];
    for screen in screens {
        let (state, request) = screen.next(&g, Event::Exit);
        assert!(state.exit());
        assert!(request.is_none());
    }
}

#[test]
fn a_created_session_opens_the_character_wizard() {
    let g = game_with_maps(2);
    let s = SelectMapState { map_ids: g.maps.ids(), curr_id: 1 };
    let created = WireCreatedGame {
        game_id: "AAAAAAAAAA".to_string(),
        map: Id::new(1),
        team_size: 2,
        players: Vec::new(),
    };
    let state = GlobalState::SelectMap(s).on_response(&g, Response::CreatedGame(created));
    match state {
        GlobalState::CreateCharacter(c) => {
            assert_eq!(c.step, CreateCharacterStep::Team);
            assert_eq!(c.map, Id::new(1));
            assert_eq!(c.game_id, "AAAAAAAAAA");
            assert_eq!(c.classes.len(), 2);
            assert_eq!(c.teams.len(), 2);
            assert_eq!(c.name, "");
        },
        other => panic!("unexpected state {:?}", other),
    }
}

#[test]
fn an_enrolment_answer_moves_to_await_start() {
    let g = game_with_maps(1);
    let state = GlobalState::CreateCharacter(wizard(CreateCharacterStep::Name)).on_response(
        &g,
        Response::CreatedChar(WireCreatedChar("tok0123456".to_string(), Id::new(1))),
    );
    assert_eq!(state, GlobalState::WaitForGameCreation(waiting()));
}

#[test]
fn a_lookup_answer_routes_by_phase() {
    let g = game_with_maps(1);
    // Not found: stay in the lobby.
    let state = join_lobby("AAAAAAAAAA").on_response(&g, Response::GameInfo(WireGetGame::NotFound));
    assert_eq!(state, join_lobby("AAAAAAAAAA"));
    // Still assembling: enter the wizard for that session.
    let state = join_lobby("AAAAAAAAAA").on_response(
        &g,
        Response::GameInfo(WireGetGame::Assembling { map: Id::new(0), team_size: 2 }),
    );
    match state {
        GlobalState::CreateCharacter(c) => {
            assert_eq!(c.game_id, "AAAAAAAAAA");
            assert_eq!(c.step, CreateCharacterStep::Team);
        },
        other => panic!("unexpected state {:?}", other),
    }
    // Already running without credentials: wait for play.
    let state = join_lobby("AAAAAAAAAA").on_response(
        &g,
        Response::GameInfo(WireGetGame::Running(WireRunningGame(RunningSnapshot {
            map: Id::new(0),
            turn: Id::new(0),
        }))),
    );
    match state {
        GlobalState::WaitForGameCreation(w) => {
            assert_eq!(w.game_id, "AAAAAAAAAA");
            assert_eq!(w.login, "");
        },
        other => panic!("unexpected state {:?}", other),
    }
}

#[test]
fn a_rejoin_answer_restores_the_held_credentials() {
    let g = game_with_maps(1);
    let state = join_lobby("AAAAAAAAAA/tok0123456").on_response(
        &g,
        Response::RejoinInfo(WireGetGame::Running(WireRunningGame(RunningSnapshot {
            map: Id::new(0),
            turn: Id::new(0),
        }))),
    );
    match state {
        GlobalState::PlayGame(p) => {
            assert_eq!(p.game_id, "AAAAAAAAAA");
            assert_eq!(p.login, "tok0123456");
            assert!(!p.is_our_turn);
        },
        other => panic!("unexpected state {:?}", other),
    }
}

#[test]
fn a_transport_failure_keeps_the_current_screen() {
    let g = game_with_maps(1);
    let state = join_lobby("abc").on_response(&g, Response::TransportFailed);
    assert_eq!(state, join_lobby("abc"));
}

#[test]
fn the_running_signal_moves_await_start_to_play() {
    let state = GlobalState::WaitForGameCreation(waiting()).notify_running();
    match state {
        GlobalState::PlayGame(p) => {
            assert_eq!(p.game_id, "AAAAAAAAAA");
            assert_eq!(p.login, "tok0123456");
            assert_eq!(p.id, Id::new(1));
        },
        other => panic!("unexpected state {:?}", other),
    }
    // Anywhere else the signal is ignored.
    assert_eq!(join_lobby("x").notify_running(), join_lobby("x"));
}

#[test]
fn get_game_id_reports_what_there_is_to_copy() {
    assert_eq!(GlobalState::new().get_game_id(), None);
    assert_eq!(
        GlobalState::CreateCharacter(wizard(CreateCharacterStep::Team)).get_game_id(),
        Some("AAAAAAAAAA".to_string())
    );
    assert_eq!(
        GlobalState::WaitForGameCreation(waiting()).get_game_id(),
        Some("AAAAAAAAAA/tok0123456".to_string())
    );
    let playing = PlayGameState {
        cell: Id::new(0),
        map: Id::new(0),
        game_id: "AAAAAAAAAA".to_string(),
        login: "tok0123456".to_string(),
        id: Id::new(1),
        is_our_turn: false,
    };
    assert_eq!(
        GlobalState::PlayGame(playing).get_game_id(),
        Some("AAAAAAAAAA/tok0123456".to_string())
    );
}

#[test]
fn brackets_are_clipboard_meta_events() {
    assert_eq!(char_to_event('['), TuiEvent::CopyClipboard);
    assert_eq!(char_to_event(']'), TuiEvent::PasteClipboard);
    assert_eq!(
        char_to_event('x'),
        TuiEvent::StateEvent(Event::PrintableString("x".to_string()))
    );
}

#[test]
fn raw_keys_translate_to_interaction_events() {
    assert_eq!(key_to_event(RawKey::Left), TuiEvent::StateEvent(Event::Left));
    assert_eq!(key_to_event(RawKey::Right), TuiEvent::StateEvent(Event::Right));
    assert_eq!(key_to_event(RawKey::Up), TuiEvent::StateEvent(Event::Up));
    assert_eq!(key_to_event(RawKey::Down), TuiEvent::StateEvent(Event::Down));
    assert_eq!(key_to_event(RawKey::Enter), TuiEvent::StateEvent(Event::Confirm));
    assert_eq!(
        key_to_event(RawKey::Backspace),
        TuiEvent::StateEvent(Event::Backspace)
    );
    assert_eq!(key_to_event(RawKey::Esc), TuiEvent::StateEvent(Event::Exit));
    assert_eq!(key_to_event(RawKey::Other), TuiEvent::StateEvent(Event::Other));
    assert_eq!(
        key_to_event(RawKey::Char('q')),
        TuiEvent::StateEvent(Event::PrintableString("q".to_string()))
    );
    assert_eq!(key_to_event(RawKey::Char('[')), TuiEvent::CopyClipboard);
}
