//! The client's deterministic interaction state machine.
//!
//! The flow walks lobby → map selection → character wizard → await-start →
//! play; `Exit` is reachable from every state and terminal.  Each
//! transition consumes one event and issues at most one outbound request;
//! the transport collaborator's answer is fed back through
//! [`GlobalState::on_response`].  The machine itself never blocks and
//! never talks to the network: the process edge performs the requests.

use vstd::prelude::*;
use vstd::string::StrSliceExecFns;
use vstd::string::StringExecFns;

use crate::game::{Cell, Character, Class, GameDefinition, GameMap, Team};
use crate::id_map::Id;
use crate::wire::{WireCreatedChar, WireCreatedGame, WireGetGame, WireNewCharRequest, WireNewGameRequest, WireRunningGame};
use crate::DEFAULT_TEAM_SIZE;

verus! {

/// A cursor moved one to the right, wrapping past the last option.
pub open spec fn wrapped_inc(n: int, max_n: int) -> int {
    if n + 1 == max_n {
        0
    } else {
        n + 1
    }
}

/// A cursor moved one to the left, wrapping past the first option.
pub open spec fn wrapped_dec(n: int, max_n: int) -> int {
    if n == 0 {
        max_n - 1
    } else {
        n - 1
    }
}

/// Advance a cursor by one, modulo the current option count.  Total for
/// any count above zero; a cursor already within the options wraps from
/// the last option back to the first.
pub fn wrap_inc(n: usize, max_n: usize) -> (r: usize)
    requires
        max_n > 0,
        n < usize::MAX,
    ensures
        r == ((n + 1) as int) % (max_n as int),
        r < max_n,
        n < max_n ==> r == wrapped_inc(n as int, max_n as int),
{
    proof {
        if n < max_n {
            if n + 1 == max_n {
                vstd::arithmetic::div_mod::lemma_mod_self_0(max_n as int);
            } else {
                vstd::arithmetic::div_mod::lemma_small_mod((n + 1) as nat, max_n as nat);
            }
        }
    }
    (n + 1) % max_n
}

/// Move a cursor back by one, wrapping from the first option to the last.
/// Total for any count above zero; only a cursor at zero wraps.
pub fn wrap_dec(n: usize, max_n: usize) -> (r: usize)
    requires
        max_n > 0,
    ensures
        r == wrapped_dec(n as int, max_n as int),
        n < max_n ==> r < max_n,
{
    match n {
        0 => max_n - 1,
        n => n - 1,
    }
}

/// One event of the interaction loop, as the input layer hands it over.
#[derive(Debug, Clone, PartialEq)]
pub enum Event {
    /// No input arrived within the frame's window; a no-op.
    Timeout,
    PrintableString(String),
    Exit,
    Left,
    Right,
    Up,
    Down,
    Backspace,
    Cancel,
    Confirm,
    Other,
}

/// An outbound request a transition asks the transport collaborator to
/// perform.  At most one is issued per transition.
#[derive(Debug, Clone, PartialEq)]
pub enum Request {
    /// Declare a new session on the chosen map.
    CreateGame(WireNewGameRequest),
    /// Look a session up by its bare id.
    LookUpGame { game_id: String },
    /// Look a session up for rejoining with held credentials.
    Rejoin { game_id: String, login: String },
    /// Enrol the assembled character into the session.
    CreateChar { game_id: String, request: WireNewCharRequest },
}

/// The transport collaborator's answer to an outbound [`Request`], fed
/// back into the machine.  Any transport failure collapses to
/// `TransportFailed`: the machine remains in its current state.
#[derive(Debug, Clone, PartialEq)]
pub enum Response {
    CreatedGame(WireCreatedGame),
    GameInfo(WireGetGame),
    RejoinInfo(WireGetGame),
    CreatedChar(WireCreatedChar),
    TransportFailed,
}

/// The text buffer of the lobby screen.
#[derive(Debug, PartialEq)]
pub struct CreateOrJoinData {
    pub login: String,
}

/// The lobby: choose between creating a session and joining one by id.
#[derive(Debug, PartialEq)]
pub enum CreateOrJoinState {
    Create(CreateOrJoinData),
    Join(CreateOrJoinData),
}

/// Map selection: a cursor over the map catalogue.
#[derive(Debug, PartialEq)]
pub struct SelectMapState {
    pub map_ids: Vec<Id<GameMap>>,
    pub curr_id: usize,
}

/// The character wizard's steps, traversed strictly in the order
/// Team → Class → Position → Name.
#[derive(Debug, PartialEq)]
pub enum CreateCharacterStep {
    Class,
    Team,
    Position,
    Name,
}

/// The character wizard: per-step cursors over the live option lists, the
/// typed name, and the session the character is headed for.
#[derive(Debug, PartialEq)]
pub struct CreateCharacterState {
    pub name: String,
    pub class_index: usize,
    pub team_index: usize,
    pub position_index: usize,
    pub classes: Vec<Id<Class>>,
    pub teams: Vec<Id<Team>>,
    pub map: Id<GameMap>,
    pub game_id: String,
    pub step: CreateCharacterStep,
}

/// Play has started; actions are authenticated with the held token and
/// gated server-side by turn authority.  Combat interaction detail is an
/// engine concern and out of this machine's scope.
#[derive(Debug, PartialEq)]
pub struct PlayGameState {
    pub cell: Id<Cell>,
    pub map: Id<GameMap>,
    pub game_id: String,
    pub login: String,
    pub id: Id<Character>,
    pub is_our_turn: bool,
}

/// Waiting for the session to fill; leaves only on the out-of-band signal
/// that the session became running, or on `Exit`.
#[derive(Debug, PartialEq)]
pub struct WaitForGameCreationState {
    pub map: Id<GameMap>,
    pub game_id: String,
    pub login: String,
    pub id: Id<Character>,
}

/// The whole client state: exactly one screen at a time.
#[derive(Debug, PartialEq)]
pub enum GlobalState {
    CreateOrJoin(CreateOrJoinState),
    SelectMap(SelectMapState),
    WaitForGameCreation(WaitForGameCreationState),
    CreateCharacter(CreateCharacterState),
    PlayGame(PlayGameState),
    Exit,
}

/// The lobby's transition relation: what one event does to a
/// [`CreateOrJoinState`], and which request it issues.  The arrow keys
/// toggle the mode; text editing applies only in Join mode; Confirm in
/// Create mode opens map selection, Confirm in Join mode parses the buffer
/// as a bare session id or as the compound `"{session-id}/{login-token}"`
/// and stays otherwise; everything else changes nothing.
pub open spec fn lobby_step(
    pre: CreateOrJoinState,
    g: GameDefinition,
    event: Event,
    post: GlobalState,
    req: Option<Request>,
) -> bool {
    match pre {
        CreateOrJoinState::Join(d) => match event {
            Event::Right | Event::Up | Event::Down | Event::Left | Event::Cancel => post
                == GlobalState::CreateOrJoin(CreateOrJoinState::Create(d)) && req is None,
            Event::PrintableString(p) => (post matches GlobalState::CreateOrJoin(
                CreateOrJoinState::Join(d2),
            ) && d2.login@ == d.login@ + p@) && req is None,
            Event::Backspace => (post matches GlobalState::CreateOrJoin(
                CreateOrJoinState::Join(d2),
            ) && d2.login@ == (if d.login@.len() == 0 {
                d.login@
            } else {
                d.login@.drop_last()
            })) && req is None,
            Event::Confirm => if d.login@.len() == 10 {
                post == GlobalState::CreateOrJoin(CreateOrJoinState::Join(d)) && (req matches Some(
                    Request::LookUpGame { game_id },
                ) && game_id@ == d.login@)
            } else if d.login@.len() == 21 && d.login@[10] == '/' {
                post == GlobalState::CreateOrJoin(CreateOrJoinState::Join(d)) && (req matches Some(
                    Request::Rejoin { game_id, login },
                ) && game_id@ == d.login@.subrange(0, 10) && login@ == d.login@.subrange(11, 21))
            } else {
                post == GlobalState::CreateOrJoin(CreateOrJoinState::Join(d)) && req is None
            },
            _ => post == GlobalState::CreateOrJoin(CreateOrJoinState::Join(d)) && req is None,
        },
        CreateOrJoinState::Create(d) => match event {
            Event::Right | Event::Up | Event::Down | Event::Left => post
                == GlobalState::CreateOrJoin(CreateOrJoinState::Join(d)) && req is None,
            Event::Confirm => (post matches GlobalState::SelectMap(s) && s.curr_id == 0 && s.wf(g))
                && req is None,
            _ => post == GlobalState::CreateOrJoin(CreateOrJoinState::Create(d)) && req is None,
        },
    }
}

/// The map-selection transition relation: Left and Right move the cursor
/// modulo the current choice count, Confirm asks for a session on the
/// selected map with the fixed team size, everything else changes nothing.
pub open spec fn map_step(
    pre: SelectMapState,
    g: GameDefinition,
    event: Event,
    post: GlobalState,
    req: Option<Request>,
) -> bool {
    match event {
        Event::Right => post == GlobalState::SelectMap(
            SelectMapState {
                curr_id: wrapped_inc(pre.curr_id as int, pre.map_ids@.len() as int) as usize,
                ..pre
            },
        ) && req is None,
        Event::Left => post == GlobalState::SelectMap(
            SelectMapState {
                curr_id: wrapped_dec(pre.curr_id as int, pre.map_ids@.len() as int) as usize,
                ..pre
            },
        ) && req is None,
        Event::Confirm => post == GlobalState::SelectMap(pre) && (req matches Some(
            Request::CreateGame(q),
        ) && q.map == pre.map_ids@[pre.curr_id as int] && q.team_size == DEFAULT_TEAM_SIZE),
        _ => post == GlobalState::SelectMap(pre) && req is None,
    }
}

/// The character wizard's transition relation.  On the three cursor steps
/// Left and Right wrap within that step's live option count and Confirm
/// advances strictly Team → Class → Position → Name; on the name step
/// printable input and Backspace edit the name and Confirm submits the
/// enrolment request built from the confirmed cursors.  Everything else
/// changes nothing, and only the name step's Confirm issues a request.
pub open spec fn wizard_step(
    pre: CreateCharacterState,
    g: GameDefinition,
    event: Event,
    post: GlobalState,
    req: Option<Request>,
) -> bool {
    match pre.step {
        CreateCharacterStep::Team => match event {
            Event::Right => post == GlobalState::CreateCharacter(
                CreateCharacterState {
                    team_index: wrapped_inc(pre.team_index as int, pre.teams@.len() as int)
                        as usize,
                    ..pre
                },
            ) && req is None,
            Event::Left => post == GlobalState::CreateCharacter(
                CreateCharacterState {
                    team_index: wrapped_dec(pre.team_index as int, pre.teams@.len() as int)
                        as usize,
                    ..pre
                },
            ) && req is None,
            Event::Confirm => post == GlobalState::CreateCharacter(
                CreateCharacterState { step: CreateCharacterStep::Class, ..pre },
            ) && req is None,
            _ => post == GlobalState::CreateCharacter(pre) && req is None,
        },
        CreateCharacterStep::Class => match event {
            Event::Right => post == GlobalState::CreateCharacter(
                CreateCharacterState {
                    class_index: wrapped_inc(pre.class_index as int, pre.classes@.len() as int)
                        as usize,
                    ..pre
                },
            ) && req is None,
            Event::Left => post == GlobalState::CreateCharacter(
                CreateCharacterState {
                    class_index: wrapped_dec(pre.class_index as int, pre.classes@.len() as int)
                        as usize,
                    ..pre
                },
            ) && req is None,
            Event::Confirm => post == GlobalState::CreateCharacter(
                CreateCharacterState { step: CreateCharacterStep::Position, ..pre },
            ) && req is None,
            _ => post == GlobalState::CreateCharacter(pre) && req is None,
        },
        CreateCharacterStep::Position => match event {
            Event::Right => post == GlobalState::CreateCharacter(
                CreateCharacterState {
                    position_index: wrapped_inc(
                        pre.position_index as int,
                        g.maps@[pre.map@].teams@[pre.team_index as int].1@.len() as int,
                    ) as usize,
                    ..pre
                },
            ) && req is None,
            Event::Left => post == GlobalState::CreateCharacter(
                CreateCharacterState {
                    position_index: wrapped_dec(
                        pre.position_index as int,
                        g.maps@[pre.map@].teams@[pre.team_index as int].1@.len() as int,
                    ) as usize,
                    ..pre
                },
            ) && req is None,
            Event::Confirm => post == GlobalState::CreateCharacter(
                CreateCharacterState { step: CreateCharacterStep::Name, ..pre },
            ) && req is None,
            _ => post == GlobalState::CreateCharacter(pre) && req is None,
        },
        CreateCharacterStep::Name => match event {
            Event::PrintableString(p) => (post matches GlobalState::CreateCharacter(c) && c == (
            CreateCharacterState { name: c.name, ..pre }) && c.name@ == pre.name@ + p@) && req
                is None,
            Event::Backspace => (post matches GlobalState::CreateCharacter(c) && c == (
            CreateCharacterState { name: c.name, ..pre }) && c.name@ == (if pre.name@.len() == 0 {
                pre.name@
            } else {
                pre.name@.drop_last()
            })) && req is None,
            Event::Confirm => post == GlobalState::CreateCharacter(pre) && (req matches Some(
                Request::CreateChar { game_id, request },
            ) && game_id@ == pre.game_id@ && request.name@ == pre.name@ && request.class
                == pre.classes@[pre.class_index as int] && request.team
                == pre.teams@[pre.team_index as int] && request.position
                == g.maps@[pre.map@].teams@[pre.team_index as int].1@[pre.position_index as int]),
            _ => post == GlobalState::CreateCharacter(pre) && req is None,
        },
    }
}

impl SelectMapState {
    /// The cursor stays within the catalogue, which lists every map id in
    /// order.
    pub open spec fn wf(self, g: GameDefinition) -> bool {
        &&& self.map_ids@.len() == g.maps@.len()
        &&& forall|i: int| 0 <= i < self.map_ids@.len() ==> (#[trigger] self.map_ids@[i])@ == i
        &&& self.curr_id < self.map_ids@.len()
    }

    /// A fresh selection screen over the definition's map catalogue, with
    /// the cursor on the first map.
    pub fn new(game_definition: &GameDefinition) -> (r: SelectMapState)
        requires
            game_definition.wf(),
        ensures
            r.wf(*game_definition),
            r.curr_id == 0,
    {
        SelectMapState { map_ids: game_definition.maps.ids(), curr_id: 0 }
    }

    /// One step of the map-selection screen.  Left and Right move the
    /// cursor modulo the current choice count; Confirm asks the transport
    /// to create a session on the selected map with the fixed team size;
    /// everything else changes nothing.
    pub fn next(self, game_definition: &GameDefinition, event: Event) -> (r: (
        GlobalState,
        Option<Request>,
    ))
        requires
            game_definition.wf(),
            self.wf(*game_definition),
        ensures
            r.0.wf(*game_definition),
            map_step(self, *game_definition, event, r.0, r.1),
    {
        match event {
            Event::Right => {
                let curr_id = wrap_inc(self.curr_id, self.map_ids.len());
                (GlobalState::SelectMap(SelectMapState { curr_id, ..self }), None)
            },
            Event::Left => {
                let curr_id = wrap_dec(self.curr_id, self.map_ids.len());
                (GlobalState::SelectMap(SelectMapState { curr_id, ..self }), None)
            },
            Event::Confirm => {
                let map_id = self.map_ids[self.curr_id];
                let request = WireNewGameRequest { map: map_id, team_size: DEFAULT_TEAM_SIZE };
                (GlobalState::SelectMap(self), Some(Request::CreateGame(request)))
            },
            _ => (GlobalState::SelectMap(self), None),
        }
    }
}

impl CreateCharacterState {
    /// Every cursor stays within its live option list: the class list
    /// mirrors the static roster, the team list mirrors the chosen map's
    /// teams, and the position cursor stays within the chosen team's
    /// starting cells.  Until the team step is confirmed the position
    /// cursor still rests on the first cell.
    pub open spec fn wf(self, g: GameDefinition) -> bool {
        &&& 0 <= self.map@ < g.maps@.len()
        &&& self.classes@.len() == g.classes@.len()
        &&& forall|i: int| 0 <= i < self.classes@.len() ==> (#[trigger] self.classes@[i])@ == i
        &&& self.class_index < self.classes@.len()
        &&& self.teams@.len() == g.maps@[self.map@].teams@.len()
        &&& forall|i: int| 0 <= i < self.teams@.len() ==> (#[trigger] self.teams@[i])@ == i
        &&& self.team_index < self.teams@.len()
        &&& self.position_index < g.maps@[self.map@].teams@[self.team_index as int].1@.len()
        &&& self.step == CreateCharacterStep::Team ==> self.position_index == 0
    }

    /// One step while choosing the team: Left and Right move the team
    /// cursor modulo the map's team count; Confirm advances the wizard to
    /// the class step; everything else changes nothing.
    pub fn handle_event_team(self, game_definition: &GameDefinition, event: Event) -> (r: (
        GlobalState,
        Option<Request>,
    ))
        requires
            game_definition.wf(),
            self.wf(*game_definition),
            self.step == CreateCharacterStep::Team,
        ensures
            r.0.wf(*game_definition),
            wizard_step(self, *game_definition, event, r.0, r.1),
    {
        match event {
            Event::Right => {
                let team_index = wrap_inc(self.team_index, self.teams.len());
                (
                    GlobalState::CreateCharacter(CreateCharacterState { team_index, ..self }),
                    None,
                )
            },
            Event::Left => {
                let team_index = wrap_dec(self.team_index, self.teams.len());
                (
                    GlobalState::CreateCharacter(CreateCharacterState { team_index, ..self }),
                    None,
                )
            },
            Event::Confirm => {
                (
                    GlobalState::CreateCharacter(
                        CreateCharacterState { step: CreateCharacterStep::Class, ..self },
                    ),
                    None,
                )
            },
            _ => (GlobalState::CreateCharacter(self), None),
        }
    }

    /// One step while choosing the class: Left and Right move the class
    /// cursor modulo the roster size; Confirm advances the wizard to the
    /// position step; everything else changes nothing.
    pub fn handle_event_class(self, game_definition: &GameDefinition, event: Event) -> (r: (
        GlobalState,
        Option<Request>,
    ))
        requires
            game_definition.wf(),
            self.wf(*game_definition),
            self.step == CreateCharacterStep::Class,
        ensures
            r.0.wf(*game_definition),
            wizard_step(self, *game_definition, event, r.0, r.1),
    {
        match event {
            Event::Right => {
                let class_index = wrap_inc(self.class_index, self.classes.len());
                (
                    GlobalState::CreateCharacter(CreateCharacterState { class_index, ..self }),
                    None,
                )
            },
            Event::Left => {
                let class_index = wrap_dec(self.class_index, self.classes.len());
                (
                    GlobalState::CreateCharacter(CreateCharacterState { class_index, ..self }),
                    None,
                )
            },
            Event::Confirm => {
                (
                    GlobalState::CreateCharacter(
                        CreateCharacterState { step: CreateCharacterStep::Position, ..self },
                    ),
                    None,
                )
            },
            _ => (GlobalState::CreateCharacter(self), None),
        }
    }

    /// One step while choosing the starting cell: Left and Right move the
    /// position cursor modulo the chosen team's cell count, re-read live
    /// from the definition; Confirm advances the wizard to the name step;
    /// everything else changes nothing.
    pub fn handle_event_position(self, game_definition: &GameDefinition, event: Event) -> (r: (
        GlobalState,
        Option<Request>,
    ))
        requires
            game_definition.wf(),
            self.wf(*game_definition),
            self.step == CreateCharacterStep::Position,
        ensures
            r.0.wf(*game_definition),
            wizard_step(self, *game_definition, event, r.0, r.1),
    {
        let m = match game_definition.maps.get(self.map) {
            Option::Some(m) => m,
            Option::None => {
                // The well-formedness precondition says the definition
                // offers this map.
                proof {
                    assert(false);
                }
                return (GlobalState::CreateCharacter(self), None);
            },
        };
        let positions_len = m.teams[self.team_index].1.len();
        match event {
            Event::Right => {
                let position_index = wrap_inc(self.position_index, positions_len);
                (
                    GlobalState::CreateCharacter(CreateCharacterState { position_index, ..self }),
                    None,
                )
            },
            Event::Left => {
                let position_index = wrap_dec(self.position_index, positions_len);
                (
                    GlobalState::CreateCharacter(CreateCharacterState { position_index, ..self }),
                    None,
                )
            },
            Event::Confirm => {
                (
                    GlobalState::CreateCharacter(
                        CreateCharacterState { step: CreateCharacterStep::Name, ..self },
                    ),
                    None,
                )
            },
            _ => (GlobalState::CreateCharacter(self), None),
        }
    }

    /// One step while typing the name: printable input appends to the
    /// name, Backspace removes its last character, and Confirm submits the
    /// enrolment request built from the confirmed cursors, with the
    /// starting cell re-read live from the definition.  Everything else
    /// changes nothing.
    pub fn handle_event_name(self, game_definition: &GameDefinition, event: Event) -> (r: (
        GlobalState,
        Option<Request>,
    ))
        requires
            game_definition.wf(),
            self.wf(*game_definition),
            self.step == CreateCharacterStep::Name,
        ensures
            r.0.wf(*game_definition),
            wizard_step(self, *game_definition, event, r.0, r.1),
    {
        match event {
            Event::PrintableString(string) => {
                let mut s = self;
                s.name.append(string.as_str());
                (GlobalState::CreateCharacter(s), None)
            },
            Event::Backspace => {
                let mut s = self;
                let n = s.name.as_str().unicode_len();
                if n > 0 {
                    let shorter = s.name.as_str().substring_char(0, n - 1).to_owned();
                    s.name = shorter;
                }
                (GlobalState::CreateCharacter(s), None)
            },
            Event::Confirm => {
                let m = match game_definition.maps.get(self.map) {
                    Option::Some(m) => m,
                    Option::None => {
                        // The well-formedness precondition says the
                        // definition offers this map.
                        proof {
                            assert(false);
                        }
                        return (GlobalState::CreateCharacter(self), None);
                    },
                };
                let class = self.classes[self.class_index];
                let team = self.teams[self.team_index];
                let position = m.teams[team.raw()].1[self.position_index];
                let request = WireNewCharRequest {
                    name: self.name.clone(),
                    class,
                    team,
                    position,
                };
                let game_id = self.game_id.clone();
                (
                    GlobalState::CreateCharacter(self),
                    Some(Request::CreateChar { game_id, request }),
                )
            },
            _ => (GlobalState::CreateCharacter(self), None),
        }
    }

    /// One step of the character wizard, dispatched to the handler of the
    /// current step.  Steps advance strictly Team → Class → Position →
    /// Name, each on Confirm; only the name step issues a request.
    pub fn next(self, game_definition: &GameDefinition, event: Event) -> (r: (
        GlobalState,
        Option<Request>,
    ))
        requires
            game_definition.wf(),
            self.wf(*game_definition),
        ensures
            r.0.wf(*game_definition),
            wizard_step(self, *game_definition, event, r.0, r.1),
            r.0 matches GlobalState::CreateCharacter(_),
            r.1 is Some ==> self.step == CreateCharacterStep::Name && event == Event::Confirm,
    {
        match self.step {
            CreateCharacterStep::Class => self.handle_event_class(game_definition, event),
            CreateCharacterStep::Team => self.handle_event_team(game_definition, event),
            CreateCharacterStep::Position => self.handle_event_position(game_definition, event),
            CreateCharacterStep::Name => self.handle_event_name(game_definition, event),
        }
    }
}

impl GlobalState {
    /// Each screen's cursors stay within the option lists the definition
    /// offers it.
    pub open spec fn wf(self, g: GameDefinition) -> bool {
        match self {
            GlobalState::SelectMap(s) => s.wf(g),
            GlobalState::CreateCharacter(c) => c.wf(g),
            _ => true,
        }
    }

    /// The machine starts in the lobby, in Create mode, with an empty
    /// buffer.
    pub fn new() -> (r: Self)
        ensures
            forall|g: GameDefinition| r.wf(g),
            r matches GlobalState::CreateOrJoin(CreateOrJoinState::Create(d)) && d.login@.len()
                == 0,
    {
        GlobalState::CreateOrJoin(
            CreateOrJoinState::Create(CreateOrJoinData { login: String::new() }),
        )
    }

    /// Whether the machine reached its terminal state.
    pub fn exit(&self) -> (r: bool)
        ensures
            r == (*self == GlobalState::Exit),
    {
        matches!(self, GlobalState::Exit)
    }

    /// The identifier to copy for the running screen: the session id
    /// alone while assembling a character, the compound
    /// `"{session-id}/{login-token}"` once credentials are held, nothing
    /// in the screens before.
    pub fn get_game_id(&self) -> (r: Option<String>)
        requires
            *self != GlobalState::Exit,
        ensures
            match *self {
                GlobalState::CreateOrJoin(_) => r is None,
                GlobalState::SelectMap(_) => r is None,
                GlobalState::CreateCharacter(c) => (r matches Some(s) && s@ == c.game_id@),
                GlobalState::WaitForGameCreation(w) => (r matches Some(s) && s@ == w.game_id@
                    + "/"@ + w.login@),
                GlobalState::PlayGame(p) => (r matches Some(s) && s@ == p.game_id@ + "/"@
                    + p.login@),
                GlobalState::Exit => true,
            },
    {
        match self {
            GlobalState::CreateOrJoin(_) => None,
            GlobalState::SelectMap(_) => None,
            GlobalState::CreateCharacter(c) => Some(c.game_id.clone()),
            GlobalState::WaitForGameCreation(w) => Some(
                w.game_id.clone().concat("/").concat(w.login.as_str()),
            ),
            GlobalState::PlayGame(p) => Some(
                p.game_id.clone().concat("/").concat(p.login.as_str()),
            ),
            GlobalState::Exit => None,
        }
    }

    /// Enter the character wizard for a session just created or found on
    /// `map`: the wizard starts at the team step with every cursor on the
    /// first option and the option lists read live from the definition.
    pub fn join_game(
        created_game: WireCreatedGame,
        game_definition: &GameDefinition,
        map: Id<GameMap>,
    ) -> (r: GlobalState)
        requires
            game_definition.wf(),
            0 <= map@ < game_definition.maps@.len(),
        ensures
            r.wf(*game_definition),
            r matches GlobalState::CreateCharacter(c) && c.step == CreateCharacterStep::Team
                && c.map == map && c.game_id == created_game.game_id && c.name@.len() == 0
                && c.class_index == 0 && c.team_index == 0 && c.position_index == 0,
    {
        let m = match game_definition.maps.get(map) {
            Option::Some(m) => m,
            Option::None => {
                // The well-formedness precondition says the definition
                // offers this map.
                proof {
                    assert(false);
                }
                return GlobalState::Exit;
            },
        };
        let mut teams: Vec<Id<Team>> = Vec::new();
        let mut i: usize = 0;
        while i < m.teams.len()
            invariant
                i <= m.teams@.len(),
                teams@.len() == i,
                forall|j: int| 0 <= j < i ==> (#[trigger] teams@[j])@ == j,
            decreases m.teams@.len() - i,
        {
            teams.push(Id::new(i));
            i = i + 1;
        }
        GlobalState::CreateCharacter(
            CreateCharacterState {
                step: CreateCharacterStep::Team,
                name: String::new(),
                class_index: 0,
                team_index: 0,
                position_index: 0,
                classes: game_definition.classes.ids(),
                teams,
                map,
                game_id: created_game.game_id,
            },
        )
    }

    /// One step of the whole machine.  `Exit` wins from every state and is
    /// terminal; `Timeout` and `Other` change nothing anywhere; the other
    /// events are dispatched to the current screen.  The await-start and
    /// play screens consume events without moving: the former leaves only
    /// on the out-of-band running signal, the latter's interaction detail
    /// is out of this machine's scope.
    pub fn next(self, game_definition: &GameDefinition, event: Event) -> (r: (
        GlobalState,
        Option<Request>,
    ))
        requires
            game_definition.wf(),
            self.wf(*game_definition),
        ensures
            r.0.wf(*game_definition),
            event == Event::Exit ==> r.0 == GlobalState::Exit && r.1 is None,
            event == Event::Timeout || event == Event::Other ==> r.0 == self && r.1 is None,
            self == GlobalState::Exit ==> r.0 == GlobalState::Exit && r.1 is None,
            self matches GlobalState::WaitForGameCreation(_) && event != Event::Exit ==> r.0
                == self && r.1 is None,
            self matches GlobalState::PlayGame(_) && event != Event::Exit ==> r.0 == self && r.1
                is None,
            self matches GlobalState::CreateCharacter(c) ==> (c.step == CreateCharacterStep::Team
                && event == Event::Confirm ==> r.0 == GlobalState::CreateCharacter(
                CreateCharacterState { step: CreateCharacterStep::Class, ..c },
            )),
            self matches GlobalState::SelectMap(s) ==> (event == Event::Left ==> r.0
                == GlobalState::SelectMap(
                SelectMapState {
                    curr_id: wrapped_dec(s.curr_id as int, s.map_ids@.len() as int) as usize,
                    ..s
                },
            )),
            self matches GlobalState::SelectMap(s) ==> (event == Event::Right ==> r.0
                == GlobalState::SelectMap(
                SelectMapState {
                    curr_id: wrapped_inc(s.curr_id as int, s.map_ids@.len() as int) as usize,
                    ..s
                },
            )),
            self matches GlobalState::CreateOrJoin(st) ==> (event != Event::Exit ==> lobby_step(
                st,
                *game_definition,
                event,
                r.0,
                r.1,
            )),
            self matches GlobalState::SelectMap(s) ==> (event != Event::Exit ==> map_step(
                s,
                *game_definition,
                event,
                r.0,
                r.1,
            )),
            self matches GlobalState::CreateCharacter(c) ==> (event != Event::Exit ==> wizard_step(
                c,
                *game_definition,
                event,
                r.0,
                r.1,
            )),
    {
        match (self, event) {
            (_, Event::Exit) => (GlobalState::Exit, None),
            (state, Event::Other) => (state, None),
            (state, Event::Timeout) => (state, None),
            (GlobalState::CreateOrJoin(create_or_join), event) => {
                create_or_join.next(game_definition, event)
            },
            (GlobalState::SelectMap(s), event) => s.next(game_definition, event),
            (GlobalState::CreateCharacter(c), event) => c.next(game_definition, event),
            (state, _) => (state, None),
        }
    }

    /// Fold the transport collaborator's answer into the machine.  A
    /// failure, an answer that does not fit the current screen, or a
    /// session that cannot be found leaves the state unchanged.
    pub fn on_response(self, game_definition: &GameDefinition, response: Response) -> (r:
        GlobalState)
        requires
            game_definition.wf(),
            self.wf(*game_definition),
        ensures
            r.wf(*game_definition),
            response == Response::TransportFailed ==> r == self,
            self matches GlobalState::SelectMap(_) ==> (response matches Response::CreatedGame(c)
                ==> (0 <= c.map@ < game_definition.maps@.len() ==> (r matches
                GlobalState::CreateCharacter(cc) && cc.step == CreateCharacterStep::Team && cc.map
                == c.map && cc.game_id == c.game_id && cc.name@.len() == 0 && cc.class_index == 0
                && cc.team_index == 0 && cc.position_index == 0))),
            self matches GlobalState::CreateOrJoin(CreateOrJoinState::Join(_)) ==> (response
                matches Response::GameInfo(i) ==> (i == WireGetGame::NotFound ==> r == self)),
            self matches GlobalState::CreateOrJoin(CreateOrJoinState::Join(d)) ==> (response
                matches Response::GameInfo(i) ==> (i matches WireGetGame::Assembling {
                map,
                team_size: _,
            } ==> (0 <= map@ < game_definition.maps@.len() ==> (r matches
                GlobalState::CreateCharacter(cc) && cc.step == CreateCharacterStep::Team && cc.map
                == map && cc.game_id == d.login && cc.name@.len() == 0 && cc.class_index == 0
                && cc.team_index == 0 && cc.position_index == 0)))),
            self matches GlobalState::CreateOrJoin(CreateOrJoinState::Join(d)) ==> (response
                matches Response::GameInfo(i) ==> (i matches WireGetGame::Running(
                WireRunningGame(sn),
            ) ==> (r matches GlobalState::WaitForGameCreation(w) && w.map == sn.map && w.game_id
                == d.login && w.login@.len() == 0))),
            self matches GlobalState::CreateOrJoin(CreateOrJoinState::Join(d)) ==> (response
                matches Response::RejoinInfo(i) ==> (d.login@.len() == 21 ==> ((i matches
                WireGetGame::Assembling { map, team_size: _ } ==> (r matches
                GlobalState::WaitForGameCreation(w) && w.map == map && w.game_id@
                == d.login@.subrange(0, 10) && w.login@ == d.login@.subrange(11, 21))) && (i
                matches WireGetGame::Running(WireRunningGame(sn)) ==> (r matches
                GlobalState::PlayGame(p) && p.map == sn.map && p.game_id@ == d.login@.subrange(
                0,
                10,
            ) && p.login@ == d.login@.subrange(11, 21) && !p.is_our_turn))))),
            self matches GlobalState::CreateCharacter(c) ==> (response matches
                Response::CreatedChar(WireCreatedChar(login, id)) ==> (r matches
                GlobalState::WaitForGameCreation(w) && w.map == c.map && w.game_id == c.game_id
                && w.login == login && w.id == id)),
            self matches GlobalState::CreateOrJoin(CreateOrJoinState::Create(_)) ==> r == self,
            self matches GlobalState::WaitForGameCreation(_) ==> r == self,
            self matches GlobalState::PlayGame(_) ==> r == self,
            self == GlobalState::Exit ==> r == self,
            self matches GlobalState::SelectMap(_) ==> (!(response matches Response::CreatedGame(
                _,
            )) ==> r == self),
            self matches GlobalState::SelectMap(_) ==> (response matches Response::CreatedGame(c)
                ==> (!(0 <= c.map@ < game_definition.maps@.len()) ==> r == self)),
            self matches GlobalState::CreateCharacter(_) ==> (!(response matches
                Response::CreatedChar(_)) ==> r == self),
            self matches GlobalState::CreateOrJoin(CreateOrJoinState::Join(_)) ==> (!(response
                matches Response::GameInfo(_) || response matches Response::RejoinInfo(_)) ==> r
                == self),
            self matches GlobalState::CreateOrJoin(CreateOrJoinState::Join(d)) ==> (response
                matches Response::GameInfo(i) ==> (i matches WireGetGame::Assembling {
                map,
                team_size: _,
            } ==> (!(0 <= map@ < game_definition.maps@.len()) ==> r == self))),
            self matches GlobalState::CreateOrJoin(CreateOrJoinState::Join(_)) ==> (response
                matches Response::RejoinInfo(i) ==> (i == WireGetGame::NotFound ==> r == self)),
            self matches GlobalState::CreateOrJoin(CreateOrJoinState::Join(d)) ==> (response
                matches Response::RejoinInfo(_) ==> (d.login@.len() != 21 ==> r == self)),
    {
        match (self, response) {
            (GlobalState::SelectMap(s), Response::CreatedGame(created)) => {
                if created.map.raw() < game_definition.maps.len() {
                    let map = created.map;
                    GlobalState::join_game(created, game_definition, map)
                } else {
                    GlobalState::SelectMap(s)
                }
            },
            (GlobalState::CreateOrJoin(CreateOrJoinState::Join(s)), Response::GameInfo(info)) => {
                match info {
                    WireGetGame::NotFound => GlobalState::CreateOrJoin(CreateOrJoinState::Join(s)),
                    WireGetGame::Assembling { map, team_size: _ } => {
                        if map.raw() < game_definition.maps.len() {
                            let created = WireCreatedGame {
                                game_id: s.login,
                                map,
                                team_size: 0,
                                players: Vec::new(),
                            };
                            GlobalState::join_game(created, game_definition, map)
                        } else {
                            GlobalState::CreateOrJoin(CreateOrJoinState::Join(s))
                        }
                    },
                    WireGetGame::Running(WireRunningGame(snapshot)) => {
                        // An id-only lookup of a running session holds no
                        // credentials yet: wait for play with an empty
                        // login; its actions would be refused until a real
                        // rejoin supplies one.
                        GlobalState::WaitForGameCreation(
                            WaitForGameCreationState {
                                map: snapshot.map,
                                game_id: s.login,
                                login: String::new(),
                                id: Id::new(0),
                            },
                        )
                    },
                }
            },
            (GlobalState::CreateOrJoin(CreateOrJoinState::Join(s)), Response::RejoinInfo(info)) => {
                let n = s.login.as_str().unicode_len();
                if n != 21 {
                    return GlobalState::CreateOrJoin(CreateOrJoinState::Join(s));
                }
                let game_id = s.login.as_str().substring_char(0, 10).to_owned();
                let login = s.login.as_str().substring_char(11, 21).to_owned();
                match info {
                    WireGetGame::NotFound => GlobalState::CreateOrJoin(CreateOrJoinState::Join(s)),
                    WireGetGame::Assembling { map, team_size: _ } => {
                        GlobalState::WaitForGameCreation(
                            WaitForGameCreationState { map, game_id, login, id: Id::new(0) },
                        )
                    },
                    WireGetGame::Running(WireRunningGame(snapshot)) => {
                        GlobalState::PlayGame(
                            PlayGameState {
                                cell: Id::new(0),
                                map: snapshot.map,
                                game_id,
                                login,
                                id: Id::new(0),
                                is_our_turn: false,
                            },
                        )
                    },
                }
            },
            (GlobalState::CreateCharacter(c), Response::CreatedChar(created)) => {
                let WireCreatedChar(login, id) = created;
                GlobalState::WaitForGameCreation(
                    WaitForGameCreationState { map: c.map, game_id: c.game_id, login, id },
                )
            },
            (state, _) => state,
        }
    }

    /// The out-of-band signal that the awaited session became running:
    /// move from await-start to play, carrying the held credentials.  Any
    /// other state ignores the signal.
    pub fn notify_running(self) -> (r: GlobalState)
        ensures
            self matches GlobalState::WaitForGameCreation(w) ==> (r matches GlobalState::PlayGame(
                p,
            ) && p.map == w.map && p.game_id == w.game_id && p.login == w.login && p.id == w.id
                && !p.is_our_turn),
            !(self matches GlobalState::WaitForGameCreation(_)) ==> r == self,
    {
        match self {
            GlobalState::WaitForGameCreation(w) => GlobalState::PlayGame(
                PlayGameState {
                    cell: Id::new(0),
                    map: w.map,
                    game_id: w.game_id,
                    login: w.login,
                    id: w.id,
                    is_our_turn: false,
                },
            ),
            state => state,
        }
    }
}

impl CreateOrJoinState {
    /// One step of the lobby.  The arrow keys toggle between Create and
    /// Join mode; text editing applies only in Join mode; Confirm in
    /// Create mode opens map selection, Confirm in Join mode parses the
    /// buffer as a bare session id (ten characters, looked up) or as the
    /// compound `"{session-id}/{login-token}"` (twenty-one characters with
    /// the separator, looked up for rejoining) and stays otherwise.
    pub fn next(self, game_definition: &GameDefinition, event: Event) -> (r: (
        GlobalState,
        Option<Request>,
    ))
        requires
            game_definition.wf(),
        ensures
            r.0.wf(*game_definition),
            lobby_step(self, *game_definition, event, r.0, r.1),
    {
        match (self, event) {
            (CreateOrJoinState::Join(s), Event::Right)
            | (CreateOrJoinState::Join(s), Event::Up)
            | (CreateOrJoinState::Join(s), Event::Down)
            | (CreateOrJoinState::Join(s), Event::Left) => {
                (GlobalState::CreateOrJoin(CreateOrJoinState::Create(s)), None)
            },
            (CreateOrJoinState::Join(mut s), Event::PrintableString(string)) => {
                s.login.append(string.as_str());
                (GlobalState::CreateOrJoin(CreateOrJoinState::Join(s)), None)
            },
            (CreateOrJoinState::Join(mut s), Event::Backspace) => {
                let n = s.login.as_str().unicode_len();
                if n > 0 {
                    let shorter = s.login.as_str().substring_char(0, n - 1).to_owned();
                    s.login = shorter;
                }
                (GlobalState::CreateOrJoin(CreateOrJoinState::Join(s)), None)
            },
            (CreateOrJoinState::Join(s), Event::Cancel) => {
                (GlobalState::CreateOrJoin(CreateOrJoinState::Create(s)), None)
            },
            (CreateOrJoinState::Join(s), Event::Confirm) => {
                let n = s.login.as_str().unicode_len();
                if n == 10 {
                    let game_id = s.login.clone();
                    (
                        GlobalState::CreateOrJoin(CreateOrJoinState::Join(s)),
                        Some(Request::LookUpGame { game_id }),
                    )
                } else if n == 21 {
                    if s.login.as_str().get_char(10) == '/' {
                        let game_id = s.login.as_str().substring_char(0, 10).to_owned();
                        let login = s.login.as_str().substring_char(11, 21).to_owned();
                        (
                            GlobalState::CreateOrJoin(CreateOrJoinState::Join(s)),
                            Some(Request::Rejoin { game_id, login }),
                        )
                    } else {
                        (GlobalState::CreateOrJoin(CreateOrJoinState::Join(s)), None)
                    }
                } else {
                    (GlobalState::CreateOrJoin(CreateOrJoinState::Join(s)), None)
                }
            },
            (CreateOrJoinState::Create(s), Event::Right)
            | (CreateOrJoinState::Create(s), Event::Up)
            | (CreateOrJoinState::Create(s), Event::Down)
            | (CreateOrJoinState::Create(s), Event::Left) => {
                (GlobalState::CreateOrJoin(CreateOrJoinState::Join(s)), None)
            },
            (CreateOrJoinState::Create(_s), Event::Confirm) => {
                (GlobalState::SelectMap(SelectMapState::new(game_definition)), None)
            },
            (unchanged, _) => (GlobalState::CreateOrJoin(unchanged), None),
        }
    }
}

} // verus!
