//! The client-side screen state machine: one of five mutually exclusive
//! interaction modes — nickname entry, lobby, game lobby, game, winner —
//! consuming timer ticks, abstract user-input events and decoded protocol
//! messages, as one pure transition function from state and event to next
//! state and outbound commands. The surrounding application draws the
//! state, translates pointer positions into the abstract input events, and
//! performs the commands; no rendering notion appears here.
//!
//! An event that the active mode has no meaning for is consumed in place:
//! ignored, never fatal. A message naming an unknown entity is ignored the
//! same way.

use vstd::prelude::*;
use vstd::string::*;
use crate::assoc::{assoc_remove, assoc_sorted, assoc_upsert, AssocList};
use crate::board::{spec_apply_map_line, spec_has_cell, Board};
use crate::command::{ClientCommand, ClientCommandV};
use crate::model::{GameCell, MessageV, PlayType, ServerMessage};
use crate::text::{is_ws, push_char};

verus! {

/// How long the lobby waits before its first game-list request, in
/// milliseconds.
pub const FIRST_QUERY_DELAY_MS: u64 = 2000;

/// The fixed interval between game-list requests after that.
pub const QUERY_INTERVAL_MS: u64 = 1000;

/// The longest display or game name the editors accept.
pub const NAME_LIMIT: usize = 15;

/// An abstract user-interface event; the presentation layer turns raw
/// pointer and key input into these.
#[derive(Copy, Clone, Debug, PartialEq)]
pub enum UiEvent {
    /// A character typed into the active text field.
    Typed(char),
    /// Erase the last character of the active text field.
    Backspace,
    /// Confirm the active text field: the nickname, or the new game's name.
    Confirm,
    /// Leave the session from the lobby, back to nickname entry.
    Logout,
    /// Join the lobby's listed game at `index`, seated or watching.
    JoinGame { index: usize, typ: PlayType },
    /// Flip this session's readiness in the game lobby.
    ToggleReady,
    /// Claim a colour code in the game lobby.
    SelectColor(char),
    /// Act on a board cell.
    CellClick { row: usize, col: usize },
    /// Fully upgrade a board cell.
    CellUpgrade { row: usize, col: usize },
    /// The pointer now rests on this board cell, or on none.
    Hover { cell: Option<(usize, usize)> },
    /// End the current phase of the turn.
    NextPhase,
    /// Leave the current game or the winner display.
    Leave,
}

/// One step's stimulus: elapsed time, user input, or a decoded message.
#[derive(Debug, Clone, PartialEq)]
pub enum Event {
    Tick { ms: u64 },
    Input(UiEvent),
    Message(ServerMessage),
}

/// The mathematical value of an `Event`.
pub enum EventV {
    Tick { ms: u64 },
    Input(UiEvent),
    Message(MessageV),
}

impl View for Event {
    type V = EventV;

    open spec fn view(&self) -> EventV {
        match self {
            Event::Tick { ms } => EventV::Tick { ms: *ms },
            Event::Input(u) => EventV::Input(*u),
            Event::Message(m) => EventV::Message(m@),
        }
    }
}

/// What a transition asks the surrounding application to do.
#[derive(Debug, Clone, PartialEq)]
pub enum Command {
    /// Open the transport under this display name; the transport itself
    /// registers with `+name` once the connection is up.
    Connect(String),
    /// Drop the transport; the session is over.
    Disconnect,
    /// Send this request over the transport, best effort.
    Send(ClientCommand),
}

/// The mathematical value of a `Command`.
pub enum CommandV {
    Connect(Seq<char>),
    Disconnect,
    Send(ClientCommandV),
}

impl View for Command {
    type V = CommandV;

    open spec fn view(&self) -> CommandV {
        match self {
            Command::Connect(nick) => CommandV::Connect(nick@),
            Command::Disconnect => CommandV::Disconnect,
            Command::Send(c) => CommandV::Send(c@),
        }
    }
}

impl DeepView for Command {
    type V = CommandV;

    open spec fn deep_view(&self) -> CommandV {
        self.view()
    }
}

/// The active interaction mode, with everything it tracks.
#[derive(Debug, Clone, PartialEq)]
pub enum Screen {
    /// Entering a display name; the initial mode.
    Nickname { nick: String },
    /// Browsing the game list and editing the name for a new game.
    Lobby { nick: String, game_name: String, games: AssocList<usize>, query_timer: u64 },
    /// Waiting in a game for every player to be ready.
    GameLobby {
        nick: String,
        game: String,
        typ: PlayType,
        ready: bool,
        players: AssocList<bool>,
        colors: AssocList<char>,
    },
    /// Playing: the board, whose turn it is, the optional remaining-energy
    /// counter whose presence means the upgrade phase, the selected cell,
    /// this session's last reported hover, the other players' hovers and
    /// colours, and the cells this player may act on.
    Game {
        nick: String,
        board: Board,
        current_player: String,
        energy_left: Option<usize>,
        selected: Option<(usize, usize)>,
        hovered: Option<(usize, usize)>,
        hovers: AssocList<(usize, usize)>,
        colors: AssocList<char>,
        can_moves: Vec<(usize, usize)>,
    },
    /// Displaying who won, until the player leaves.
    Winner { nick: String, winner: String },
}

/// The mathematical value of a `Screen`.
pub enum ScreenV {
    Nickname { nick: Seq<char> },
    Lobby {
        nick: Seq<char>,
        game_name: Seq<char>,
        games: Seq<(Seq<char>, usize)>,
        query_timer: u64,
    },
    GameLobby {
        nick: Seq<char>,
        game: Seq<char>,
        typ: PlayType,
        ready: bool,
        players: Seq<(Seq<char>, bool)>,
        colors: Seq<(Seq<char>, char)>,
    },
    Game {
        nick: Seq<char>,
        board: Seq<Seq<Option<GameCell>>>,
        current_player: Seq<char>,
        energy_left: Option<usize>,
        selected: Option<(usize, usize)>,
        hovered: Option<(usize, usize)>,
        hovers: Seq<(Seq<char>, (usize, usize))>,
        colors: Seq<(Seq<char>, char)>,
        can_moves: Seq<(usize, usize)>,
    },
    Winner { nick: Seq<char>, winner: Seq<char> },
}

impl View for Screen {
    type V = ScreenV;

    open spec fn view(&self) -> ScreenV {
        match self {
            Screen::Nickname { nick } => ScreenV::Nickname { nick: nick@ },
            Screen::Lobby { nick, game_name, games, query_timer } => ScreenV::Lobby {
                nick: nick@,
                game_name: game_name@,
                games: games@,
                query_timer: *query_timer,
            },
            Screen::GameLobby { nick, game, typ, ready, players, colors } => ScreenV::GameLobby {
                nick: nick@,
                game: game@,
                typ: *typ,
                ready: *ready,
                players: players@,
                colors: colors@,
            },
            Screen::Game {
                nick,
                board,
                current_player,
                energy_left,
                selected,
                hovered,
                hovers,
                colors,
                can_moves,
            } => ScreenV::Game {
                nick: nick@,
                board: board@,
                current_player: current_player@,
                energy_left: *energy_left,
                selected: *selected,
                hovered: *hovered,
                hovers: hovers@,
                colors: colors@,
                can_moves: can_moves@,
            },
            Screen::Winner { nick, winner } => ScreenV::Winner { nick: nick@, winner: winner@ },
        }
    }
}

/// Every association a mode tracks is in name order.
pub open spec fn screen_wf(s: ScreenV) -> bool {
    match s {
        ScreenV::Nickname { .. } => true,
        ScreenV::Lobby { games, .. } => assoc_sorted(games),
        ScreenV::GameLobby { players, colors, .. } => assoc_sorted(players) && assoc_sorted(
            colors,
        ),
        ScreenV::Game { hovers, colors, .. } => assoc_sorted(hovers) && assoc_sorted(colors),
        ScreenV::Winner { .. } => true,
    }
}

/// A freshly entered lobby: the name field pre-filled as the presentation
/// suggests a new game's name, no games listed yet, and the first list
/// request due after the initial delay.
pub open spec fn spec_fresh_lobby(nick: Seq<char>) -> ScreenV {
    ScreenV::Lobby {
        nick: nick,
        game_name: "newgame"@,
        games: Seq::empty(),
        query_timer: FIRST_QUERY_DELAY_MS,
    }
}

/// One character of text-field editing: printable input is appended up to
/// the length cap; whitespace never enters a name, which keeps every name
/// a well-formed wire token.
pub open spec fn spec_edit(text: Seq<char>, u: UiEvent) -> Seq<char> {
    match u {
        UiEvent::Typed(c) => if !is_ws(c) && text.len() < NAME_LIMIT {
            text.push(c)
        } else {
            text
        },
        UiEvent::Backspace => if text.len() > 0 {
            text.drop_last()
        } else {
            text
        },
        _ => text,
    }
}

/// Nickname entry: edit the name; on confirmation of a non-empty name,
/// open the transport under it and move to the lobby.
pub open spec fn spec_nickname_step(nick: Seq<char>, e: EventV) -> (ScreenV, Seq<CommandV>) {
    match e {
        EventV::Input(u) => match u {
            UiEvent::Typed(_) | UiEvent::Backspace => (
                ScreenV::Nickname { nick: spec_edit(nick, u) },
                seq![],
            ),
            UiEvent::Confirm => if nick.len() > 0 {
                (spec_fresh_lobby(nick), seq![CommandV::Connect(nick)])
            } else {
                (ScreenV::Nickname { nick }, seq![])
            },
            _ => (ScreenV::Nickname { nick }, seq![]),
        },
        _ => (ScreenV::Nickname { nick }, seq![]),
    }
}

/// The lobby: ask for the game list at a fixed interval, keep the
/// name-to-player-count listing current, edit the new game's name, create
/// or join games, and move on once the relay confirms an entered game.
pub open spec fn spec_lobby_step(
    nick: Seq<char>,
    game_name: Seq<char>,
    games: Seq<(Seq<char>, usize)>,
    query_timer: u64,
    e: EventV,
) -> (ScreenV, Seq<CommandV>) {
    let same = ScreenV::Lobby { nick, game_name, games, query_timer };
    match e {
        EventV::Tick { ms } => if ms > query_timer {
            (
                ScreenV::Lobby { nick, game_name, games, query_timer: QUERY_INTERVAL_MS },
                seq![CommandV::Send(ClientCommandV::ListGames)],
            )
        } else {
            (
                ScreenV::Lobby { nick, game_name, games, query_timer: (query_timer - ms) as u64 },
                seq![],
            )
        },
        EventV::Message(m) => match m {
            MessageV::GameList { name, player_count } => (
                ScreenV::Lobby {
                    nick,
                    game_name,
                    games: assoc_upsert(games, name, player_count),
                    query_timer,
                },
                seq![],
            ),
            MessageV::GameEntered { name, typ } => (
                ScreenV::GameLobby {
                    nick,
                    game: name,
                    typ,
                    ready: false,
                    players: Seq::empty(),
                    colors: Seq::empty(),
                },
                seq![],
            ),
            _ => (same, seq![]),
        },
        EventV::Input(u) => match u {
            UiEvent::Typed(_) | UiEvent::Backspace => (
                ScreenV::Lobby { nick, game_name: spec_edit(game_name, u), games, query_timer },
                seq![],
            ),
            UiEvent::Confirm => if game_name.len() > 0 {
                (same, seq![CommandV::Send(ClientCommandV::CreateGame(game_name))])
            } else {
                (same, seq![])
            },
            UiEvent::Logout => (
                ScreenV::Nickname { nick: Seq::empty() },
                seq![CommandV::Send(ClientCommandV::Detach), CommandV::Disconnect],
            ),
            UiEvent::JoinGame { index, typ } => if index < games.len() {
                (same, seq![CommandV::Send(ClientCommandV::JoinGame(games[index as int].0, typ))])
            } else {
                (same, seq![])
            },
            _ => (same, seq![]),
        },
    }
}

/// The game lobby: track each player's readiness and colour, flip and
/// announce this session's own readiness, claim colours, and move to the
/// game on its start — or back to the lobby when the relay confirms this
/// session left.
pub open spec fn spec_game_lobby_step(
    nick: Seq<char>,
    game: Seq<char>,
    typ: PlayType,
    ready: bool,
    players: Seq<(Seq<char>, bool)>,
    colors: Seq<(Seq<char>, char)>,
    e: EventV,
) -> (ScreenV, Seq<CommandV>) {
    let same = ScreenV::GameLobby { nick, game, typ, ready, players, colors };
    match e {
        EventV::Message(m) => match m {
            MessageV::ReadyStatus { nick: n, ready: r } => if n == nick {
                (ScreenV::GameLobby { nick, game, typ, ready: r, players, colors }, seq![])
            } else {
                (
                    ScreenV::GameLobby {
                        nick,
                        game,
                        typ,
                        ready,
                        players: assoc_upsert(players, n, r),
                        colors,
                    },
                    seq![],
                )
            },
            MessageV::GameStart => (
                ScreenV::Game {
                    nick,
                    board: Seq::empty(),
                    current_player: Seq::empty(),
                    energy_left: None,
                    selected: None,
                    hovered: None,
                    hovers: Seq::empty(),
                    colors: Seq::empty(),
                    can_moves: Seq::empty(),
                },
                seq![],
            ),
            MessageV::GameLeft { nick: n } => if n == nick {
                (spec_fresh_lobby(nick), seq![])
            } else {
                (
                    ScreenV::GameLobby {
                        nick,
                        game,
                        typ,
                        ready,
                        players: assoc_remove(players, n),
                        colors: assoc_remove(colors, n),
                    },
                    seq![],
                )
            },
            MessageV::PlayerColor { nick: n, color } => (
                ScreenV::GameLobby {
                    nick,
                    game,
                    typ,
                    ready,
                    players,
                    colors: assoc_upsert(colors, n, color),
                },
                seq![],
            ),
            _ => (same, seq![]),
        },
        EventV::Input(u) => match u {
            UiEvent::ToggleReady => (
                ScreenV::GameLobby { nick, game, typ, ready: !ready, players, colors },
                seq![
                    CommandV::Send(
                        if !ready {
                            ClientCommandV::Ready
                        } else {
                            ClientCommandV::Unready
                        },
                    ),
                ],
            ),
            UiEvent::SelectColor(c) => if 'A' <= c && c <= 'F' {
                (same, seq![CommandV::Send(ClientCommandV::SelectColor(c))])
            } else {
                (same, seq![])
            },
            UiEvent::Leave => (same, seq![CommandV::Send(ClientCommandV::LeaveGame)]),
            _ => (same, seq![]),
        },
        _ => (same, seq![]),
    }
}

/// The game: apply board and turn bookkeeping messages, translate cell
/// actions into requests, report hover changes exactly once, and move to
/// the winner display on the game's end — or back to the lobby when the
/// relay confirms this session left.
pub open spec fn spec_game_step(
    nick: Seq<char>,
    board: Seq<Seq<Option<GameCell>>>,
    current_player: Seq<char>,
    energy_left: Option<usize>,
    selected: Option<(usize, usize)>,
    hovered: Option<(usize, usize)>,
    hovers: Seq<(Seq<char>, (usize, usize))>,
    colors: Seq<(Seq<char>, char)>,
    can_moves: Seq<(usize, usize)>,
    e: EventV,
) -> (ScreenV, Seq<CommandV>) {
    let same = ScreenV::Game {
        nick,
        board,
        current_player,
        energy_left,
        selected,
        hovered,
        hovers,
        colors,
        can_moves,
    };
    match e {
        EventV::Message(m) => match m {
            MessageV::MapLine(index, cells) => (
                ScreenV::Game {
                    nick,
                    board: spec_apply_map_line(board, index as int, cells),
                    current_player,
                    energy_left,
                    selected,
                    hovered,
                    hovers,
                    colors,
                    can_moves,
                },
                seq![],
            ),
            MessageV::UpgradePhase => (
                ScreenV::Game {
                    nick,
                    board,
                    current_player,
                    energy_left,
                    selected: None,
                    hovered,
                    hovers,
                    colors,
                    can_moves,
                },
                seq![],
            ),
            MessageV::SelectCell { row, col } => (
                ScreenV::Game {
                    nick,
                    board,
                    current_player,
                    energy_left,
                    selected: Some((row, col)),
                    hovered,
                    hovers,
                    colors,
                    can_moves,
                },
                seq![],
            ),
            MessageV::DeselectCell => (
                ScreenV::Game {
                    nick,
                    board,
                    current_player,
                    energy_left,
                    selected: None,
                    hovered,
                    hovers,
                    colors,
                    can_moves,
                },
                seq![],
            ),
            MessageV::Turn { nick: n } => (
                ScreenV::Game {
                    nick,
                    board,
                    current_player: n,
                    energy_left: None,
                    selected,
                    hovered,
                    hovers,
                    colors,
                    can_moves,
                },
                seq![],
            ),
            MessageV::EnergyLeft(energy) => (
                ScreenV::Game {
                    nick,
                    board,
                    current_player,
                    energy_left: Some(energy),
                    selected,
                    hovered,
                    hovers,
                    colors,
                    can_moves,
                },
                seq![],
            ),
            MessageV::GameFinish { winner } => (ScreenV::Winner { nick, winner }, seq![]),
            MessageV::GameLeft { nick: n } => if n == nick {
                (spec_fresh_lobby(nick), seq![])
            } else {
                (same, seq![])
            },
            MessageV::PlayerColor { nick: n, color } => (
                ScreenV::Game {
                    nick,
                    board,
                    current_player,
                    energy_left,
                    selected,
                    hovered,
                    hovers,
                    colors: assoc_upsert(colors, n, color),
                    can_moves,
                },
                seq![],
            ),
            MessageV::HoverCell { nick: n, row, col } => if n != nick {
                (
                    ScreenV::Game {
                        nick,
                        board,
                        current_player,
                        energy_left,
                        selected,
                        hovered,
                        hovers: assoc_upsert(hovers, n, (row, col)),
                        colors,
                        can_moves,
                    },
                    seq![],
                )
            } else {
                (same, seq![])
            },
            MessageV::HoverNone { nick: n } => (
                ScreenV::Game {
                    nick,
                    board,
                    current_player,
                    energy_left,
                    selected,
                    hovered,
                    hovers: assoc_remove(hovers, n),
                    colors,
                    can_moves,
                },
                seq![],
            ),
            MessageV::CanMove { cells } => (
                ScreenV::Game {
                    nick,
                    board,
                    current_player,
                    energy_left,
                    selected,
                    hovered,
                    hovers,
                    colors,
                    can_moves: cells,
                },
                seq![],
            ),
            _ => (same, seq![]),
        },
        EventV::Input(u) => match u {
            UiEvent::CellClick { row, col } => if spec_has_cell(board, row as int, col as int) {
                (same, seq![CommandV::Send(ClientCommandV::Attack(row, col))])
            } else {
                (same, seq![])
            },
            UiEvent::CellUpgrade { row, col } => if spec_has_cell(board, row as int, col as int) {
                (same, seq![CommandV::Send(ClientCommandV::FullUpgrade(row, col))])
            } else {
                (same, seq![])
            },
            UiEvent::Hover { cell } => if cell != hovered && (match cell {
                Some((row, col)) => spec_has_cell(board, row as int, col as int),
                None => true,
            }) {
                (
                    ScreenV::Game {
                        nick,
                        board,
                        current_player,
                        energy_left,
                        selected,
                        hovered: cell,
                        hovers,
                        colors,
                        can_moves,
                    },
                    seq![
                        CommandV::Send(
                            match cell {
                                Some((row, col)) => ClientCommandV::Hover(row, col),
                                None => ClientCommandV::HoverNone,
                            },
                        ),
                    ],
                )
            } else {
                (same, seq![])
            },
            UiEvent::NextPhase => (same, seq![CommandV::Send(ClientCommandV::NextPhase)]),
            UiEvent::Leave => (same, seq![CommandV::Send(ClientCommandV::LeaveGame)]),
            _ => (same, seq![]),
        },
        _ => (same, seq![]),
    }
}

/// The winner display: confirmation returns to the lobby quietly, an
/// explicit leave announces it first.
pub open spec fn spec_winner_step(nick: Seq<char>, winner: Seq<char>, e: EventV) -> (
    ScreenV,
    Seq<CommandV>,
) {
    match e {
        EventV::Input(u) => match u {
            UiEvent::Confirm => (spec_fresh_lobby(nick), seq![]),
            UiEvent::Leave => (
                spec_fresh_lobby(nick),
                seq![CommandV::Send(ClientCommandV::LeaveGame)],
            ),
            _ => (ScreenV::Winner { nick, winner }, seq![]),
        },
        _ => (ScreenV::Winner { nick, winner }, seq![]),
    }
}

fn cmds0() -> (r: Vec<Command>)
    ensures
        r.deep_view() == Seq::<CommandV>::empty(),
{
    let r: Vec<Command> = Vec::new();
    proof {
        assert(r.deep_view() =~~= Seq::<CommandV>::empty());
    }
    r
}

fn cmds1(c: Command) -> (r: Vec<Command>)
    ensures
        r.deep_view() == seq![c@],
{
    let ghost cv = c@;
    let mut r: Vec<Command> = Vec::new();
    r.push(c);
    proof {
        assert(r.deep_view() =~~= seq![cv]);
    }
    r
}

fn cmds2(a: Command, b: Command) -> (r: Vec<Command>)
    ensures
        r.deep_view() == seq![a@, b@],
{
    let ghost av = a@;
    let ghost bv = b@;
    let mut r: Vec<Command> = Vec::new();
    r.push(a);
    r.push(b);
    proof {
        assert(r.deep_view() =~~= seq![av, bv]);
    }
    r
}

/// Applies one editing event to a text field.
fn edit_field(text: String, u: UiEvent) -> (r: String)
    ensures
        r@ == spec_edit(text@, u),
{
    match u {
        UiEvent::Typed(c) => {
            if !crate::text::ws_char(c) && text.as_str().unicode_len() < NAME_LIMIT {
                let mut text = text;
                push_char(&mut text, c);
                text
            } else {
                text
            }
        },
        UiEvent::Backspace => {
            let n = text.as_str().unicode_len();
            if n > 0 {
                let shorter = text.as_str().substring_char(0, n - 1).to_owned();
                proof {
                    assert(shorter@ =~= text@.drop_last());
                }
                shorter
            } else {
                text
            }
        },
        _ => text,
    }
}

/// Whether two optional cell positions are the same.
fn opt_cell_eq(a: Option<(usize, usize)>, b: Option<(usize, usize)>) -> (r: bool)
    ensures
        r == (a == b),
{
    match (a, b) {
        (None, None) => true,
        (Some(x), Some(y)) => x.0 == y.0 && x.1 == y.1,
        _ => false,
    }
}

fn nick_eq(a: &String, b: &String) -> (r: bool)
    ensures
        r == (a@ == b@),
{
    *a == *b
}

fn step_nickname(nick: String, event: Event) -> (r: (Screen, Vec<Command>))
    ensures
        (r.0@, r.1.deep_view()) == spec_nickname_step(nick@, event@),
        screen_wf(r.0@),
{
    match event {
        Event::Input(u) => match u {
            UiEvent::Typed(_) | UiEvent::Backspace => (
                Screen::Nickname { nick: edit_field(nick, u) },
                cmds0(),
            ),
            UiEvent::Confirm => {
                if nick.as_str().unicode_len() > 0 {
                    let lobby = fresh_lobby(nick.clone());
                    (lobby, cmds1(Command::Connect(nick)))
                } else {
                    (Screen::Nickname { nick }, cmds0())
                }
            },
            _ => (Screen::Nickname { nick }, cmds0()),
        },
        _ => (Screen::Nickname { nick }, cmds0()),
    }
}

/// A freshly entered lobby.
fn fresh_lobby(nick: String) -> (r: Screen)
    ensures
        r@ == spec_fresh_lobby(nick@),
        screen_wf(r@),
{
    Screen::Lobby {
        nick,
        game_name: String::from_str("newgame"),
        games: AssocList::new(),
        query_timer: FIRST_QUERY_DELAY_MS,
    }
}

fn step_lobby(
    nick: String,
    game_name: String,
    games: AssocList<usize>,
    query_timer: u64,
    event: Event,
) -> (r: (Screen, Vec<Command>))
    requires
        assoc_sorted(games@),
    ensures
        (r.0@, r.1.deep_view()) == spec_lobby_step(nick@, game_name@, games@, query_timer, event@),
        screen_wf(r.0@),
{
    match event {
        Event::Tick { ms } => {
            if ms > query_timer {
                (
                    Screen::Lobby { nick, game_name, games, query_timer: QUERY_INTERVAL_MS },
                    cmds1(Command::Send(ClientCommand::ListGames)),
                )
            } else {
                (
                    Screen::Lobby { nick, game_name, games, query_timer: query_timer - ms },
                    cmds0(),
                )
            }
        },
        Event::Message(m) => match m {
            ServerMessage::GameList { name, player_count } => {
                let mut games = games;
                games.upsert(name.as_str(), player_count);
                (Screen::Lobby { nick, game_name, games, query_timer }, cmds0())
            },
            ServerMessage::GameEntered { name, typ } => (
                Screen::GameLobby {
                    nick,
                    game: name,
                    typ,
                    ready: false,
                    players: AssocList::new(),
                    colors: AssocList::new(),
                },
                cmds0(),
            ),
            _ => (Screen::Lobby { nick, game_name, games, query_timer }, cmds0()),
        },
        Event::Input(u) => match u {
            UiEvent::Typed(_) | UiEvent::Backspace => (
                Screen::Lobby { nick, game_name: edit_field(game_name, u), games, query_timer },
                cmds0(),
            ),
            UiEvent::Confirm => {
                if game_name.as_str().unicode_len() > 0 {
                    let request = Command::Send(ClientCommand::CreateGame(game_name.clone()));
                    (Screen::Lobby { nick, game_name, games, query_timer }, cmds1(request))
                } else {
                    (Screen::Lobby { nick, game_name, games, query_timer }, cmds0())
                }
            },
            UiEvent::Logout => (
                Screen::Nickname { nick: String::new() },
                cmds2(Command::Send(ClientCommand::Detach), Command::Disconnect),
            ),
            UiEvent::JoinGame { index, typ } => {
                if index < games.len() {
                    let game = games.name_at(index);
                    let request = Command::Send(ClientCommand::JoinGame(game, typ));
                    (Screen::Lobby { nick, game_name, games, query_timer }, cmds1(request))
                } else {
                    (Screen::Lobby { nick, game_name, games, query_timer }, cmds0())
                }
            },
            _ => (Screen::Lobby { nick, game_name, games, query_timer }, cmds0()),
        },
    }
}

fn step_game_lobby(
    nick: String,
    game: String,
    typ: PlayType,
    ready: bool,
    players: AssocList<bool>,
    colors: AssocList<char>,
    event: Event,
) -> (r: (Screen, Vec<Command>))
    requires
        assoc_sorted(players@),
        assoc_sorted(colors@),
    ensures
        (r.0@, r.1.deep_view()) == spec_game_lobby_step(
            nick@,
            game@,
            typ,
            ready,
            players@,
            colors@,
            event@,
        ),
        screen_wf(r.0@),
{
    match event {
        Event::Message(m) => match m {
            ServerMessage::ReadyStatus { nick: n, ready: r } => {
                if nick_eq(&n, &nick) {
                    (Screen::GameLobby { nick, game, typ, ready: r, players, colors }, cmds0())
                } else {
                    let mut players = players;
                    players.upsert(n.as_str(), r);
                    (Screen::GameLobby { nick, game, typ, ready, players, colors }, cmds0())
                }
            },
            ServerMessage::GameStart => (
                Screen::Game {
                    nick,
                    board: Board::new(),
                    current_player: String::new(),
                    energy_left: None,
                    selected: None,
                    hovered: None,
                    hovers: AssocList::new(),
                    colors: AssocList::new(),
                    can_moves: Vec::new(),
                },
                cmds0(),
            ),
            ServerMessage::GameLeft { nick: n } => {
                if nick_eq(&n, &nick) {
                    (fresh_lobby(nick), cmds0())
                } else {
                    let mut players = players;
                    let mut colors = colors;
                    players.remove(n.as_str());
                    colors.remove(n.as_str());
                    (Screen::GameLobby { nick, game, typ, ready, players, colors }, cmds0())
                }
            },
            ServerMessage::PlayerColor { nick: n, color } => {
                let mut colors = colors;
                colors.upsert(n.as_str(), color);
                (Screen::GameLobby { nick, game, typ, ready, players, colors }, cmds0())
            },
            _ => (Screen::GameLobby { nick, game, typ, ready, players, colors }, cmds0()),
        },
        Event::Input(u) => match u {
            UiEvent::ToggleReady => {
                let request = Command::Send(
                    if !ready {
                        ClientCommand::Ready
                    } else {
                        ClientCommand::Unready
                    },
                );
                (
                    Screen::GameLobby { nick, game, typ, ready: !ready, players, colors },
                    cmds1(request),
                )
            },
            UiEvent::SelectColor(c) => {
                if 'A' <= c && c <= 'F' {
                    (
                        Screen::GameLobby { nick, game, typ, ready, players, colors },
                        cmds1(Command::Send(ClientCommand::SelectColor(c))),
                    )
                } else {
                    (Screen::GameLobby { nick, game, typ, ready, players, colors }, cmds0())
                }
            },
            UiEvent::Leave => (
                Screen::GameLobby { nick, game, typ, ready, players, colors },
                cmds1(Command::Send(ClientCommand::LeaveGame)),
            ),
            _ => (Screen::GameLobby { nick, game, typ, ready, players, colors }, cmds0()),
        },
        _ => (Screen::GameLobby { nick, game, typ, ready, players, colors }, cmds0()),
    }
}

fn step_game(
    nick: String,
    board: Board,
    current_player: String,
    energy_left: Option<usize>,
    selected: Option<(usize, usize)>,
    hovered: Option<(usize, usize)>,
    hovers: AssocList<(usize, usize)>,
    colors: AssocList<char>,
    can_moves: Vec<(usize, usize)>,
    event: Event,
) -> (r: (Screen, Vec<Command>))
    requires
        assoc_sorted(hovers@),
        assoc_sorted(colors@),
    ensures
        (r.0@, r.1.deep_view()) == spec_game_step(
            nick@,
            board@,
            current_player@,
            energy_left,
            selected,
            hovered,
            hovers@,
            colors@,
            can_moves@,
            event@,
        ),
        screen_wf(r.0@),
{
    match event {
        Event::Message(m) => match m {
            ServerMessage::MapLine(index, cells) => {
                let mut board = board;
                board.apply_map_line(index, cells);
                (
                    Screen::Game {
                        nick,
                        board,
                        current_player,
                        energy_left,
                        selected,
                        hovered,
                        hovers,
                        colors,
                        can_moves,
                    },
                    cmds0(),
                )
            },
            ServerMessage::UpgradePhase => (
                Screen::Game {
                    nick,
                    board,
                    current_player,
                    energy_left,
                    selected: None,
                    hovered,
                    hovers,
                    colors,
                    can_moves,
                },
                cmds0(),
            ),
            ServerMessage::SelectCell { row, col } => (
                Screen::Game {
                    nick,
                    board,
                    current_player,
                    energy_left,
                    selected: Some((row, col)),
                    hovered,
                    hovers,
                    colors,
                    can_moves,
                },
                cmds0(),
            ),
            ServerMessage::DeselectCell => (
                Screen::Game {
                    nick,
                    board,
                    current_player,
                    energy_left,
                    selected: None,
                    hovered,
                    hovers,
                    colors,
                    can_moves,
                },
                cmds0(),
            ),
            ServerMessage::Turn { nick: n } => (
                Screen::Game {
                    nick,
                    board,
                    current_player: n,
                    energy_left: None,
                    selected,
                    hovered,
                    hovers,
                    colors,
                    can_moves,
                },
                cmds0(),
            ),
            ServerMessage::EnergyLeft(energy) => (
                Screen::Game {
                    nick,
                    board,
                    current_player,
                    energy_left: Some(energy),
                    selected,
                    hovered,
                    hovers,
                    colors,
                    can_moves,
                },
                cmds0(),
            ),
            ServerMessage::GameFinish { winner } => (Screen::Winner { nick, winner }, cmds0()),
            ServerMessage::GameLeft { nick: n } => {
                if nick_eq(&n, &nick) {
                    (fresh_lobby(nick), cmds0())
                } else {
                    (
                        Screen::Game {
                            nick,
                            board,
                            current_player,
                            energy_left,
                            selected,
                            hovered,
                            hovers,
                            colors,
                            can_moves,
                        },
                        cmds0(),
                    )
                }
            },
            ServerMessage::PlayerColor { nick: n, color } => {
                let mut colors = colors;
                colors.upsert(n.as_str(), color);
                (
                    Screen::Game {
                        nick,
                        board,
                        current_player,
                        energy_left,
                        selected,
                        hovered,
                        hovers,
                        colors,
                        can_moves,
                    },
                    cmds0(),
                )
            },
            ServerMessage::HoverCell { nick: n, row, col } => {
                if !nick_eq(&n, &nick) {
                    let mut hovers = hovers;
                    hovers.upsert(n.as_str(), (row, col));
                    (
                        Screen::Game {
                            nick,
                            board,
                            current_player,
                            energy_left,
                            selected,
                            hovered,
                            hovers,
                            colors,
                            can_moves,
                        },
                        cmds0(),
                    )
                } else {
                    (
                        Screen::Game {
                            nick,
                            board,
                            current_player,
                            energy_left,
                            selected,
                            hovered,
                            hovers,
                            colors,
                            can_moves,
                        },
                        cmds0(),
                    )
                }
            },
            ServerMessage::HoverNone { nick: n } => {
                let mut hovers = hovers;
                hovers.remove(n.as_str());
                (
                    Screen::Game {
                        nick,
                        board,
                        current_player,
                        energy_left,
                        selected,
                        hovered,
                        hovers,
                        colors,
                        can_moves,
                    },
                    cmds0(),
                )
            },
            ServerMessage::CanMove { cells } => (
                Screen::Game {
                    nick,
                    board,
                    current_player,
                    energy_left,
                    selected,
                    hovered,
                    hovers,
                    colors,
                    can_moves: cells,
                },
                cmds0(),
            ),
            _ => (
                Screen::Game {
                    nick,
                    board,
                    current_player,
                    energy_left,
                    selected,
                    hovered,
                    hovers,
                    colors,
                    can_moves,
                },
                cmds0(),
            ),
        },
        Event::Input(u) => match u {
            UiEvent::CellClick { row, col } => {
                let hit = board.has_cell(row, col);
                let state = Screen::Game {
                    nick,
                    board,
                    current_player,
                    energy_left,
                    selected,
                    hovered,
                    hovers,
                    colors,
                    can_moves,
                };
                if hit {
                    (state, cmds1(Command::Send(ClientCommand::Attack(row, col))))
                } else {
                    (state, cmds0())
                }
            },
            UiEvent::CellUpgrade { row, col } => {
                let hit = board.has_cell(row, col);
                let state = Screen::Game {
                    nick,
                    board,
                    current_player,
                    energy_left,
                    selected,
                    hovered,
                    hovers,
                    colors,
                    can_moves,
                };
                if hit {
                    (state, cmds1(Command::Send(ClientCommand::FullUpgrade(row, col))))
                } else {
                    (state, cmds0())
                }
            },
            UiEvent::Hover { cell } => {
                let moved = !opt_cell_eq(cell, hovered);
                let onto_board = match cell {
                    Some((row, col)) => board.has_cell(row, col),
                    None => true,
                };
                if moved && onto_board {
                    let request = Command::Send(
                        match cell {
                            Some((row, col)) => ClientCommand::Hover(row, col),
                            None => ClientCommand::HoverNone,
                        },
                    );
                    (
                        Screen::Game {
                            nick,
                            board,
                            current_player,
                            energy_left,
                            selected,
                            hovered: cell,
                            hovers,
                            colors,
                            can_moves,
                        },
                        cmds1(request),
                    )
                } else {
                    (
                        Screen::Game {
                            nick,
                            board,
                            current_player,
                            energy_left,
                            selected,
                            hovered,
                            hovers,
                            colors,
                            can_moves,
                        },
                        cmds0(),
                    )
                }
            },
            UiEvent::NextPhase => (
                Screen::Game {
                    nick,
                    board,
                    current_player,
                    energy_left,
                    selected,
                    hovered,
                    hovers,
                    colors,
                    can_moves,
                },
                cmds1(Command::Send(ClientCommand::NextPhase)),
            ),
            UiEvent::Leave => (
                Screen::Game {
                    nick,
                    board,
                    current_player,
                    energy_left,
                    selected,
                    hovered,
                    hovers,
                    colors,
                    can_moves,
                },
                cmds1(Command::Send(ClientCommand::LeaveGame)),
            ),
            _ => (
                Screen::Game {
                    nick,
                    board,
                    current_player,
                    energy_left,
                    selected,
                    hovered,
                    hovers,
                    colors,
                    can_moves,
                },
                cmds0(),
            ),
        },
        _ => (
            Screen::Game {
                nick,
                board,
                current_player,
                energy_left,
                selected,
                hovered,
                hovers,
                colors,
                can_moves,
            },
            cmds0(),
        ),
    }
}

fn step_winner(nick: String, winner: String, event: Event) -> (r: (Screen, Vec<Command>))
    ensures
        (r.0@, r.1.deep_view()) == spec_winner_step(nick@, winner@, event@),
        screen_wf(r.0@),
{
    match event {
        Event::Input(u) => match u {
            UiEvent::Confirm => (fresh_lobby(nick), cmds0()),
            UiEvent::Leave => (
                fresh_lobby(nick),
                cmds1(Command::Send(ClientCommand::LeaveGame)),
            ),
            _ => (Screen::Winner { nick, winner }, cmds0()),
        },
        _ => (Screen::Winner { nick, winner }, cmds0()),
    }
}

impl Screen {
    /// Where every session starts: nickname entry with an empty name.
    pub fn initial() -> (r: Screen)
        ensures
            r@ == (ScreenV::Nickname { nick: Seq::<char>::empty() }),
            screen_wf(r@),
    {
        Screen::Nickname { nick: String::new() }
    }

    /// Consumes one event: the next active mode and the commands the
    /// application must perform, exactly as the transition model says.
    pub fn handle(self, event: Event) -> (r: (Screen, Vec<Command>))
        requires
            screen_wf(self@),
        ensures
            (r.0@, r.1.deep_view()) == spec_handle(self@, event@),
            screen_wf(r.0@),
    {
        match self {
            Screen::Nickname { nick } => step_nickname(nick, event),
            Screen::Lobby { nick, game_name, games, query_timer } => step_lobby(
                nick,
                game_name,
                games,
                query_timer,
                event,
            ),
            Screen::GameLobby { nick, game, typ, ready, players, colors } => step_game_lobby(
                nick,
                game,
                typ,
                ready,
                players,
                colors,
                event,
            ),
            Screen::Game {
                nick,
                board,
                current_player,
                energy_left,
                selected,
                hovered,
                hovers,
                colors,
                can_moves,
            } => step_game(
                nick,
                board,
                current_player,
                energy_left,
                selected,
                hovered,
                hovers,
                colors,
                can_moves,
                event,
            ),
            Screen::Winner { nick, winner } => step_winner(nick, winner, event),
        }
    }
}

/// The fixed display colour of a player's colour code; the protocol only
/// ever assigns the codes `A` through `F`.
#[derive(Copy, Clone, Debug, PartialEq, Eq, Structural)]
pub enum DisplayColor {
    Red,
    Green,
    Blue,
    Yellow,
    Magenta,
    Cyan,
}

pub open spec fn spec_player_color(color: char) -> DisplayColor {
    if color == 'A' {
        DisplayColor::Red
    } else if color == 'B' {
        DisplayColor::Green
    } else if color == 'C' {
        DisplayColor::Blue
    } else if color == 'D' {
        DisplayColor::Yellow
    } else if color == 'E' {
        DisplayColor::Magenta
    } else {
        DisplayColor::Cyan
    }
}

/// The display colour shown for a colour code.
pub fn player_color(color: char) -> (r: DisplayColor)
    requires
        'A' <= color && color <= 'F',
    ensures
        r == spec_player_color(color),
{
    if color == 'A' {
        DisplayColor::Red
    } else if color == 'B' {
        DisplayColor::Green
    } else if color == 'C' {
        DisplayColor::Blue
    } else if color == 'D' {
        DisplayColor::Yellow
    } else if color == 'E' {
        DisplayColor::Magenta
    } else {
        DisplayColor::Cyan
    }
}

/// The whole machine's transition: what the active mode makes of one
/// event.
pub open spec fn spec_handle(s: ScreenV, e: EventV) -> (ScreenV, Seq<CommandV>) {
    match s {
        ScreenV::Nickname { nick } => spec_nickname_step(nick, e),
        ScreenV::Lobby { nick, game_name, games, query_timer } => spec_lobby_step(
            nick,
            game_name,
            games,
            query_timer,
            e,
        ),
        ScreenV::GameLobby { nick, game, typ, ready, players, colors } => spec_game_lobby_step(
            nick,
            game,
            typ,
            ready,
            players,
            colors,
            e,
        ),
        ScreenV::Game {
            nick,
            board,
            current_player,
            energy_left,
            selected,
            hovered,
            hovers,
            colors,
            can_moves,
        } => spec_game_step(
            nick,
            board,
            current_player,
            energy_left,
            selected,
            hovered,
            hovers,
            colors,
            can_moves,
            e,
        ),
        ScreenV::Winner { nick, winner } => spec_winner_step(nick, winner, e),
    }
}

} // verus!
