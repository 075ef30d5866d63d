use troll_invasion::assoc::AssocList;
use troll_invasion::board::Board;
use troll_invasion::command::ClientCommand;
use troll_invasion::model::{GameCell, PlayType, ServerMessage};
use troll_invasion::screen::{
    player_color, Command, DisplayColor, Event, Screen, UiEvent,
};

fn fresh_game(nick: &str) -> Screen {
    Screen::Game {
        nick: String::from(nick),
        board: Board::new(),
        current_player: String::new(),
        energy_left: None,
        selected: None,
        hovered: None,
        hovers: AssocList::new(),
        colors: AssocList::new(),
        can_moves: Vec::new(),
    }
}

fn enter_name(mut screen: Screen, name: &str) -> Screen {
    for c in name.chars() {
        let (next, cmds) = screen.handle(Event::Input(UiEvent::Typed(c)));
        assert!(cmds.is_empty());
        screen = next;
    }
    screen
}

#[test]
fn nickname_confirm_enters_lobby_and_connects() {
    let screen = enter_name(Screen::initial(), "alice");
    let (next, cmds) = screen.handle(Event::Input(UiEvent::Confirm));
    assert_eq!(cmds, vec![Command::Connect(String::from("alice"))]);
    match next {
        Screen::Lobby { nick, .. } => assert_eq!(nick, "alice"),
        other => panic!("expected the lobby, got {:?}", other),
    }
}

#[test]
fn nickname_empty_confirm_stays() {
    let (next, cmds) = Screen::initial().handle(Event::Input(UiEvent::Confirm));
    assert!(cmds.is_empty());
    assert!(matches!(next, Screen::Nickname { .. }));
}

#[test]
fn nickname_editing_caps_length_and_drops_whitespace() {
    let screen = enter_name(Screen::initial(), "abcdefghijklmnopqrst");
    match &screen {
        Screen::Nickname { nick } => assert_eq!(nick, "abcdefghijklmno"),
        other => panic!("expected nickname entry, got {:?}", other),
    }
    let (screen, _) = screen.handle(Event::Input(UiEvent::Backspace));
    let (screen, _) = screen.handle(Event::Input(UiEvent::Typed(' ')));
    match screen {
        Screen::Nickname { nick } => assert_eq!(nick, "abcdefghijklmn"),
        other => panic!("expected nickname entry, got {:?}", other),
    }
}

fn lobby(nick: &str) -> Screen {
    let screen = enter_name(Screen::initial(), nick);
    let (next, _) = screen.handle(Event::Input(UiEvent::Confirm));
    next
}

#[test]
fn lobby_enters_game_lobby_on_game_entered() {
    let screen = lobby("alice");
    let (next, cmds) = screen.handle(Event::Message(ServerMessage::GameEntered {
        name: String::from("arena"),
        typ: PlayType::Player,
    }));
    assert!(cmds.is_empty());
    match next {
        Screen::GameLobby { nick, game, typ, ready, .. } => {
            assert_eq!(nick, "alice");
            assert_eq!(game, "arena");
            assert_eq!(typ, PlayType::Player);
            assert!(!ready);
        }
        other => panic!("expected the game lobby, got {:?}", other),
    }
}

#[test]
fn lobby_queries_the_game_list_on_its_interval() {
    let screen = lobby("alice");
    // The first request comes only after the initial delay.
    let (screen, cmds) = screen.handle(Event::Tick { ms: 500 });
    assert!(cmds.is_empty());
    let (screen, cmds) = screen.handle(Event::Tick { ms: 1600 });
    assert_eq!(cmds, vec![Command::Send(ClientCommand::ListGames)]);
    // After firing it waits the regular interval again.
    let (_, cmds) = screen.handle(Event::Tick { ms: 1100 });
    assert_eq!(cmds, vec![Command::Send(ClientCommand::ListGames)]);
}

#[test]
fn lobby_lists_games_in_name_order_and_joins_by_index() {
    let screen = lobby("alice");
    let (screen, _) = screen.handle(Event::Message(ServerMessage::GameList {
        name: String::from("zeta"),
        player_count: 3,
    }));
    let (screen, _) = screen.handle(Event::Message(ServerMessage::GameList {
        name: String::from("alpha"),
        player_count: 1,
    }));
    let (screen, _) = screen.handle(Event::Message(ServerMessage::GameList {
        name: String::from("zeta"),
        player_count: 4,
    }));
    match &screen {
        Screen::Lobby { games, .. } => {
            assert_eq!(games.len(), 2);
            assert_eq!(games.name_at(0), "alpha");
            assert_eq!(games.value_at(0), 1);
            assert_eq!(games.name_at(1), "zeta");
            assert_eq!(games.value_at(1), 4);
        }
        other => panic!("expected the lobby, got {:?}", other),
    }
    let (screen, cmds) = screen.handle(Event::Input(UiEvent::JoinGame {
        index: 1,
        typ: PlayType::Spectator,
    }));
    assert_eq!(
        cmds,
        vec![Command::Send(ClientCommand::JoinGame(String::from("zeta"), PlayType::Spectator))]
    );
    // An index past the listing is ignored.
    let (_, cmds) = screen.handle(Event::Input(UiEvent::JoinGame {
        index: 7,
        typ: PlayType::Player,
    }));
    assert!(cmds.is_empty());
}

#[test]
fn lobby_creates_a_game_from_the_name_field() {
    let screen = lobby("alice");
    let (_, cmds) = screen.handle(Event::Input(UiEvent::Confirm));
    // The name field starts pre-filled.
    assert_eq!(
        cmds,
        vec![Command::Send(ClientCommand::CreateGame(String::from("newgame")))]
    );
}

#[test]
fn lobby_logout_detaches_and_returns_to_nickname_entry() {
    let screen = lobby("alice");
    let (next, cmds) = screen.handle(Event::Input(UiEvent::Logout));
    assert_eq!(
        cmds,
        vec![Command::Send(ClientCommand::Detach), Command::Disconnect]
    );
    match next {
        Screen::Nickname { nick } => assert_eq!(nick, ""),
        other => panic!("expected nickname entry, got {:?}", other),
    }
}

fn game_lobby(nick: &str) -> Screen {
    let (next, _) = lobby(nick).handle(Event::Message(ServerMessage::GameEntered {
        name: String::from("arena"),
        typ: PlayType::Player,
    }));
    next
}

#[test]
fn game_lobby_enters_game_on_game_start() {
    let (next, cmds) = game_lobby("alice").handle(Event::Message(ServerMessage::GameStart));
    assert!(cmds.is_empty());
    assert!(matches!(next, Screen::Game { .. }));
}

#[test]
fn game_lobby_toggle_ready_announces_each_flip() {
    let screen = game_lobby("alice");
    let (screen, cmds) = screen.handle(Event::Input(UiEvent::ToggleReady));
    assert_eq!(cmds, vec![Command::Send(ClientCommand::Ready)]);
    let (_, cmds) = screen.handle(Event::Input(UiEvent::ToggleReady));
    assert_eq!(cmds, vec![Command::Send(ClientCommand::Unready)]);
}

#[test]
fn game_lobby_tracks_the_roster() {
    let screen = game_lobby("alice");
    let (screen, _) = screen.handle(Event::Message(ServerMessage::ReadyStatus {
        nick: String::from("bob"),
        ready: true,
    }));
    let (screen, _) = screen.handle(Event::Message(ServerMessage::ReadyStatus {
        nick: String::from("alice"),
        ready: true,
    }));
    match &screen {
        Screen::GameLobby { ready, players, .. } => {
            assert!(*ready);
            assert_eq!(players.len(), 1);
            assert_eq!(players.name_at(0), "bob");
            assert_eq!(players.value_at(0), true);
        }
        other => panic!("expected the game lobby, got {:?}", other),
    }
    let (screen, _) = screen.handle(Event::Message(ServerMessage::GameLeft {
        nick: String::from("bob"),
    }));
    match &screen {
        Screen::GameLobby { players, .. } => assert_eq!(players.len(), 0),
        other => panic!("expected the game lobby, got {:?}", other),
    }
}

#[test]
fn game_lobby_returns_to_lobby_when_it_left() {
    let (next, cmds) = game_lobby("alice").handle(Event::Message(ServerMessage::GameLeft {
        nick: String::from("alice"),
    }));
    assert!(cmds.is_empty());
    assert!(matches!(next, Screen::Lobby { .. }));
}

#[test]
fn board_grows_and_replaces_rows() {
    let row = vec![Some(GameCell::Empty), Some(GameCell::Populated { count: 2, owner: 'B' })];
    let (screen, _) = fresh_game("alice").handle(Event::Message(ServerMessage::MapLine(
        2,
        row.clone(),
    )));
    match &screen {
        Screen::Game { board, .. } => {
            assert_eq!(board.rows.len(), 3);
            assert!(board.rows[0].is_empty());
            assert!(board.rows[1].is_empty());
            assert_eq!(board.rows[2], row);
        }
        other => panic!("expected the game, got {:?}", other),
    }
    let replacement = vec![None, Some(GameCell::Empty)];
    let (screen, _) = screen.handle(Event::Message(ServerMessage::MapLine(
        2,
        replacement.clone(),
    )));
    match &screen {
        Screen::Game { board, .. } => {
            assert_eq!(board.rows.len(), 3);
            assert_eq!(board.rows[2], replacement);
        }
        other => panic!("expected the game, got {:?}", other),
    }
}

#[test]
fn board_write_leaves_earlier_rows_untouched() {
    let mut board = Board::new();
    board.apply_map_line(0, vec![Some(GameCell::Empty)]);
    board.apply_map_line(1, vec![None, Some(GameCell::Empty)]);
    board.apply_map_line(1, vec![Some(GameCell::Populated { count: 1, owner: 'A' })]);
    assert_eq!(board.rows.len(), 2);
    assert_eq!(board.rows[0], vec![Some(GameCell::Empty)]);
    assert_eq!(board.rows[1], vec![Some(GameCell::Populated { count: 1, owner: 'A' })]);
}

#[test]
fn game_finish_enters_winner() {
    let (next, cmds) = fresh_game("alice").handle(Event::Message(ServerMessage::GameFinish {
        winner: String::from("bob"),
    }));
    assert!(cmds.is_empty());
    match next {
        Screen::Winner { nick, winner } => {
            assert_eq!(nick, "alice");
            assert_eq!(winner, "bob");
        }
        other => panic!("expected the winner display, got {:?}", other),
    }
}

#[test]
fn game_left_for_self_returns_to_lobby() {
    let (next, cmds) = fresh_game("alice").handle(Event::Message(ServerMessage::GameLeft {
        nick: String::from("alice"),
    }));
    assert!(cmds.is_empty());
    assert!(matches!(next, Screen::Lobby { .. }));
    // Somebody else leaving is no reason to move.
    let (next, _) = fresh_game("alice").handle(Event::Message(ServerMessage::GameLeft {
        nick: String::from("bob"),
    }));
    assert!(matches!(next, Screen::Game { .. }));
}

#[test]
fn game_turn_clears_the_energy_counter() {
    let (screen, _) = fresh_game("alice").handle(Event::Message(ServerMessage::EnergyLeft(3)));
    match &screen {
        Screen::Game { energy_left, .. } => assert_eq!(*energy_left, Some(3)),
        other => panic!("expected the game, got {:?}", other),
    }
    let (screen, _) = screen.handle(Event::Message(ServerMessage::Turn {
        nick: String::from("bob"),
    }));
    match &screen {
        Screen::Game { current_player, energy_left, .. } => {
            assert_eq!(current_player, "bob");
            assert_eq!(*energy_left, None);
        }
        other => panic!("expected the game, got {:?}", other),
    }
}

#[test]
fn game_ignores_own_hover_and_tracks_others() {
    let (screen, _) = fresh_game("alice").handle(Event::Message(ServerMessage::HoverCell {
        nick: String::from("alice"),
        row: 1,
        col: 1,
    }));
    let (screen, _) = screen.handle(Event::Message(ServerMessage::HoverCell {
        nick: String::from("bob"),
        row: 2,
        col: 3,
    }));
    match &screen {
        Screen::Game { hovers, .. } => {
            assert_eq!(hovers.len(), 1);
            assert_eq!(hovers.name_at(0), "bob");
            assert_eq!(hovers.value_at(0), (2, 3));
        }
        other => panic!("expected the game, got {:?}", other),
    }
    let (screen, _) = screen.handle(Event::Message(ServerMessage::HoverNone {
        nick: String::from("bob"),
    }));
    match &screen {
        Screen::Game { hovers, .. } => assert_eq!(hovers.len(), 0),
        other => panic!("expected the game, got {:?}", other),
    }
}

#[test]
fn game_cell_actions_need_a_real_cell() {
    let (screen, _) = fresh_game("alice").handle(Event::Message(ServerMessage::MapLine(
        0,
        vec![None, Some(GameCell::Empty)],
    )));
    let (screen, cmds) = screen.handle(Event::Input(UiEvent::CellClick { row: 0, col: 1 }));
    assert_eq!(cmds, vec![Command::Send(ClientCommand::Attack(0, 1))]);
    // A position outside the board, or without a cell, is ignored.
    let (screen, cmds) = screen.handle(Event::Input(UiEvent::CellClick { row: 0, col: 0 }));
    assert!(cmds.is_empty());
    let (screen, cmds) = screen.handle(Event::Input(UiEvent::CellClick { row: 5, col: 0 }));
    assert!(cmds.is_empty());
    let (_, cmds) = screen.handle(Event::Input(UiEvent::CellUpgrade { row: 0, col: 1 }));
    assert_eq!(cmds, vec![Command::Send(ClientCommand::FullUpgrade(0, 1))]);
}

#[test]
fn game_reports_each_hover_change_once() {
    let (screen, _) = fresh_game("alice").handle(Event::Message(ServerMessage::MapLine(
        0,
        vec![Some(GameCell::Empty)],
    )));
    let (screen, cmds) = screen.handle(Event::Input(UiEvent::Hover {
        cell: Some((0, 0)),
    }));
    assert_eq!(cmds, vec![Command::Send(ClientCommand::Hover(0, 0))]);
    let (screen, cmds) = screen.handle(Event::Input(UiEvent::Hover {
        cell: Some((0, 0)),
    }));
    assert!(cmds.is_empty());
    let (_, cmds) = screen.handle(Event::Input(UiEvent::Hover { cell: None }));
    assert_eq!(cmds, vec![Command::Send(ClientCommand::HoverNone)]);
}

#[test]
fn game_phase_and_leave_requests() {
    let (screen, cmds) = fresh_game("alice").handle(Event::Input(UiEvent::NextPhase));
    assert_eq!(cmds, vec![Command::Send(ClientCommand::NextPhase)]);
    let (_, cmds) = screen.handle(Event::Input(UiEvent::Leave));
    assert_eq!(cmds, vec![Command::Send(ClientCommand::LeaveGame)]);
}

#[test]
fn winner_leave_announces_and_returns_to_lobby() {
    let screen = Screen::Winner {
        nick: String::from("alice"),
        winner: String::from("bob"),
    };
    let (next, cmds) = screen.handle(Event::Input(UiEvent::Leave));
    assert_eq!(cmds, vec![Command::Send(ClientCommand::LeaveGame)]);
    assert!(matches!(next, Screen::Lobby { .. }));
    // Plain confirmation returns quietly.
    let screen = Screen::Winner {
        nick: String::from("alice"),
        winner: String::from("bob"),
    };
    let (next, cmds) = screen.handle(Event::Input(UiEvent::Confirm));
    assert!(cmds.is_empty());
    assert!(matches!(next, Screen::Lobby { .. }));
}

#[test]
fn command_lines_are_exact() {
    assert_eq!(ClientCommand::ListGames.encode(), "listGames");
    assert_eq!(
        ClientCommand::CreateGame(String::from("arena")).encode(),
        "createGame arena"
    );
    assert_eq!(
        ClientCommand::JoinGame(String::from("arena"), PlayType::Spectator).encode(),
        "joinGame arena spectator"
    );
    assert_eq!(ClientCommand::LeaveGame.encode(), "leaveGame");
    assert_eq!(ClientCommand::Ready.encode(), "ready");
    assert_eq!(ClientCommand::Unready.encode(), "unready");
    assert_eq!(ClientCommand::SelectColor('C').encode(), "selectColor C");
    assert_eq!(ClientCommand::NextPhase.encode(), "next phase");
    assert_eq!(ClientCommand::Attack(3, 4).encode(), "3 4");
    assert_eq!(ClientCommand::FullUpgrade(1, 2).encode(), "fullUp 1 2");
    assert_eq!(ClientCommand::Hover(0, 9).encode(), "hover 0 9");
    assert_eq!(ClientCommand::HoverNone.encode(), "hover none");
    assert_eq!(ClientCommand::Detach.encode(), "-");
}

#[test]
fn player_colors_match_their_codes() {
    assert_eq!(player_color('A'), DisplayColor::Red);
    assert_eq!(player_color('B'), DisplayColor::Green);
    assert_eq!(player_color('C'), DisplayColor::Blue);
    assert_eq!(player_color('D'), DisplayColor::Yellow);
    assert_eq!(player_color('E'), DisplayColor::Magenta);
    assert_eq!(player_color('F'), DisplayColor::Cyan);
}
