use troll_invasion::model::{GameCell, PlayType, ServerMessage};

fn round_trips(message: ServerMessage) {
    let line = message.encode();
    let back = ServerMessage::parse(&line);
    assert_eq!(back, Some(message));
}

#[test]
fn ready_status_round_trip() {
    round_trips(ServerMessage::ReadyStatus { nick: String::from("bob"), ready: true });
    round_trips(ServerMessage::ReadyStatus { nick: String::from("alice"), ready: false });
}

#[test]
fn map_line_round_trip() {
    round_trips(ServerMessage::MapLine(
        2,
        vec![
            Some(GameCell::Empty),
            None,
            Some(GameCell::Populated { count: 3, owner: 'A' }),
            Some(GameCell::Populated { count: 12, owner: 'F' }),
        ],
    ));
    round_trips(ServerMessage::MapLine(0, vec![None]));
}

#[test]
fn simple_commands_round_trip() {
    round_trips(ServerMessage::GameStart);
    round_trips(ServerMessage::DeselectCell);
    round_trips(ServerMessage::UpgradePhase);
}

#[test]
fn player_color_round_trip() {
    round_trips(ServerMessage::PlayerColor { nick: String::from("carol"), color: 'C' });
}

#[test]
fn turn_round_trip() {
    round_trips(ServerMessage::Turn { nick: String::from("dave") });
}

#[test]
fn select_cell_round_trip() {
    round_trips(ServerMessage::SelectCell { row: 4, col: 17 });
}

#[test]
fn game_finish_round_trip() {
    round_trips(ServerMessage::GameFinish { winner: String::from("bob") });
}

#[test]
fn energy_left_round_trip() {
    round_trips(ServerMessage::EnergyLeft(0));
    round_trips(ServerMessage::EnergyLeft(42));
}

#[test]
fn game_list_round_trip() {
    round_trips(ServerMessage::GameList { name: String::from("arena"), player_count: 2 });
}

#[test]
fn game_entered_round_trip() {
    round_trips(ServerMessage::GameEntered {
        name: String::from("arena"),
        typ: PlayType::Player,
    });
    round_trips(ServerMessage::GameEntered {
        name: String::from("arena"),
        typ: PlayType::Spectator,
    });
}

#[test]
fn game_left_round_trip() {
    round_trips(ServerMessage::GameLeft { nick: String::from("eve") });
}

#[test]
fn hover_round_trip() {
    round_trips(ServerMessage::HoverCell { nick: String::from("bob"), row: 1, col: 2 });
    round_trips(ServerMessage::HoverNone { nick: String::from("bob") });
}

#[test]
fn spectator_join_round_trip() {
    round_trips(ServerMessage::SpectatorJoin { nick: String::from("watcher") });
}

#[test]
fn can_move_round_trip() {
    round_trips(ServerMessage::CanMove { cells: vec![] });
    round_trips(ServerMessage::CanMove { cells: vec![(0, 1), (5, 5), (10, 0)] });
}

#[test]
fn encode_exact_lines() {
    assert_eq!(
        ServerMessage::ReadyStatus { nick: String::from("bob"), ready: true }.encode(),
        "readyStatus bob true"
    );
    assert_eq!(
        ServerMessage::MapLine(
            2,
            vec![Some(GameCell::Empty), None, Some(GameCell::Populated { count: 3, owner: 'A' })],
        )
        .encode(),
        "mapLine 2 ##|__|3A"
    );
    assert_eq!(ServerMessage::GameStart.encode(), "gameStart");
    assert_eq!(
        ServerMessage::HoverNone { nick: String::from("bob") }.encode(),
        "hover bob none"
    );
    assert_eq!(
        ServerMessage::CanMove { cells: vec![(1, 2), (3, 4)] }.encode(),
        "canMove 1 2 3 4"
    );
}

#[test]
fn parse_exact_values() {
    match ServerMessage::parse("mapLine 2 ##|__|3A") {
        Some(ServerMessage::MapLine(index, cells)) => {
            assert_eq!(index, 2);
            assert_eq!(
                cells,
                vec![
                    Some(GameCell::Empty),
                    None,
                    Some(GameCell::Populated { count: 3, owner: 'A' })
                ]
            );
        }
        other => panic!("wrong parse: {:?}", other),
    }
    match ServerMessage::parse("gameList arena 2") {
        Some(ServerMessage::GameList { name, player_count }) => {
            assert_eq!(name, "arena");
            assert_eq!(player_count, 2);
        }
        other => panic!("wrong parse: {:?}", other),
    }
    match ServerMessage::parse("hover bob 1 2") {
        Some(ServerMessage::HoverCell { nick, row, col }) => {
            assert_eq!(nick, "bob");
            assert_eq!(row, 1);
            assert_eq!(col, 2);
        }
        other => panic!("wrong parse: {:?}", other),
    }
}

#[test]
fn parse_tolerates_extra_whitespace() {
    assert_eq!(
        ServerMessage::parse("  turn   bob "),
        Some(ServerMessage::Turn { nick: String::from("bob") })
    );
}

#[test]
fn unknown_command_is_unparseable() {
    assert_eq!(ServerMessage::parse("frobnicate 1 2"), None);
    assert_eq!(ServerMessage::parse("TURN bob"), None);
    assert_eq!(ServerMessage::parse(""), None);
    assert_eq!(ServerMessage::parse("   "), None);
}

#[test]
fn wrong_arity_is_unparseable() {
    assert_eq!(ServerMessage::parse("turn"), None);
    assert_eq!(ServerMessage::parse("turn bob extra"), None);
    assert_eq!(ServerMessage::parse("gameStart now"), None);
    assert_eq!(ServerMessage::parse("selectCell 1"), None);
    assert_eq!(ServerMessage::parse("hover bob"), None);
    assert_eq!(ServerMessage::parse("canMove 1"), None);
}

#[test]
fn bad_arguments_are_unparseable() {
    assert_eq!(ServerMessage::parse("selectCell 1 x"), None);
    assert_eq!(ServerMessage::parse("selectCell -1 2"), None);
    assert_eq!(ServerMessage::parse("energyLeft 99999999999999999999999999"), None);
    assert_eq!(ServerMessage::parse("readyStatus bob maybe"), None);
    assert_eq!(ServerMessage::parse("gameEntered arena referee"), None);
    assert_eq!(ServerMessage::parse("playerColor bob AB"), None);
    assert_eq!(ServerMessage::parse("mapLine 0 #"), None);
    assert_eq!(ServerMessage::parse("mapLine 0 ##||##"), None);
    assert_eq!(ServerMessage::parse("mapLine x ##"), None);
}

#[test]
fn numeral_bounds() {
    let line = format!("energyLeft {}", usize::MAX);
    assert_eq!(ServerMessage::parse(&line), Some(ServerMessage::EnergyLeft(usize::MAX)));
    let too_big = format!("energyLeft {}0", usize::MAX);
    assert_eq!(ServerMessage::parse(&too_big), None);
}

#[test]
fn cell_grammar_corner_cases() {
    // A populated cell's owner code may itself be a digit or a marker
    // character: the count is everything before the last character.
    round_trips(ServerMessage::MapLine(
        1,
        vec![Some(GameCell::Populated { count: 1, owner: '2' })],
    ));
    round_trips(ServerMessage::MapLine(
        1,
        vec![Some(GameCell::Populated { count: 7, owner: '#' })],
    ));
}
