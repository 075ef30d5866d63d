//! The outbound client vocabulary: the requests a client sends to the
//! relay, and their wire lines. The relay never interprets these — it
//! prefixes the sender's name and passes them to the logic process — so
//! only encoding is needed here.

use vstd::prelude::*;
use vstd::string::*;
use crate::model::PlayType;
use crate::text::{dec_digits, format_usize, push_char};

verus! {

/// One request of a client session to the relay.
#[derive(Debug, Clone, PartialEq)]
pub enum ClientCommand {
    /// Ask for the list of open games.
    ListGames,
    /// Create a game under the given name.
    CreateGame(String),
    /// Enter the named game, seated or watching.
    JoinGame(String, PlayType),
    /// Leave the current game.
    LeaveGame,
    /// Declare readiness in the game lobby.
    Ready,
    /// Withdraw readiness in the game lobby.
    Unready,
    /// Claim the given colour code.
    SelectColor(char),
    /// End the current phase of the turn.
    NextPhase,
    /// Act on the board cell at `(row, col)`.
    Attack(usize, usize),
    /// Fully upgrade the board cell at `(row, col)`.
    FullUpgrade(usize, usize),
    /// Tell other players which cell this session's pointer is over.
    Hover(usize, usize),
    /// Tell other players the pointer left the board.
    HoverNone,
    /// End the session with the relay.
    Detach,
}

/// The mathematical value of a `ClientCommand`.
pub enum ClientCommandV {
    ListGames,
    CreateGame(Seq<char>),
    JoinGame(Seq<char>, PlayType),
    LeaveGame,
    Ready,
    Unready,
    SelectColor(char),
    NextPhase,
    Attack(usize, usize),
    FullUpgrade(usize, usize),
    Hover(usize, usize),
    HoverNone,
    Detach,
}

impl View for ClientCommand {
    type V = ClientCommandV;

    open spec fn view(&self) -> ClientCommandV {
        match self {
            ClientCommand::ListGames => ClientCommandV::ListGames,
            ClientCommand::CreateGame(name) => ClientCommandV::CreateGame(name@),
            ClientCommand::JoinGame(name, typ) => ClientCommandV::JoinGame(name@, *typ),
            ClientCommand::LeaveGame => ClientCommandV::LeaveGame,
            ClientCommand::Ready => ClientCommandV::Ready,
            ClientCommand::Unready => ClientCommandV::Unready,
            ClientCommand::SelectColor(c) => ClientCommandV::SelectColor(*c),
            ClientCommand::NextPhase => ClientCommandV::NextPhase,
            ClientCommand::Attack(row, col) => ClientCommandV::Attack(*row, *col),
            ClientCommand::FullUpgrade(row, col) => ClientCommandV::FullUpgrade(*row, *col),
            ClientCommand::Hover(row, col) => ClientCommandV::Hover(*row, *col),
            ClientCommand::HoverNone => ClientCommandV::HoverNone,
            ClientCommand::Detach => ClientCommandV::Detach,
        }
    }
}

impl DeepView for ClientCommand {
    type V = ClientCommandV;

    open spec fn deep_view(&self) -> ClientCommandV {
        self.view()
    }
}

/// The wire line of a request, exactly as the logic process reads it.
pub open spec fn spec_encode_command(c: ClientCommandV) -> Seq<char> {
    match c {
        ClientCommandV::ListGames => "listGames"@,
        ClientCommandV::CreateGame(name) => "createGame"@ + seq![' '] + name,
        ClientCommandV::JoinGame(name, typ) => "joinGame"@ + seq![' '] + name + seq![' ']
            + crate::model::play_type_tok(typ),
        ClientCommandV::LeaveGame => "leaveGame"@,
        ClientCommandV::Ready => "ready"@,
        ClientCommandV::Unready => "unready"@,
        ClientCommandV::SelectColor(c) => "selectColor"@ + seq![' ', c],
        ClientCommandV::NextPhase => "next phase"@,
        ClientCommandV::Attack(row, col) => dec_digits(row as nat) + seq![' '] + dec_digits(
            col as nat,
        ),
        ClientCommandV::FullUpgrade(row, col) => "fullUp"@ + seq![' '] + dec_digits(row as nat)
            + seq![' '] + dec_digits(col as nat),
        ClientCommandV::Hover(row, col) => "hover"@ + seq![' '] + dec_digits(row as nat)
            + seq![' '] + dec_digits(col as nat),
        ClientCommandV::HoverNone => "hover none"@,
        ClientCommandV::Detach => "-"@,
    }
}

impl ClientCommand {
    /// The one wire line of this request.
    pub fn encode(&self) -> (r: String)
        ensures
            r@ == spec_encode_command(self@),
    {
        match self {
            ClientCommand::ListGames => String::from_str("listGames"),
            ClientCommand::CreateGame(name) => {
                let mut r = String::from_str("createGame");
                push_char(&mut r, ' ');
                r.append(name.as_str());
                proof {
                    assert(r@ =~= spec_encode_command(self@));
                }
                r
            },
            ClientCommand::JoinGame(name, typ) => {
                let mut r = String::from_str("joinGame");
                push_char(&mut r, ' ');
                r.append(name.as_str());
                push_char(&mut r, ' ');
                r.append(
                    match typ {
                        PlayType::Player => "player",
                        PlayType::Spectator => "spectator",
                    },
                );
                proof {
                    assert(r@ =~= spec_encode_command(self@));
                }
                r
            },
            ClientCommand::LeaveGame => String::from_str("leaveGame"),
            ClientCommand::Ready => String::from_str("ready"),
            ClientCommand::Unready => String::from_str("unready"),
            ClientCommand::SelectColor(c) => {
                let mut r = String::from_str("selectColor");
                push_char(&mut r, ' ');
                push_char(&mut r, *c);
                proof {
                    assert(r@ =~= spec_encode_command(self@));
                }
                r
            },
            ClientCommand::NextPhase => String::from_str("next phase"),
            ClientCommand::Attack(row, col) => {
                let mut r = format_usize(*row);
                push_char(&mut r, ' ');
                let b = format_usize(*col);
                r.append(b.as_str());
                proof {
                    assert(r@ =~= spec_encode_command(self@));
                }
                r
            },
            ClientCommand::FullUpgrade(row, col) => {
                let mut r = String::from_str("fullUp");
                push_char(&mut r, ' ');
                let a = format_usize(*row);
                r.append(a.as_str());
                push_char(&mut r, ' ');
                let b = format_usize(*col);
                r.append(b.as_str());
                proof {
                    assert(r@ =~= spec_encode_command(self@));
                }
                r
            },
            ClientCommand::Hover(row, col) => {
                let mut r = String::from_str("hover");
                push_char(&mut r, ' ');
                let a = format_usize(*row);
                r.append(a.as_str());
                push_char(&mut r, ' ');
                let b = format_usize(*col);
                r.append(b.as_str());
                proof {
                    assert(r@ =~= spec_encode_command(self@));
                }
                r
            },
            ClientCommand::HoverNone => String::from_str("hover none"),
            ClientCommand::Detach => String::from_str("-"),
        }
    }
}

} // verus!
