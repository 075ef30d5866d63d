//! The wire-protocol message model: the closed set of protocol events the
//! relay addresses to clients, a codec between those events and text lines,
//! and the proof that decoding inverts encoding. Malformed input never
//! aborts: it decodes to `None`, because the link carries untrusted peer
//! input.

use vstd::prelude::*;
use vstd::string::*;
use crate::text::{
    all_digits, dec_digits, digits_val, format_usize, is_ws, join_tokens, join_with,
    lemma_dec_digits_val, lemma_join_tokens_snoc, lemma_join_with_snoc, lemma_split_join,
    lemma_tokenize_join, no_ws, parse_usize, push_char,
    spec_parse_usize, spec_tokenize, split_char, split_on, str_eq, tokenize, wf_token,
};

verus! {

/// How a session takes part in a game: as a seated player or as a watcher.
#[derive(Copy, Clone, Debug, PartialEq, Eq, Structural)]
pub enum PlayType {
    Player,
    Spectator,
}

/// One board position that is part of the map: unoccupied, or held by
/// `count` pieces of the player whose colour code is `owner`.
#[derive(Copy, Clone, Debug, PartialEq, Eq, Structural)]
pub enum GameCell {
    Empty,
    Populated { count: usize, owner: char },
}

/// A protocol event addressed by the relay to a client, one wire line each.
#[derive(Debug, Clone, PartialEq)]
pub enum ServerMessage {
    ReadyStatus { nick: String, ready: bool },
    MapLine(usize, Vec<Option<GameCell>>),
    GameStart,
    PlayerColor { nick: String, color: char },
    Turn { nick: String },
    SelectCell { row: usize, col: usize },
    DeselectCell,
    GameFinish { winner: String },
    UpgradePhase,
    EnergyLeft(usize),
    GameList { name: String, player_count: usize },
    GameEntered { name: String, typ: PlayType },
    GameLeft { nick: String },
    HoverCell { nick: String, row: usize, col: usize },
    HoverNone { nick: String },
    SpectatorJoin { nick: String },
    CanMove { cells: Vec<(usize, usize)> },
}

/// The mathematical value of a `ServerMessage`: the same shape over
/// sequences, which the codec contracts are stated against.
pub enum MessageV {
    ReadyStatus { nick: Seq<char>, ready: bool },
    MapLine(usize, Seq<Option<GameCell>>),
    GameStart,
    PlayerColor { nick: Seq<char>, color: char },
    Turn { nick: Seq<char> },
    SelectCell { row: usize, col: usize },
    DeselectCell,
    GameFinish { winner: Seq<char> },
    UpgradePhase,
    EnergyLeft(usize),
    GameList { name: Seq<char>, player_count: usize },
    GameEntered { name: Seq<char>, typ: PlayType },
    GameLeft { nick: Seq<char> },
    HoverCell { nick: Seq<char>, row: usize, col: usize },
    HoverNone { nick: Seq<char> },
    SpectatorJoin { nick: Seq<char> },
    CanMove { cells: Seq<(usize, usize)> },
}

impl View for ServerMessage {
    type V = MessageV;

    open spec fn view(&self) -> MessageV {
        match self {
            ServerMessage::ReadyStatus { nick, ready } => MessageV::ReadyStatus {
                nick: nick@,
                ready: *ready,
            },
            ServerMessage::MapLine(index, cells) => MessageV::MapLine(*index, cells@),
            ServerMessage::GameStart => MessageV::GameStart,
            ServerMessage::PlayerColor { nick, color } => MessageV::PlayerColor {
                nick: nick@,
                color: *color,
            },
            ServerMessage::Turn { nick } => MessageV::Turn { nick: nick@ },
            ServerMessage::SelectCell { row, col } => MessageV::SelectCell {
                row: *row,
                col: *col,
            },
            ServerMessage::DeselectCell => MessageV::DeselectCell,
            ServerMessage::GameFinish { winner } => MessageV::GameFinish { winner: winner@ },
            ServerMessage::UpgradePhase => MessageV::UpgradePhase,
            ServerMessage::EnergyLeft(n) => MessageV::EnergyLeft(*n),
            ServerMessage::GameList { name, player_count } => MessageV::GameList {
                name: name@,
                player_count: *player_count,
            },
            ServerMessage::GameEntered { name, typ } => MessageV::GameEntered {
                name: name@,
                typ: *typ,
            },
            ServerMessage::GameLeft { nick } => MessageV::GameLeft { nick: nick@ },
            ServerMessage::HoverCell { nick, row, col } => MessageV::HoverCell {
                nick: nick@,
                row: *row,
                col: *col,
            },
            ServerMessage::HoverNone { nick } => MessageV::HoverNone { nick: nick@ },
            ServerMessage::SpectatorJoin { nick } => MessageV::SpectatorJoin { nick: nick@ },
            ServerMessage::CanMove { cells } => MessageV::CanMove { cells: cells@ },
        }
    }
}

impl DeepView for ServerMessage {
    type V = MessageV;

    open spec fn deep_view(&self) -> MessageV {
        self.view()
    }
}

// ---------------------------------------------------------------------------
// Token grammar of the individual argument kinds.
// ---------------------------------------------------------------------------

pub open spec fn bool_tok(b: bool) -> Seq<char> {
    if b {
        "true"@
    } else {
        "false"@
    }
}

pub open spec fn spec_parse_bool(t: Seq<char>) -> Option<bool> {
    if t == "true"@ {
        Some(true)
    } else if t == "false"@ {
        Some(false)
    } else {
        None
    }
}

pub open spec fn play_type_tok(p: PlayType) -> Seq<char> {
    match p {
        PlayType::Player => "player"@,
        PlayType::Spectator => "spectator"@,
    }
}

pub open spec fn spec_parse_play_type(t: Seq<char>) -> Option<PlayType> {
    if t == "player"@ {
        Some(PlayType::Player)
    } else if t == "spectator"@ {
        Some(PlayType::Spectator)
    } else {
        None
    }
}

/// The text of one map cell: `##` for an unoccupied cell, `__` for a
/// position outside the board, and the occupant count followed by the
/// owner's colour code otherwise.
pub open spec fn cell_tok(c: Option<GameCell>) -> Seq<char> {
    match c {
        None => seq!['_', '_'],
        Some(GameCell::Empty) => seq!['#', '#'],
        Some(GameCell::Populated { count, owner }) => dec_digits(count as nat) + seq![owner],
    }
}

pub open spec fn spec_parse_cell(p: Seq<char>) -> Option<Option<GameCell>> {
    if p.len() == 2 && p[0] == '#' && p[1] == '#' {
        Some(Some(GameCell::Empty))
    } else if p.len() == 2 && p[0] == '_' && p[1] == '_' {
        Some(None)
    } else if p.len() >= 2 && all_digits(p.drop_last()) && digits_val(p.drop_last())
        <= usize::MAX {
        Some(
            Some(
                GameCell::Populated {
                    count: digits_val(p.drop_last()) as usize,
                    owner: p.last(),
                },
            ),
        )
    } else {
        None
    }
}

/// A whole map row as one token: the cells' texts joined with `|`.
pub open spec fn cells_tok(cells: Seq<Option<GameCell>>) -> Seq<char> {
    join_with(cells.map_values(|c: Option<GameCell>| cell_tok(c)), '|')
}

pub open spec fn spec_parse_cells(t: Seq<char>) -> Option<Seq<Option<GameCell>>> {
    let ps = split_on(t, '|');
    if forall|i: int| 0 <= i < ps.len() ==> spec_parse_cell(#[trigger] ps[i]) is Some {
        Some(Seq::new(ps.len(), |i: int| spec_parse_cell(ps[i]).unwrap()))
    } else {
        None
    }
}

/// The coordinate pairs of a `canMove` line, two numerals per pair.
pub open spec fn pair_toks(cells: Seq<(usize, usize)>) -> Seq<Seq<char>>
    decreases cells.len(),
{
    if cells.len() == 0 {
        seq![]
    } else {
        seq![dec_digits(cells[0].0 as nat), dec_digits(cells[0].1 as nat)] + pair_toks(
            cells.drop_first(),
        )
    }
}

// ---------------------------------------------------------------------------
// Lines: a message's tokens, their joined line, and the decoder.
// ---------------------------------------------------------------------------

/// The wire tokens of a message, command token first, arguments in their
/// fixed order.
pub open spec fn tokens_of(m: MessageV) -> Seq<Seq<char>> {
    match m {
        MessageV::ReadyStatus { nick, ready } => seq!["readyStatus"@, nick, bool_tok(ready)],
        MessageV::MapLine(index, cells) => seq![
            "mapLine"@,
            dec_digits(index as nat),
            cells_tok(cells),
        ],
        MessageV::GameStart => seq!["gameStart"@],
        MessageV::PlayerColor { nick, color } => seq!["playerColor"@, nick, seq![color]],
        MessageV::Turn { nick } => seq!["turn"@, nick],
        MessageV::SelectCell { row, col } => seq![
            "selectCell"@,
            dec_digits(row as nat),
            dec_digits(col as nat),
        ],
        MessageV::DeselectCell => seq!["deselectCell"@],
        MessageV::GameFinish { winner } => seq!["gameFinish"@, winner],
        MessageV::UpgradePhase => seq!["upgradePhase"@],
        MessageV::EnergyLeft(n) => seq!["energyLeft"@, dec_digits(n as nat)],
        MessageV::GameList { name, player_count } => seq![
            "gameList"@,
            name,
            dec_digits(player_count as nat),
        ],
        MessageV::GameEntered { name, typ } => seq!["gameEntered"@, name, play_type_tok(typ)],
        MessageV::GameLeft { nick } => seq!["gameLeft"@, nick],
        MessageV::HoverCell { nick, row, col } => seq![
            "hover"@,
            nick,
            dec_digits(row as nat),
            dec_digits(col as nat),
        ],
        MessageV::HoverNone { nick } => seq!["hover"@, nick, "none"@],
        MessageV::SpectatorJoin { nick } => seq!["spectatorJoin"@, nick],
        MessageV::CanMove { cells } => seq!["canMove"@] + pair_toks(cells),
    }
}

/// The one wire line of a message.
pub open spec fn spec_encode(m: MessageV) -> Seq<char> {
    join_tokens(tokens_of(m))
}

/// What a token list means, command token first: each command has a fixed
/// arity and argument grammar, and everything else — unknown command, wrong
/// arity, ill-formed argument — means nothing.
pub open spec fn spec_parse_tokens(ts: Seq<Seq<char>>) -> Option<MessageV> {
    if ts.len() == 0 {
        None
    } else {
        let cmd = ts[0];
        if cmd == "readyStatus"@ {
            if ts.len() == 3 {
                match spec_parse_bool(ts[2]) {
                    Some(b) => Some(MessageV::ReadyStatus { nick: ts[1], ready: b }),
                    None => None,
                }
            } else {
                None
            }
        } else if cmd == "gameStart"@ {
            if ts.len() == 1 {
                Some(MessageV::GameStart)
            } else {
                None
            }
        } else if cmd == "playerColor"@ {
            if ts.len() == 3 && ts[2].len() == 1 {
                Some(MessageV::PlayerColor { nick: ts[1], color: ts[2][0] })
            } else {
                None
            }
        } else if cmd == "turn"@ {
            if ts.len() == 2 {
                Some(MessageV::Turn { nick: ts[1] })
            } else {
                None
            }
        } else if cmd == "selectCell"@ {
            if ts.len() == 3 {
                match (spec_parse_usize(ts[1]), spec_parse_usize(ts[2])) {
                    (Some(row), Some(col)) => Some(MessageV::SelectCell { row, col }),
                    _ => None,
                }
            } else {
                None
            }
        } else if cmd == "deselectCell"@ {
            if ts.len() == 1 {
                Some(MessageV::DeselectCell)
            } else {
                None
            }
        } else if cmd == "gameFinish"@ {
            if ts.len() == 2 {
                Some(MessageV::GameFinish { winner: ts[1] })
            } else {
                None
            }
        } else if cmd == "upgradePhase"@ {
            if ts.len() == 1 {
                Some(MessageV::UpgradePhase)
            } else {
                None
            }
        } else if cmd == "energyLeft"@ {
            if ts.len() == 2 {
                match spec_parse_usize(ts[1]) {
                    Some(n) => Some(MessageV::EnergyLeft(n)),
                    None => None,
                }
            } else {
                None
            }
        } else if cmd == "mapLine"@ {
            if ts.len() == 3 {
                match (spec_parse_usize(ts[1]), spec_parse_cells(ts[2])) {
                    (Some(index), Some(cells)) => Some(MessageV::MapLine(index, cells)),
                    _ => None,
                }
            } else {
                None
            }
        } else if cmd == "gameList"@ {
            if ts.len() == 3 {
                match spec_parse_usize(ts[2]) {
                    Some(n) => Some(MessageV::GameList { name: ts[1], player_count: n }),
                    None => None,
                }
            } else {
                None
            }
        } else if cmd == "gameEntered"@ {
            if ts.len() == 3 {
                match spec_parse_play_type(ts[2]) {
                    Some(p) => Some(MessageV::GameEntered { name: ts[1], typ: p }),
                    None => None,
                }
            } else {
                None
            }
        } else if cmd == "gameLeft"@ {
            if ts.len() == 2 {
                Some(MessageV::GameLeft { nick: ts[1] })
            } else {
                None
            }
        } else if cmd == "hover"@ {
            if ts.len() == 3 && ts[2] == "none"@ {
                Some(MessageV::HoverNone { nick: ts[1] })
            } else if ts.len() == 4 {
                match (spec_parse_usize(ts[2]), spec_parse_usize(ts[3])) {
                    (Some(row), Some(col)) => Some(
                        MessageV::HoverCell { nick: ts[1], row, col },
                    ),
                    _ => None,
                }
            } else {
                None
            }
        } else if cmd == "spectatorJoin"@ {
            if ts.len() == 2 {
                Some(MessageV::SpectatorJoin { nick: ts[1] })
            } else {
                None
            }
        } else if cmd == "canMove"@ {
            if (ts.len() - 1) % 2 == 0 && (forall|i: int|
                1 <= i < ts.len() ==> spec_parse_usize(#[trigger] ts[i]) is Some) {
                Some(
                    MessageV::CanMove {
                        cells: Seq::new(
                            ((ts.len() - 1) / 2) as nat,
                            |i: int|
                                (
                                    spec_parse_usize(ts[2 * i + 1]).unwrap(),
                                    spec_parse_usize(ts[2 * i + 2]).unwrap(),
                                ),
                        ),
                    },
                )
            } else {
                None
            }
        } else {
            None
        }
    }
}

/// What a whole wire line means.
pub open spec fn spec_decode(line: Seq<char>) -> Option<MessageV> {
    spec_parse_tokens(spec_tokenize(line))
}

/// The token under which a line's leading word is a known command.
pub open spec fn is_command_tok(t: Seq<char>) -> bool {
    ||| t == "readyStatus"@
    ||| t == "gameStart"@
    ||| t == "playerColor"@
    ||| t == "turn"@
    ||| t == "selectCell"@
    ||| t == "deselectCell"@
    ||| t == "gameFinish"@
    ||| t == "upgradePhase"@
    ||| t == "energyLeft"@
    ||| t == "mapLine"@
    ||| t == "gameList"@
    ||| t == "gameEntered"@
    ||| t == "gameLeft"@
    ||| t == "hover"@
    ||| t == "spectatorJoin"@
    ||| t == "canMove"@
}

/// A line whose leading token is not a known command never decodes to a
/// message: it is reported unparseable, with nothing raised and nothing
/// consumed beyond the lookup.
pub proof fn lemma_unknown_command_unparseable(line: Seq<char>)
    requires
        spec_tokenize(line).len() == 0 || !is_command_tok(spec_tokenize(line)[0]),
    ensures
        spec_decode(line) is None,
{
}

/// A message the wire can carry faithfully: every name is a non-empty,
/// whitespace-free token, a map row has at least one cell, and a cell
/// owner's colour code survives the row's `|`-joined token.
pub open spec fn wf_message(m: MessageV) -> bool {
    match m {
        MessageV::ReadyStatus { nick, .. } => wf_token(nick),
        MessageV::MapLine(_, cells) => cells.len() >= 1 && (forall|i: int|
            0 <= i < cells.len() ==> wf_cell(#[trigger] cells[i])),
        MessageV::GameStart => true,
        MessageV::PlayerColor { nick, color } => wf_token(nick) && !is_ws(color),
        MessageV::Turn { nick } => wf_token(nick),
        MessageV::SelectCell { .. } => true,
        MessageV::DeselectCell => true,
        MessageV::GameFinish { winner } => wf_token(winner),
        MessageV::UpgradePhase => true,
        MessageV::EnergyLeft(_) => true,
        MessageV::GameList { name, .. } => wf_token(name),
        MessageV::GameEntered { name, .. } => wf_token(name),
        MessageV::GameLeft { nick } => wf_token(nick),
        MessageV::HoverCell { nick, .. } => wf_token(nick),
        MessageV::HoverNone { nick } => wf_token(nick),
        MessageV::SpectatorJoin { nick } => wf_token(nick),
        MessageV::CanMove { .. } => true,
    }
}

/// A cell whose owner code neither dissolves in whitespace nor collides
/// with the `|` separator of its row token.
pub open spec fn wf_cell(c: Option<GameCell>) -> bool {
    match c {
        Some(GameCell::Populated { owner, .. }) => !is_ws(owner) && owner != '|',
        _ => true,
    }
}

/// Appending one more pair appends its two numeral tokens.
proof fn lemma_pair_toks_snoc(cells: Seq<(usize, usize)>, p: (usize, usize))
    ensures
        pair_toks(cells.push(p)) == pair_toks(cells) + seq![
            dec_digits(p.0 as nat),
            dec_digits(p.1 as nat),
        ],
    decreases cells.len(),
{
    reveal_with_fuel(pair_toks, 3);
    if cells.len() == 0 {
        assert(cells.push(p)[0] == p);
        assert(cells.push(p).drop_first() =~= Seq::<(usize, usize)>::empty());
        assert(pair_toks(cells.push(p)) =~= pair_toks(cells) + seq![
            dec_digits(p.0 as nat),
            dec_digits(p.1 as nat),
        ]);
    } else {
        lemma_pair_toks_snoc(cells.drop_first(), p);
        assert(cells.push(p).drop_first() =~= cells.drop_first().push(p));
        assert(cells.push(p)[0] == cells[0]);
        assert(pair_toks(cells.push(p)) =~= pair_toks(cells) + seq![
            dec_digits(p.0 as nat),
            dec_digits(p.1 as nat),
        ]);
    }
}

/// The wire text of one cell.
fn encode_cell(c: &Option<GameCell>) -> (r: String)
    ensures
        r@ == cell_tok(*c),
{
    match c {
        None => {
            let r = String::from_str("__");
            proof {
                reveal_strlit("__");
                assert(r@ =~= cell_tok(*c));
            }
            r
        },
        Some(GameCell::Empty) => {
            let r = String::from_str("##");
            proof {
                reveal_strlit("##");
                assert(r@ =~= cell_tok(*c));
            }
            r
        },
        Some(GameCell::Populated { count, owner }) => {
            let mut r = format_usize(*count);
            push_char(&mut r, *owner);
            proof {
                assert(r@ =~= cell_tok(*c));
            }
            r
        },
    }
}

/// The `|`-joined wire text of a whole row of cells.
fn encode_cells(cells: &Vec<Option<GameCell>>) -> (r: String)
    requires
        cells@.len() >= 1,
    ensures
        r@ == cells_tok(cells@),
{
    let ghost ps = cells@.map_values(|c: Option<GameCell>| cell_tok(c));
    let mut r = encode_cell(&cells[0]);
    proof {
        assert(cells@.take(1).map_values(|c: Option<GameCell>| cell_tok(c)) =~= seq![
            cell_tok(cells@[0]),
        ]);
        assert(r@ =~= join_with(cells@.take(1).map_values(|c: Option<GameCell>| cell_tok(c)), '|'));
    }
    let mut i: usize = 1;
    while i < cells.len()
        invariant
            1 <= i <= cells@.len(),
            r@ == join_with(cells@.take(i as int).map_values(|c: Option<GameCell>| cell_tok(c)), '|'),
        decreases cells@.len() - i,
    {
        push_char(&mut r, '|');
        let piece = encode_cell(&cells[i]);
        r.append(piece.as_str());
        proof {
            let f = |c: Option<GameCell>| cell_tok(c);
            let prev = cells@.take(i as int).map_values(f);
            lemma_join_with_snoc(prev, cell_tok(cells@[i as int]), '|');
            assert(cells@.take(i as int + 1).map_values(f) =~= prev.push(cell_tok(cells@[i as int])));
            assert(r@ =~= join_with(cells@.take(i as int + 1).map_values(f), '|'));
        }
        i = i + 1;
    }
    proof {
        assert(cells@.take(cells@.len() as int) =~= cells@);
    }
    r
}

impl ServerMessage {
    /// The one wire line that carries this message.
    pub fn encode(&self) -> (r: String)
        ensures
            r@ == spec_encode(self@),
    {
        let ghost ts = tokens_of(self@);
        match self {
            ServerMessage::ReadyStatus { nick, ready } => {
                let mut r = String::from_str("readyStatus");
                push_char(&mut r, ' ');
                r.append(nick.as_str());
                push_char(&mut r, ' ');
                r.append(if *ready { "true" } else { "false" });
                proof {
                    reveal_with_fuel(join_tokens, 5);
                    assert(ts.drop_first() =~= seq![nick@, bool_tok(*ready)]);
                    assert(seq![nick@, bool_tok(*ready)].drop_first() =~= seq![bool_tok(*ready)]);
                    assert(r@ =~= join_tokens(ts));
                }
                r
            },
            ServerMessage::MapLine(index, cells) => {
                let mut r = String::from_str("mapLine");
                push_char(&mut r, ' ');
                let num = format_usize(*index);
                r.append(num.as_str());
                push_char(&mut r, ' ');
                if cells.len() == 0 {
                    proof {
                        reveal_with_fuel(join_tokens, 5);
                        assert(cells@.map_values(|c: Option<GameCell>| cell_tok(c))
                            =~= Seq::<Seq<char>>::empty());
                        assert(cells_tok(cells@) =~= Seq::<char>::empty());
                        assert(ts.drop_first() =~= seq![dec_digits(*index as nat), cells_tok(cells@)]);
                        assert(seq![dec_digits(*index as nat), cells_tok(cells@)].drop_first()
                            =~= seq![cells_tok(cells@)]);
                        assert(r@ =~= join_tokens(ts));
                    }
                    r
                } else {
                    let row = encode_cells(cells);
                    r.append(row.as_str());
                    proof {
                        reveal_with_fuel(join_tokens, 5);
                        assert(ts.drop_first() =~= seq![dec_digits(*index as nat), cells_tok(cells@)]);
                        assert(seq![dec_digits(*index as nat), cells_tok(cells@)].drop_first()
                            =~= seq![cells_tok(cells@)]);
                        assert(r@ =~= join_tokens(ts));
                    }
                    r
                }
            },
            ServerMessage::GameStart => {
                let r = String::from_str("gameStart");
                proof {
                    assert(r@ =~= join_tokens(ts));
                }
                r
            },
            ServerMessage::PlayerColor { nick, color } => {
                let mut r = String::from_str("playerColor");
                push_char(&mut r, ' ');
                r.append(nick.as_str());
                push_char(&mut r, ' ');
                push_char(&mut r, *color);
                proof {
                    reveal_with_fuel(join_tokens, 5);
                    assert(ts.drop_first() =~= seq![nick@, seq![*color]]);
                    assert(seq![nick@, seq![*color]].drop_first() =~= seq![seq![*color]]);
                    assert(r@ =~= join_tokens(ts));
                }
                r
            },
            ServerMessage::Turn { nick } => {
                let mut r = String::from_str("turn");
                push_char(&mut r, ' ');
                r.append(nick.as_str());
                proof {
                    reveal_with_fuel(join_tokens, 5);
                    assert(ts.drop_first() =~= seq![nick@]);
                    assert(r@ =~= join_tokens(ts));
                }
                r
            },
            ServerMessage::SelectCell { row, col } => {
                let mut r = String::from_str("selectCell");
                push_char(&mut r, ' ');
                let a = format_usize(*row);
                r.append(a.as_str());
                push_char(&mut r, ' ');
                let b = format_usize(*col);
                r.append(b.as_str());
                proof {
                    reveal_with_fuel(join_tokens, 5);
                    assert(ts.drop_first() =~= seq![
                        dec_digits(*row as nat),
                        dec_digits(*col as nat),
                    ]);
                    assert(seq![dec_digits(*row as nat), dec_digits(*col as nat)].drop_first()
                        =~= seq![dec_digits(*col as nat)]);
                    assert(r@ =~= join_tokens(ts));
                }
                r
            },
            ServerMessage::DeselectCell => {
                let r = String::from_str("deselectCell");
                proof {
                    assert(r@ =~= join_tokens(ts));
                }
                r
            },
            ServerMessage::GameFinish { winner } => {
                let mut r = String::from_str("gameFinish");
                push_char(&mut r, ' ');
                r.append(winner.as_str());
                proof {
                    reveal_with_fuel(join_tokens, 5);
                    assert(ts.drop_first() =~= seq![winner@]);
                    assert(r@ =~= join_tokens(ts));
                }
                r
            },
            ServerMessage::UpgradePhase => {
                let r = String::from_str("upgradePhase");
                proof {
                    assert(r@ =~= join_tokens(ts));
                }
                r
            },
            ServerMessage::EnergyLeft(n) => {
                let mut r = String::from_str("energyLeft");
                push_char(&mut r, ' ');
                let a = format_usize(*n);
                r.append(a.as_str());
                proof {
                    reveal_with_fuel(join_tokens, 5);
                    assert(ts.drop_first() =~= seq![dec_digits(*n as nat)]);
                    assert(r@ =~= join_tokens(ts));
                }
                r
            },
            ServerMessage::GameList { name, player_count } => {
                let mut r = String::from_str("gameList");
                push_char(&mut r, ' ');
                r.append(name.as_str());
                push_char(&mut r, ' ');
                let a = format_usize(*player_count);
                r.append(a.as_str());
                proof {
                    reveal_with_fuel(join_tokens, 5);
                    assert(ts.drop_first() =~= seq![name@, dec_digits(*player_count as nat)]);
                    assert(seq![name@, dec_digits(*player_count as nat)].drop_first() =~= seq![
                        dec_digits(*player_count as nat),
                    ]);
                    assert(r@ =~= join_tokens(ts));
                }
                r
            },
            ServerMessage::GameEntered { name, typ } => {
                let mut r = String::from_str("gameEntered");
                push_char(&mut r, ' ');
                r.append(name.as_str());
                push_char(&mut r, ' ');
                r.append(
                    match typ {
                        PlayType::Player => "player",
                        PlayType::Spectator => "spectator",
                    },
                );
                proof {
                    reveal_with_fuel(join_tokens, 5);
                    assert(ts.drop_first() =~= seq![name@, play_type_tok(*typ)]);
                    assert(seq![name@, play_type_tok(*typ)].drop_first() =~= seq![
                        play_type_tok(*typ),
                    ]);
                    assert(r@ =~= join_tokens(ts));
                }
                r
            },
            ServerMessage::GameLeft { nick } => {
                let mut r = String::from_str("gameLeft");
                push_char(&mut r, ' ');
                r.append(nick.as_str());
                proof {
                    reveal_with_fuel(join_tokens, 5);
                    assert(ts.drop_first() =~= seq![nick@]);
                    assert(r@ =~= join_tokens(ts));
                }
                r
            },
            ServerMessage::HoverCell { nick, row, col } => {
                let mut r = String::from_str("hover");
                push_char(&mut r, ' ');
                r.append(nick.as_str());
                push_char(&mut r, ' ');
                let a = format_usize(*row);
                r.append(a.as_str());
                push_char(&mut r, ' ');
                let b = format_usize(*col);
                r.append(b.as_str());
                proof {
                    reveal_with_fuel(join_tokens, 5);
                    let rest = seq![nick@, dec_digits(*row as nat), dec_digits(*col as nat)];
                    assert(ts.drop_first() =~= rest);
                    assert(rest.drop_first() =~= seq![
                        dec_digits(*row as nat),
                        dec_digits(*col as nat),
                    ]);
                    assert(seq![dec_digits(*row as nat), dec_digits(*col as nat)].drop_first()
                        =~= seq![dec_digits(*col as nat)]);
                    assert(r@ =~= join_tokens(ts));
                }
                r
            },
            ServerMessage::HoverNone { nick } => {
                let mut r = String::from_str("hover");
                push_char(&mut r, ' ');
                r.append(nick.as_str());
                push_char(&mut r, ' ');
                r.append("none");
                proof {
                    reveal_with_fuel(join_tokens, 5);
                    assert(ts.drop_first() =~= seq![nick@, "none"@]);
                    assert(seq![nick@, "none"@].drop_first() =~= seq!["none"@]);
                    assert(r@ =~= join_tokens(ts));
                }
                r
            },
            ServerMessage::SpectatorJoin { nick } => {
                let mut r = String::from_str("spectatorJoin");
                push_char(&mut r, ' ');
                r.append(nick.as_str());
                proof {
                    reveal_with_fuel(join_tokens, 5);
                    assert(ts.drop_first() =~= seq![nick@]);
                    assert(r@ =~= join_tokens(ts));
                }
                r
            },
            ServerMessage::CanMove { cells } => {
                let mut r = String::from_str("canMove");
                proof {
                    assert(seq!["canMove"@] + pair_toks(cells@.take(0)) =~= seq!["canMove"@]);
                    assert(r@ =~= join_tokens(seq!["canMove"@] + pair_toks(cells@.take(0))));
                }
                let mut i: usize = 0;
                while i < cells.len()
                    invariant
                        i <= cells@.len(),
                        r@ == join_tokens(seq!["canMove"@] + pair_toks(cells@.take(i as int))),
                    decreases cells@.len() - i,
                {
                    let (row, col) = cells[i];
                    push_char(&mut r, ' ');
                    let a = format_usize(row);
                    r.append(a.as_str());
                    push_char(&mut r, ' ');
                    let b = format_usize(col);
                    r.append(b.as_str());
                    proof {
                        let base = seq!["canMove"@] + pair_toks(cells@.take(i as int));
                        let d0 = dec_digits(cells@[i as int].0 as nat);
                        let d1 = dec_digits(cells@[i as int].1 as nat);
                        lemma_join_tokens_snoc(base, d0);
                        lemma_join_tokens_snoc(base.push(d0), d1);
                        lemma_pair_toks_snoc(cells@.take(i as int), cells@[i as int]);
                        assert(cells@.take(i as int + 1) =~= cells@.take(i as int).push(
                            cells@[i as int],
                        ));
                        assert(seq!["canMove"@] + pair_toks(cells@.take(i as int + 1))
                            =~= base.push(d0).push(d1));
                        assert(r@ =~= join_tokens(base.push(d0).push(d1)));
                    }
                    i = i + 1;
                }
                proof {
                    assert(cells@.take(cells@.len() as int) =~= cells@);
                }
                r
            },
        }
    }
}

/// Reads one cell token of a map row.
fn parse_cell(p: &str) -> (r: Option<Option<GameCell>>)
    ensures
        r == spec_parse_cell(p@),
{
    let n = p.unicode_len();
    if n == 2 && p.get_char(0) == '#' && p.get_char(1) == '#' {
        Some(Some(GameCell::Empty))
    } else if n == 2 && p.get_char(0) == '_' && p.get_char(1) == '_' {
        Some(None)
    } else if n >= 2 {
        let digits = p.substring_char(0, n - 1);
        proof {
            assert(digits@ =~= p@.drop_last());
        }
        match parse_usize(digits) {
            Some(count) => Some(Some(GameCell::Populated { count, owner: p.get_char(n - 1) })),
            None => None,
        }
    } else {
        None
    }
}

/// Reads a whole `|`-joined row token; `None` as soon as any cell token is
/// ill-formed.
#[verifier::loop_isolation(false)]
fn parse_cells(t: &str) -> (r: Option<Vec<Option<GameCell>>>)
    ensures
        match r {
            Some(v) => spec_parse_cells(t@) == Some(v@),
            None => spec_parse_cells(t@) is None,
        },
{
    let ghost ps = split_on(t@, '|');
    let pieces = split_char(t, '|');
    let mut out: Vec<Option<GameCell>> = Vec::new();
    let mut i: usize = 0;
    while i < pieces.len()
        invariant
            i <= pieces@.len(),
            pieces.deep_view() == ps,
            out@.len() == i,
            forall|j: int|
                0 <= j < i ==> spec_parse_cell(#[trigger] ps[j]) is Some && out@[j]
                    == spec_parse_cell(ps[j]).unwrap(),
        decreases pieces@.len() - i,
    {
        proof {
            assert(pieces.deep_view()[i as int] == pieces@[i as int]@);
        }
        match parse_cell(pieces[i].as_str()) {
            Some(c) => {
                out.push(c);
            },
            None => {
                proof {
                    assert(spec_parse_cell(ps[i as int]) is None);
                }
                return None;
            },
        }
        i = i + 1;
    }
    proof {
        let r = Seq::new(ps.len(), |j: int| spec_parse_cell(ps[j]).unwrap());
        assert(out@ =~= r);
    }
    Some(out)
}

impl ServerMessage {
    /// Reads one wire line as a protocol event. Every malformed line —
    /// unknown command, wrong arity, ill-formed argument — yields `None`
    /// rather than aborting, because lines arrive from untrusted peers.
    #[verifier::loop_isolation(false)]
    pub fn parse(message: &str) -> (r: Option<ServerMessage>)
        ensures
            match r {
                Some(m) => spec_decode(message@) == Some(m@),
                None => spec_decode(message@) is None,
            },
    {
        let tokens = tokenize(message);
        let ghost ts = spec_tokenize(message@);
        if tokens.len() == 0 {
            return None;
        }
        proof {
            assert forall|i: int| 0 <= i < ts.len() implies tokens@[i]@ == #[trigger] ts[i] by {
                assert(tokens.deep_view()[i] == tokens@[i]@);
            }
        }
        let cmd = &tokens[0];
        if str_eq(cmd, "readyStatus") {
            if tokens.len() == 3 {
                let ready = if str_eq(&tokens[2], "true") {
                    Some(true)
                } else if str_eq(&tokens[2], "false") {
                    Some(false)
                } else {
                    None
                };
                match ready {
                    Some(b) => Some(
                        ServerMessage::ReadyStatus { nick: tokens[1].clone(), ready: b },
                    ),
                    None => None,
                }
            } else {
                None
            }
        } else if str_eq(cmd, "gameStart") {
            if tokens.len() == 1 {
                Some(ServerMessage::GameStart)
            } else {
                None
            }
        } else if str_eq(cmd, "playerColor") {
            if tokens.len() == 3 && tokens[2].as_str().unicode_len() == 1 {
                Some(
                    ServerMessage::PlayerColor {
                        nick: tokens[1].clone(),
                        color: tokens[2].as_str().get_char(0),
                    },
                )
            } else {
                None
            }
        } else if str_eq(cmd, "turn") {
            if tokens.len() == 2 {
                Some(ServerMessage::Turn { nick: tokens[1].clone() })
            } else {
                None
            }
        } else if str_eq(cmd, "selectCell") {
            if tokens.len() == 3 {
                match (parse_usize(tokens[1].as_str()), parse_usize(tokens[2].as_str())) {
                    (Some(row), Some(col)) => Some(ServerMessage::SelectCell { row, col }),
                    _ => None,
                }
            } else {
                None
            }
        } else if str_eq(cmd, "deselectCell") {
            if tokens.len() == 1 {
                Some(ServerMessage::DeselectCell)
            } else {
                None
            }
        } else if str_eq(cmd, "gameFinish") {
            if tokens.len() == 2 {
                Some(ServerMessage::GameFinish { winner: tokens[1].clone() })
            } else {
                None
            }
        } else if str_eq(cmd, "upgradePhase") {
            if tokens.len() == 1 {
                Some(ServerMessage::UpgradePhase)
            } else {
                None
            }
        } else if str_eq(cmd, "energyLeft") {
            if tokens.len() == 2 {
                match parse_usize(tokens[1].as_str()) {
                    Some(n) => Some(ServerMessage::EnergyLeft(n)),
                    None => None,
                }
            } else {
                None
            }
        } else if str_eq(cmd, "mapLine") {
            if tokens.len() == 3 {
                match parse_usize(tokens[1].as_str()) {
                    Some(index) => match parse_cells(tokens[2].as_str()) {
                        Some(cells) => Some(ServerMessage::MapLine(index, cells)),
                        None => None,
                    },
                    None => None,
                }
            } else {
                None
            }
        } else if str_eq(cmd, "gameList") {
            if tokens.len() == 3 {
                match parse_usize(tokens[2].as_str()) {
                    Some(n) => Some(
                        ServerMessage::GameList { name: tokens[1].clone(), player_count: n },
                    ),
                    None => None,
                }
            } else {
                None
            }
        } else if str_eq(cmd, "gameEntered") {
            if tokens.len() == 3 {
                let typ = if str_eq(&tokens[2], "player") {
                    Some(PlayType::Player)
                } else if str_eq(&tokens[2], "spectator") {
                    Some(PlayType::Spectator)
                } else {
                    None
                };
                match typ {
                    Some(p) => Some(
                        ServerMessage::GameEntered { name: tokens[1].clone(), typ: p },
                    ),
                    None => None,
                }
            } else {
                None
            }
        } else if str_eq(cmd, "gameLeft") {
            if tokens.len() == 2 {
                Some(ServerMessage::GameLeft { nick: tokens[1].clone() })
            } else {
                None
            }
        } else if str_eq(cmd, "hover") {
            if tokens.len() == 3 && str_eq(&tokens[2], "none") {
                Some(ServerMessage::HoverNone { nick: tokens[1].clone() })
            } else if tokens.len() == 4 {
                match (parse_usize(tokens[2].as_str()), parse_usize(tokens[3].as_str())) {
                    (Some(row), Some(col)) => Some(
                        ServerMessage::HoverCell { nick: tokens[1].clone(), row, col },
                    ),
                    _ => None,
                }
            } else {
                None
            }
        } else if str_eq(cmd, "spectatorJoin") {
            if tokens.len() == 2 {
                Some(ServerMessage::SpectatorJoin { nick: tokens[1].clone() })
            } else {
                None
            }
        } else if str_eq(cmd, "canMove") {
            if (tokens.len() - 1) % 2 != 0 {
                return None;
            }
            let pair_count = (tokens.len() - 1) / 2;
            let mut cells: Vec<(usize, usize)> = Vec::new();
            let mut j: usize = 0;
            while j < pair_count
                invariant
                    j <= pair_count,
                    pair_count == (ts.len() - 1) / 2,
                    (ts.len() - 1) % 2 == 0,
                    ts.len() >= 1,
                    ts == spec_tokenize(message@),
                    ts[0] == "canMove"@,
                    forall|i: int| 0 <= i < ts.len() ==> tokens@[i]@ == #[trigger] ts[i],
                    tokens@.len() == ts.len(),
                    cells@.len() == j,
                    forall|i: int|
                        0 <= i < j ==> spec_parse_usize(#[trigger] ts[2 * i + 1]) is Some
                            && spec_parse_usize(ts[2 * i + 2]) is Some && cells@[i] == (
                        spec_parse_usize(ts[2 * i + 1]).unwrap(),
                        spec_parse_usize(ts[2 * i + 2]).unwrap(),
                        ),
                decreases pair_count - j,
            {
                let row = match parse_usize(tokens[2 * j + 1].as_str()) {
                    Some(v) => v,
                    None => {
                        proof {
                            assert(1 <= 2 * j + 1 < ts.len());
                            assert(spec_parse_usize(ts[2 * j as int + 1]) is None);
                        }
                        return None;
                    },
                };
                let col = match parse_usize(tokens[2 * j + 2].as_str()) {
                    Some(v) => v,
                    None => {
                        proof {
                            assert(1 <= 2 * j + 2 < ts.len());
                            assert(spec_parse_usize(ts[2 * j as int + 2]) is None);
                        }
                        return None;
                    },
                };
                cells.push((row, col));
                j = j + 1;
            }
            proof {
                assert forall|i: int|
                    1 <= i < ts.len() implies spec_parse_usize(#[trigger] ts[i]) is Some by {
                    let k = i - 1;
                    if k % 2 == 0 {
                        assert(spec_parse_usize(ts[2 * (k / 2) + 1]) is Some);
                    } else {
                        assert(spec_parse_usize(ts[2 * ((k - 1) / 2) + 2]) is Some);
                    }
                }
                let r = Seq::new(
                    ((ts.len() - 1) / 2) as nat,
                    |i: int|
                        (
                            spec_parse_usize(ts[2 * i + 1]).unwrap(),
                            spec_parse_usize(ts[2 * i + 2]).unwrap(),
                        ),
                );
                assert(cells@ =~= r);
            }
            Some(ServerMessage::CanMove { cells })
        } else {
            None
        }
    }
}

/// Reveals every word of the wire vocabulary and pins the character facts
/// that tell same-length command words apart.
proof fn lemma_vocabulary()
    ensures
        wf_token("readyStatus"@),
        wf_token("gameStart"@),
        wf_token("playerColor"@),
        wf_token("turn"@),
        wf_token("selectCell"@),
        wf_token("deselectCell"@),
        wf_token("gameFinish"@),
        wf_token("upgradePhase"@),
        wf_token("energyLeft"@),
        wf_token("mapLine"@),
        wf_token("gameList"@),
        wf_token("gameEntered"@),
        wf_token("gameLeft"@),
        wf_token("hover"@),
        wf_token("spectatorJoin"@),
        wf_token("canMove"@),
        wf_token("none"@),
        wf_token("true"@),
        wf_token("false"@),
        wf_token("player"@),
        wf_token("spectator"@),
        "readyStatus"@.len() == 11,
        "gameStart"@.len() == 9,
        "playerColor"@.len() == 11,
        "turn"@.len() == 4,
        "selectCell"@.len() == 10,
        "deselectCell"@.len() == 12,
        "gameFinish"@.len() == 10,
        "upgradePhase"@.len() == 12,
        "energyLeft"@.len() == 10,
        "mapLine"@.len() == 7,
        "gameList"@.len() == 8,
        "gameEntered"@.len() == 11,
        "gameLeft"@.len() == 8,
        "hover"@.len() == 5,
        "spectatorJoin"@.len() == 13,
        "canMove"@.len() == 7,
        "none"@.len() == 4,
        "true"@.len() == 4,
        "false"@.len() == 5,
        "player"@.len() == 6,
        "spectator"@.len() == 9,
        "gameList"@ != "gameLeft"@,
        "turn"@ != "none"@,
        "turn"@ != "true"@,
        "none"@ != "true"@,
        "playerColor"@ != "readyStatus"@,
        "gameEntered"@ != "readyStatus"@,
        "gameEntered"@ != "playerColor"@,
        "gameFinish"@ != "selectCell"@,
        "energyLeft"@ != "selectCell"@,
        "energyLeft"@ != "gameFinish"@,
        "upgradePhase"@ != "deselectCell"@,
        "canMove"@ != "mapLine"@,
        "true"@ != "false"@,
        "player"@ != "spectator"@,
{
    reveal_strlit("readyStatus");
    reveal_strlit("gameStart");
    reveal_strlit("playerColor");
    reveal_strlit("turn");
    reveal_strlit("selectCell");
    reveal_strlit("deselectCell");
    reveal_strlit("gameFinish");
    reveal_strlit("upgradePhase");
    reveal_strlit("energyLeft");
    reveal_strlit("mapLine");
    reveal_strlit("gameList");
    reveal_strlit("gameEntered");
    reveal_strlit("gameLeft");
    reveal_strlit("hover");
    reveal_strlit("spectatorJoin");
    reveal_strlit("canMove");
    reveal_strlit("none");
    reveal_strlit("true");
    reveal_strlit("false");
    reveal_strlit("player");
    reveal_strlit("spectator");
    assert("gameList"@[5] == 'i' && "gameLeft"@[5] == 'e');
    assert("playerColor"@[0] == 'p' && "readyStatus"@[0] == 'r');
    assert("gameEntered"@[0] == 'g');
    assert("gameFinish"@[0] == 'g' && "selectCell"@[0] == 's');
    assert("energyLeft"@[0] == 'e');
    assert("upgradePhase"@[0] == 'u' && "deselectCell"@[0] == 'd');
    assert("canMove"@[0] == 'c' && "mapLine"@[0] == 'm');
    assert("turn"@[0] == 't' && "none"@[0] == 'n' && "true"@[1] == 'r');
    assert("gameStart"@[0] == 'g' && "spectator"@[0] == 's');
}

/// A well-formed cell's token reads back as exactly that cell.
proof fn lemma_cell_round_trip(c: Option<GameCell>)
    requires
        wf_cell(c),
    ensures
        spec_parse_cell(cell_tok(c)) == Some(c),
        cell_tok(c).len() >= 2,
        no_ws(cell_tok(c)),
        forall|j: int| 0 <= j < cell_tok(c).len() ==> #[trigger] cell_tok(c)[j] != '|',
{
    let p = cell_tok(c);
    match c {
        None => {
            assert(p[0] == '_' && p[1] == '_');
            assert(forall|j: int| 0 <= j < p.len() ==> !is_ws(#[trigger] p[j]) && p[j] != '|');
        },
        Some(GameCell::Empty) => {
            assert(p[0] == '#' && p[1] == '#');
            assert(forall|j: int| 0 <= j < p.len() ==> !is_ws(#[trigger] p[j]) && p[j] != '|');
        },
        Some(GameCell::Populated { count, owner }) => {
            lemma_dec_digits_val(count as nat);
            let d = dec_digits(count as nat);
            assert(p.drop_last() =~= d);
            assert(p.last() == owner);
            assert(crate::text::is_digit(d[0]));
            assert(p[0] == d[0]);
            assert(p[0] != '#' && p[0] != '_');
            assert(spec_parse_cell(p) == Some(c));
            crate::text::lemma_digits_no_ws(d);
            assert forall|j: int| 0 <= j < p.len() implies !is_ws(#[trigger] p[j]) && p[j]
                != '|' by {
                if j < p.len() - 1 {
                    assert(p[j] == d[j]);
                } else {
                    assert(p[j] == owner);
                }
            }
        },
    }
}

/// A well-formed row's `|`-joined token reads back as exactly its cells,
/// and is itself a well-formed wire token.
proof fn lemma_cells_round_trip(cells: Seq<Option<GameCell>>)
    requires
        cells.len() >= 1,
        forall|i: int| 0 <= i < cells.len() ==> wf_cell(#[trigger] cells[i]),
    ensures
        spec_parse_cells(cells_tok(cells)) == Some(cells),
        wf_token(cells_tok(cells)),
{
    let ps = cells.map_values(|c: Option<GameCell>| cell_tok(c));
    assert forall|i: int, j: int|
        0 <= i < ps.len() && 0 <= j < ps[i].len() implies #[trigger] ps[i][j] != '|' by {
        lemma_cell_round_trip(cells[i]);
    }
    lemma_split_join(ps, '|');
    assert(split_on(cells_tok(cells), '|') == ps);
    assert forall|i: int| 0 <= i < ps.len() implies spec_parse_cell(#[trigger] ps[i]) is Some by {
        lemma_cell_round_trip(cells[i]);
    }
    let r = Seq::new(ps.len(), |i: int| spec_parse_cell(ps[i]).unwrap());
    assert forall|i: int| 0 <= i < r.len() implies r[i] == cells[i] by {
        lemma_cell_round_trip(cells[i]);
    }
    assert(r =~= cells);
    assert forall|i: int| 0 <= i < ps.len() implies no_ws(#[trigger] ps[i]) by {
        lemma_cell_round_trip(cells[i]);
    }
    crate::text::lemma_join_with_no_ws(ps, '|');
    lemma_cell_round_trip(cells[0]);
    assert(join_with(ps, '|').len() >= ps[0].len());
}

/// The numeral pair tokens of a move list: two per pair, in order, each
/// token the numeral of the coordinate it stands for.
proof fn lemma_pair_toks(cells: Seq<(usize, usize)>)
    ensures
        pair_toks(cells).len() == 2 * cells.len(),
        forall|k: int|
            0 <= k < pair_toks(cells).len() ==> #[trigger] pair_toks(cells)[k] == (if k % 2 == 0 {
                dec_digits(cells[k / 2].0 as nat)
            } else {
                dec_digits(cells[(k - 1) / 2].1 as nat)
            }),
    decreases cells.len(),
{
    if cells.len() > 0 {
        lemma_pair_toks(cells.drop_first());
        let rest = cells.drop_first();
        assert forall|k: int|
            0 <= k < pair_toks(cells).len() implies #[trigger] pair_toks(cells)[k] == (if k % 2
            == 0 {
            dec_digits(cells[k / 2].0 as nat)
        } else {
            dec_digits(cells[(k - 1) / 2].1 as nat)
        }) by {
            if k >= 2 {
                assert(pair_toks(cells)[k] == pair_toks(rest)[k - 2]);
                if k % 2 == 0 {
                    assert(rest[(k - 2) / 2] == cells[k / 2]);
                } else {
                    assert(rest[(k - 3) / 2] == cells[(k - 1) / 2]);
                }
            }
        }
    }
}

/// Every token of a well-formed message's line is a well-formed wire token.
proof fn lemma_tokens_of_wf(m: MessageV)
    requires
        wf_message(m),
    ensures
        tokens_of(m).len() >= 1,
        forall|i: int| 0 <= i < tokens_of(m).len() ==> wf_token(#[trigger] tokens_of(m)[i]),
{
    lemma_vocabulary();
    let ts = tokens_of(m);
    match m {
        MessageV::ReadyStatus { .. } => {},
        MessageV::MapLine(index, cells) => {
            lemma_dec_digits_val(index as nat);
            crate::text::lemma_digits_no_ws(dec_digits(index as nat));
            lemma_cells_round_trip(cells);
        },
        MessageV::GameStart => {},
        MessageV::PlayerColor { nick, color } => {
            assert(wf_token(seq![color]));
        },
        MessageV::Turn { .. } => {},
        MessageV::SelectCell { row, col } => {
            lemma_dec_digits_val(row as nat);
            crate::text::lemma_digits_no_ws(dec_digits(row as nat));
            lemma_dec_digits_val(col as nat);
            crate::text::lemma_digits_no_ws(dec_digits(col as nat));
        },
        MessageV::DeselectCell => {},
        MessageV::GameFinish { .. } => {},
        MessageV::UpgradePhase => {},
        MessageV::EnergyLeft(n) => {
            lemma_dec_digits_val(n as nat);
            crate::text::lemma_digits_no_ws(dec_digits(n as nat));
        },
        MessageV::GameList { name, player_count } => {
            lemma_dec_digits_val(player_count as nat);
            crate::text::lemma_digits_no_ws(dec_digits(player_count as nat));
        },
        MessageV::GameEntered { .. } => {},
        MessageV::GameLeft { .. } => {},
        MessageV::HoverCell { nick, row, col } => {
            lemma_dec_digits_val(row as nat);
            crate::text::lemma_digits_no_ws(dec_digits(row as nat));
            lemma_dec_digits_val(col as nat);
            crate::text::lemma_digits_no_ws(dec_digits(col as nat));
        },
        MessageV::HoverNone { .. } => {},
        MessageV::SpectatorJoin { .. } => {},
        MessageV::CanMove { cells } => {
            lemma_pair_toks(cells);
            assert forall|i: int| 0 <= i < ts.len() implies wf_token(#[trigger] ts[i]) by {
                if i >= 1 {
                    let k = i - 1;
                    assert(ts[i] == pair_toks(cells)[k]);
                    if k % 2 == 0 {
                        lemma_dec_digits_val(cells[k / 2].0 as nat);
                        crate::text::lemma_digits_no_ws(dec_digits(cells[k / 2].0 as nat));
                    } else {
                        lemma_dec_digits_val(cells[(k - 1) / 2].1 as nat);
                        crate::text::lemma_digits_no_ws(dec_digits(cells[(k - 1) / 2].1 as nat));
                    }
                }
            }
        },
    }
}

/// A well-formed message's own token list parses back to exactly that
/// message.
proof fn lemma_parse_tokens_of(m: MessageV)
    requires
        wf_message(m),
    ensures
        spec_parse_tokens(tokens_of(m)) == Some(m),
{
    lemma_vocabulary();
    let ts = tokens_of(m);
    match m {
        MessageV::ReadyStatus { nick, ready } => {
            assert(spec_parse_bool(bool_tok(ready)) == Some(ready));
            assert(spec_parse_tokens(ts) == Some(m));
        },
        MessageV::MapLine(index, cells) => {
            lemma_dec_digits_val(index as nat);
            lemma_cells_round_trip(cells);
            assert(spec_parse_tokens(ts) == Some(m));
        },
        MessageV::GameStart => {
            assert(spec_parse_tokens(ts) == Some(m));
        },
        MessageV::PlayerColor { nick, color } => {
            assert(spec_parse_tokens(ts) == Some(m));
        },
        MessageV::Turn { .. } => {
            assert(spec_parse_tokens(ts) == Some(m));
        },
        MessageV::SelectCell { row, col } => {
            lemma_dec_digits_val(row as nat);
            lemma_dec_digits_val(col as nat);
            assert(spec_parse_tokens(ts) == Some(m));
        },
        MessageV::DeselectCell => {
            assert(spec_parse_tokens(ts) == Some(m));
        },
        MessageV::GameFinish { .. } => {
            assert(spec_parse_tokens(ts) == Some(m));
        },
        MessageV::UpgradePhase => {
            assert(spec_parse_tokens(ts) == Some(m));
        },
        MessageV::EnergyLeft(n) => {
            lemma_dec_digits_val(n as nat);
            assert(spec_parse_tokens(ts) == Some(m));
        },
        MessageV::GameList { name, player_count } => {
            lemma_dec_digits_val(player_count as nat);
            assert(spec_parse_tokens(ts) == Some(m));
        },
        MessageV::GameEntered { name, typ } => {
            assert(spec_parse_play_type(play_type_tok(typ)) == Some(typ));
            assert(spec_parse_tokens(ts) == Some(m));
        },
        MessageV::GameLeft { .. } => {
            assert(spec_parse_tokens(ts) == Some(m));
        },
        MessageV::HoverCell { nick, row, col } => {
            lemma_dec_digits_val(row as nat);
            lemma_dec_digits_val(col as nat);
            assert(ts.len() == 4);
            assert(spec_parse_tokens(ts) == Some(m));
        },
        MessageV::HoverNone { .. } => {
            assert(spec_parse_tokens(ts) == Some(m));
        },
        MessageV::SpectatorJoin { .. } => {
            assert(spec_parse_tokens(ts) == Some(m));
        },
        MessageV::CanMove { cells } => {
            lemma_pair_toks(cells);
            assert(ts.len() == 1 + 2 * cells.len());
            assert forall|i: int|
                1 <= i < ts.len() implies spec_parse_usize(#[trigger] ts[i]) is Some by {
                let k = i - 1;
                assert(ts[i] == pair_toks(cells)[k]);
                if k % 2 == 0 {
                    lemma_dec_digits_val(cells[k / 2].0 as nat);
                } else {
                    lemma_dec_digits_val(cells[(k - 1) / 2].1 as nat);
                }
            }
            let r = Seq::new(
                ((ts.len() - 1) / 2) as nat,
                |i: int|
                    (
                        spec_parse_usize(ts[2 * i + 1]).unwrap(),
                        spec_parse_usize(ts[2 * i + 2]).unwrap(),
                    ),
            );
            assert forall|i: int| 0 <= i < r.len() implies r[i] == cells[i] by {
                assert(ts[2 * i + 1] == pair_toks(cells)[2 * i]);
                assert(ts[2 * i + 2] == pair_toks(cells)[2 * i + 1]);
                assert((2 * i) % 2 == 0 && (2 * i) / 2 == i);
                assert((2 * i + 1) % 2 == 1 && ((2 * i + 1) - 1) / 2 == i);
                lemma_dec_digits_val(cells[i].0 as nat);
                lemma_dec_digits_val(cells[i].1 as nat);
            }
            assert(r =~= cells);
            assert(spec_parse_tokens(ts) == Some(m));
        },
    }
}

/// Decoding inverts encoding: every well-formed message survives the trip
/// onto the wire and back unchanged.
pub proof fn lemma_decode_encode(m: MessageV)
    requires
        wf_message(m),
    ensures
        spec_decode(spec_encode(m)) == Some(m),
{
    lemma_tokens_of_wf(m);
    lemma_tokenize_join(tokens_of(m));
    lemma_parse_tokens_of(m);
}

} // verus!
