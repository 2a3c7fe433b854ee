//! The engine protocol layer: the commands sent to the search engine, the
//! replies read back, and the errors the protocol surfaces.

use vstd::prelude::*;
use crate::piece::Player;
use crate::piece_move::{MoveParseError, PieceMove};
use crate::uci_info::UciEval;

verus! {

/// Why an engine reply could not be used.
#[derive(Clone, Copy, Debug, PartialEq, Eq, Structural)]
pub enum UciError {
    /// An integer field of an `info` line could not be parsed.
    NumericalParseError,
    /// The move of a `bestmove` line could not be parsed.
    PieceMoveParseError(MoveParseError),
    /// A reply arrived in a protocol state that cannot use it.
    UnexpectedReply,
}

/// A request handed to the protocol bridge: submit the played moves and ask
/// for a best move, ask only for a fresh evaluation, or shut the engine
/// down.
#[derive(Clone, Debug)]
pub enum UciMessage {
    NewMove { move_history: String, player_to_move: Player },
    UpdateEval { move_history: String, player_to_move: Player },
    CloseChannel,
}

} // verus!

verus! {

/// The search depth requested after a played move.
pub const SEARCH_DEPTH: u32 = 20;

/// The shallower depth requested when only the evaluation is refreshed.
pub const EVAL_DEPTH: u32 = 10;

/// The decimal digit character of `d`.
pub open spec fn spec_digit_char(d: int) -> char {
    if d == 0 { '0' } else if d == 1 { '1' } else if d == 2 { '2' } else if d == 3 { '3' }
    else if d == 4 { '4' } else if d == 5 { '5' } else if d == 6 { '6' } else if d == 7 { '7' }
    else if d == 8 { '8' } else { '9' }
}

/// The decimal text of a nonnegative number.
pub open spec fn spec_dec(n: int) -> Seq<char>
    decreases n,
{
    if n < 0 {
        Seq::empty()
    } else if n < 10 {
        seq![spec_digit_char(n)]
    } else {
        spec_dec(n / 10).push(spec_digit_char(n % 10))
    }
}

/// Append the decimal digit character of `d`.
fn push_digit_char(out: &mut String, d: u32)
    requires
        d < 10,
    ensures
        final(out)@ == old(out)@.push(spec_digit_char(d as int)),
{
    proof {
        reveal_strlit("0");
        reveal_strlit("1");
        reveal_strlit("2");
        reveal_strlit("3");
        reveal_strlit("4");
        reveal_strlit("5");
        reveal_strlit("6");
        reveal_strlit("7");
        reveal_strlit("8");
        reveal_strlit("9");
    }
    match d {
        0 => out.append("0"),
        1 => out.append("1"),
        2 => out.append("2"),
        3 => out.append("3"),
        4 => out.append("4"),
        5 => out.append("5"),
        6 => out.append("6"),
        7 => out.append("7"),
        8 => out.append("8"),
        _ => out.append("9"),
    }
    proof {
        assert(out@ =~= old(out)@.push(spec_digit_char(d as int)));
    }
}

/// Append the decimal text of `n`.
fn push_u32_dec(out: &mut String, n: u32)
    ensures
        final(out)@ == old(out)@ + spec_dec(n as int),
    decreases n,
{
    if n < 10 {
        push_digit_char(out, n);
        proof {
            assert(out@ =~= old(out)@ + spec_dec(n as int));
        }
    } else {
        push_u32_dec(out, n / 10);
        push_digit_char(out, n % 10);
        proof {
            assert(out@ =~= old(out)@ + spec_dec(n as int));
        }
    }
}

/// The `position` command submitting the game so far: the fixed starting
/// FEN followed by the moves played.
pub open spec fn spec_position_command(move_history: Seq<char>) -> Seq<char> {
    "position fen "@ + crate::fen::DEFAULT_FEN@ + " moves "@ + move_history
}

/// Write the `position` command for the given move-history text.
pub fn position_command(move_history: &str) -> (r: String)
    ensures
        r@ == spec_position_command(move_history@),
{
    let mut out = String::new();
    out.append("position fen ");
    out.append(crate::fen::DEFAULT_FEN);
    out.append(" moves ");
    out.append(move_history);
    proof {
        assert(out@ =~= spec_position_command(move_history@));
    }
    out
}

/// The `go depth` command for the given depth.
pub open spec fn spec_go_command(depth: int) -> Seq<char> {
    "go depth "@ + spec_dec(depth)
}

/// Write the `go depth` command.
pub fn go_depth_command(depth: u32) -> (r: String)
    ensures
        r@ == spec_go_command(depth as int),
{
    let mut out = String::new();
    out.append("go depth ");
    push_u32_dec(&mut out, depth);
    proof {
        assert(out@ =~= spec_go_command(depth as int));
    }
    out
}

/// Whether the line is exactly the given word, ignoring surrounding spaces.
fn line_is_word(line: &str, word: &str) -> (r: bool)
    ensures
        r == (crate::uci_info::spec_tokens(line@) =~= seq![word@]),
{
    let toks = crate::uci_info::tokenize(line);
    let ghost tv = toks@.map_values(|t: String| t@);
    if toks.len() == 1 {
        let r = crate::uci_info::str_eq(toks[0].as_str(), word);
        proof {
            assert(tv[0] == toks@[0]@);
            if r {
                assert(tv =~= seq![word@]);
            } else {
                assert(tv[0] != word@);
            }
        }
        r
    } else {
        proof {
            assert(tv.len() != 1);
        }
        false
    }
}

/// Whether the engine acknowledged the `uci` greeting.
pub fn is_uciok_line(line: &str) -> (r: bool)
    ensures
        r == (crate::uci_info::spec_tokens(line@) =~= seq!["uciok"@]),
{
    line_is_word(line, "uciok")
}

/// Whether the engine reported ready.
pub fn is_readyok_line(line: &str) -> (r: bool)
    ensures
        r == (crate::uci_info::spec_tokens(line@) =~= seq!["readyok"@]),
{
    line_is_word(line, "readyok")
}

/// Whether the line announces the engine's best move.
pub fn is_bestmove_line(line: &str) -> (r: bool)
    ensures
        r == (crate::uci_info::spec_tokens(line@).len() > 0 && crate::uci_info::spec_tokens(
            line@,
        )[0] == "bestmove"@),
{
    let toks = crate::uci_info::tokenize(line);
    let ghost tv = toks@.map_values(|t: String| t@);
    if toks.len() > 0 {
        let r = crate::uci_info::str_eq(toks[0].as_str(), "bestmove");
        proof {
            assert(tv[0] == toks@[0]@);
        }
        r
    } else {
        false
    }
}

/// The move a `bestmove` reply names, or the reason it names none.
pub open spec fn spec_parse_bestmove(line: Seq<char>) -> Result<PieceMove, UciError> {
    let toks = crate::uci_info::spec_tokens(line);
    if toks.len() >= 2 {
        match PieceMove::spec_from_algebraic(toks[1]) {
            Result::Ok(m) => Result::Ok(m),
            Result::Err(e) => Result::Err(UciError::PieceMoveParseError(e)),
        }
    } else {
        Result::Err(UciError::PieceMoveParseError(MoveParseError::WrongLength))
    }
}

/// Read the move out of a `bestmove` reply: its second token in
/// long-algebraic notation.
pub fn parse_bestmove(line: &str) -> (r: Result<PieceMove, UciError>)
    ensures
        r == spec_parse_bestmove(line@),
        r matches Result::Ok(m) ==> m.wf(),
{
    let toks = crate::uci_info::tokenize(line);
    let ghost tv = toks@.map_values(|t: String| t@);
    if toks.len() >= 2 {
        proof {
            assert(tv[1] == toks@[1]@);
        }
        match PieceMove::from_algebraic(toks[1].as_str()) {
            Result::Ok(m) => Result::Ok(m),
            Result::Err(e) => Result::Err(UciError::PieceMoveParseError(e)),
        }
    } else {
        Result::Err(UciError::PieceMoveParseError(MoveParseError::WrongLength))
    }
}

} // verus!

verus! {

/// Where the protocol stands: the startup handshake (awaiting `uciok`,
/// then three `readyok` acknowledgements around the option setting), the
/// idle state between requests, the `readyok` and `bestmove` waits of one
/// search request, and the shut-down state.
#[derive(Clone, Copy, Debug, PartialEq, Eq, Structural)]
pub enum UciState {
    AwaitUciOk,
    AwaitReadyInit { stage: u8 },
    Idle,
    AwaitReadyGo { eval_only: bool, player_to_move: Player },
    AwaitBestMove { eval_only: bool, player_to_move: Player },
    Closed,
}

/// What one protocol step asks the caller to do: lines to write to the
/// engine, and the parsed results to relay.
#[derive(Debug)]
pub struct UciReaction {
    pub send: Vec<String>,
    pub best_move: Option<PieceMove>,
    pub eval: Option<UciEval>,
    pub error: Option<UciError>,
}

/// The protocol driver: a state machine fed one engine line or one caller
/// request at a time, deciding what to write and what to relay. It never
/// performs I/O itself.
#[derive(Debug)]
pub struct UciSession {
    pub state: UciState,
    pub last_line: Option<String>,
}

impl UciSession {
    /// Start a session: the engine must first be greeted with `uci`.
    pub fn new() -> (r: (UciSession, String))
        ensures
            r.0.state == UciState::AwaitUciOk,
            r.0.last_line is None,
            r.1@ == "uci"@,
    {
        (
            UciSession { state: UciState::AwaitUciOk, last_line: Option::None },
            String::from_str("uci"),
        )
    }

    /// Take a caller request. Only an idle session accepts one: a search
    /// request submits the position and pings the engine, a shutdown
    /// request quits; in any other state the request is dropped.
    pub fn on_command(&mut self, cmd: &UciMessage) -> (send: Vec<String>)
        ensures
            ({
                let sv = send@.map_values(|s: String| s@);
                match (old(self).state, cmd) {
                    (UciState::Idle, UciMessage::NewMove { move_history, player_to_move }) => {
                        &&& final(self).state == (UciState::AwaitReadyGo {
                            eval_only: false,
                            player_to_move: *player_to_move,
                        })
                        &&& sv =~= seq![
                            spec_position_command(move_history@),
                            "isready"@,
                        ]
                        &&& final(self).last_line == old(self).last_line
                    },
                    (UciState::Idle, UciMessage::UpdateEval { move_history, player_to_move }) => {
                        &&& final(self).state == (UciState::AwaitReadyGo {
                            eval_only: true,
                            player_to_move: *player_to_move,
                        })
                        &&& sv =~= seq![
                            spec_position_command(move_history@),
                            "isready"@,
                        ]
                        &&& final(self).last_line == old(self).last_line
                    },
                    (UciState::Idle, UciMessage::CloseChannel) => {
                        &&& final(self).state == UciState::Closed
                        &&& sv =~= seq!["quit"@]
                        &&& final(self).last_line == old(self).last_line
                    },
                    _ => {
                        &&& *final(self) == *old(self)
                        &&& sv =~= Seq::<Seq<char>>::empty()
                    },
                }
            }),
    {
        let mut send: Vec<String> = Vec::new();
        let idle = match self.state {
            UciState::Idle => true,
            _ => false,
        };
        if idle {
            match cmd {
                UciMessage::NewMove { move_history, player_to_move } => {
                    send.push(position_command(move_history.as_str()));
                    send.push(String::from_str("isready"));
                    self.state = UciState::AwaitReadyGo {
                        eval_only: false,
                        player_to_move: *player_to_move,
                    };
                },
                UciMessage::UpdateEval { move_history, player_to_move } => {
                    send.push(position_command(move_history.as_str()));
                    send.push(String::from_str("isready"));
                    self.state = UciState::AwaitReadyGo {
                        eval_only: true,
                        player_to_move: *player_to_move,
                    };
                },
                UciMessage::CloseChannel => {
                    send.push(String::from_str("quit"));
                    self.state = UciState::Closed;
                },
            }
        }
        proof {
            assert(send@.map_values(|s: String| s@).len() == send@.len());
        }
        send
    }

    /// Take one line of engine output and step the protocol: handshake
    /// acknowledgements advance the startup sequence, `readyok` releases
    /// the pending `go`, a `bestmove` line closes a search (relaying the
    /// parsed move and the score of the info line that preceded it), and
    /// any other line is remembered as the latest info line while a search
    /// runs.
    pub fn on_line(&mut self, line: &str) -> (r: UciReaction)
        ensures
            ({
                let toks = crate::uci_info::spec_tokens(line@);
                let sv = r.send@.map_values(|s: String| s@);
                match old(self).state {
                    UciState::AwaitUciOk => if toks =~= seq!["uciok"@] {
                        &&& final(self).state == (UciState::AwaitReadyInit { stage: 0 })
                        &&& sv =~= seq!["isready"@]
                        &&& r.best_move is None && r.eval is None && r.error is None
                    } else {
                        &&& *final(self) == *old(self)
                        &&& sv =~= Seq::<Seq<char>>::empty()
                        &&& r.best_move is None && r.eval is None && r.error is None
                    },
                    UciState::AwaitReadyInit { stage } => if toks =~= seq!["readyok"@] {
                        &&& final(self).state == (if stage == 0 {
                            UciState::AwaitReadyInit { stage: 1 }
                        } else if stage == 1 {
                            UciState::AwaitReadyInit { stage: 2 }
                        } else {
                            UciState::Idle
                        })
                        &&& sv =~= (if stage == 0 {
                            seq!["setoption name Hash value 512"@, "isready"@]
                        } else if stage == 1 {
                            seq!["isready"@]
                        } else {
                            Seq::<Seq<char>>::empty()
                        })
                        &&& r.best_move is None && r.eval is None && r.error is None
                        &&& final(self).last_line == old(self).last_line
                    } else {
                        &&& *final(self) == *old(self)
                        &&& sv =~= Seq::<Seq<char>>::empty()
                        &&& r.best_move is None && r.eval is None && r.error is None
                    },
                    UciState::AwaitReadyGo { eval_only, player_to_move } => if toks =~= seq![
                        "readyok"@,
                    ] {
                        &&& final(self).state == (UciState::AwaitBestMove {
                            eval_only,
                            player_to_move,
                        })
                        &&& sv =~= seq![
                            spec_go_command(
                                if eval_only {
                                    EVAL_DEPTH as int
                                } else {
                                    SEARCH_DEPTH as int
                                },
                            ),
                        ]
                        &&& r.best_move is None && r.eval is None && r.error is None
                        &&& final(self).last_line == old(self).last_line
                    } else {
                        &&& *final(self) == *old(self)
                        &&& sv =~= Seq::<Seq<char>>::empty()
                        &&& r.best_move is None && r.eval is None && r.error is None
                    },
                    UciState::AwaitBestMove { eval_only, player_to_move } => if toks.len() > 0
                        && toks[0] == "bestmove"@ {
                        &&& final(self).state == UciState::Idle
                        &&& final(self).last_line is None
                        &&& sv =~= Seq::<Seq<char>>::empty()
                        &&& r.best_move == (if eval_only {
                            Option::<PieceMove>::None
                        } else {
                            match spec_parse_bestmove(line@) {
                                Result::Ok(m) => Option::Some(m),
                                Result::Err(_) => Option::None,
                            }
                        })
                        &&& r.eval == (match old(self).last_line {
                            Option::Some(l) => match crate::uci_info::spec_parse_info(l@) {
                                Result::Ok(info) => Option::Some(
                                    crate::uci_info::spec_white_perspective(
                                        info.eval,
                                        player_to_move,
                                    ),
                                ),
                                Result::Err(_) => Option::None,
                            },
                            Option::None => Option::None,
                        })
                        &&& r.error == (if !eval_only && spec_parse_bestmove(line@) is Err {
                            match spec_parse_bestmove(line@) {
                                Result::Err(e) => Option::Some(e),
                                Result::Ok(_) => Option::None,
                            }
                        } else {
                            Option::<UciError>::None
                        })
                    } else {
                        &&& final(self).state == old(self).state
                        &&& match final(self).last_line {
                            Option::Some(l) => l@ == line@,
                            Option::None => false,
                        }
                        &&& sv =~= Seq::<Seq<char>>::empty()
                        &&& r.best_move is None && r.eval is None && r.error is None
                    },
                    _ => {
                        &&& *final(self) == *old(self)
                        &&& sv =~= Seq::<Seq<char>>::empty()
                        &&& r.best_move is None && r.eval is None && r.error is None
                    },
                }
            }),
    {
        let mut send: Vec<String> = Vec::new();
        let mut best_move: Option<PieceMove> = Option::None;
        let mut eval: Option<UciEval> = Option::None;
        let mut error: Option<UciError> = Option::None;
        let state = self.state;
        match state {
            UciState::AwaitUciOk => {
                if is_uciok_line(line) {
                    send.push(String::from_str("isready"));
                    self.state = UciState::AwaitReadyInit { stage: 0 };
                }
            },
            UciState::AwaitReadyInit { stage } => {
                if is_readyok_line(line) {
                    if stage == 0 {
                        send.push(String::from_str("setoption name Hash value 512"));
                        send.push(String::from_str("isready"));
                        self.state = UciState::AwaitReadyInit { stage: 1 };
                    } else if stage == 1 {
                        send.push(String::from_str("isready"));
                        self.state = UciState::AwaitReadyInit { stage: 2 };
                    } else {
                        self.state = UciState::Idle;
                    }
                }
            },
            UciState::AwaitReadyGo { eval_only, player_to_move } => {
                if is_readyok_line(line) {
                    let depth = if eval_only {
                        EVAL_DEPTH
                    } else {
                        SEARCH_DEPTH
                    };
                    send.push(go_depth_command(depth));
                    self.state = UciState::AwaitBestMove { eval_only, player_to_move };
                }
            },
            UciState::AwaitBestMove { eval_only, player_to_move } => {
                if is_bestmove_line(line) {
                    if !eval_only {
                        match parse_bestmove(line) {
                            Result::Ok(m) => {
                                best_move = Option::Some(m);
                            },
                            Result::Err(e) => {
                                error = Option::Some(e);
                            },
                        }
                    }
                    match &self.last_line {
                        Option::Some(l) => {
                            match crate::uci_info::uci_parse_info(l.as_str()) {
                                Result::Ok(info) => {
                                    eval = Option::Some(
                                        crate::uci_info::white_perspective_eval(
                                            info.eval,
                                            player_to_move,
                                        ),
                                    );
                                },
                                Result::Err(_) => {},
                            }
                        },
                        Option::None => {},
                    }
                    self.last_line = Option::None;
                    self.state = UciState::Idle;
                } else {
                    self.last_line = Option::Some(line.to_owned());
                }
            },
            _ => {},
        }
        UciReaction { send, best_move, eval, error }
    }
}

} // verus!
