//! Parsing of the engine's `info` reply lines: tokenizing on spaces,
//! reading the search depth and the centipawn or mate score, and correcting
//! the score's perspective so that positive always favors white.

use vstd::prelude::*;
use vstd::string::*;
use crate::piece::Player;
use crate::uci::UciError;

verus! {

/// The tokens of `s` from index `i` on, split on runs of spaces, with `cur`
/// the token being read and `acc` the tokens already read.
pub open spec fn spec_split_at(
    s: Seq<char>,
    i: int,
    cur: Seq<char>,
    acc: Seq<Seq<char>>,
) -> Seq<Seq<char>>
    decreases s.len() - i,
{
    if i < 0 || i >= s.len() {
        if cur.len() > 0 {
            acc.push(cur)
        } else {
            acc
        }
    } else if s[i] == ' ' {
        if cur.len() > 0 {
            spec_split_at(s, i + 1, Seq::empty(), acc.push(cur))
        } else {
            spec_split_at(s, i + 1, cur, acc)
        }
    } else {
        spec_split_at(s, i + 1, cur.push(s[i]), acc)
    }
}

/// The space-separated tokens of `s`.
pub open spec fn spec_tokens(s: Seq<char>) -> Seq<Seq<char>> {
    spec_split_at(s, 0, Seq::empty(), Seq::empty())
}

/// Split `s` into its space-separated tokens.
pub fn tokenize(s: &str) -> (r: Vec<String>)
    ensures
        r@.map_values(|t: String| t@) == spec_tokens(s@),
{
    let n = s.unicode_len();
    let mut acc: Vec<String> = Vec::new();
    let mut i: usize = 0;
    proof {
        assert(acc@.map_values(|t: String| t@) =~= Seq::<Seq<char>>::empty());
    }
    while i < n
        invariant
            n == s@.len(),
            i <= n,
            spec_tokens(s@) == spec_split_at(
                s@,
                i as int,
                Seq::<char>::empty(),
                acc@.map_values(|t: String| t@),
            ),
        decreases n - i,
    {
        let c = s.get_char(i);
        if c == ' ' {
            i = i + 1;
        } else {
            let start = i;
            let mut j = i + 1;
            let mut scanning = true;
            proof {
                assert(Seq::<char>::empty().push(s@[i as int]) =~= s@.subrange(
                    i as int,
                    i + 1 as int,
                ));
            }
            while scanning && j < n
                invariant
                    n == s@.len(),
                    start < j <= n,
                    start < n,
                    spec_tokens(s@) == spec_split_at(
                        s@,
                        j as int,
                        s@.subrange(start as int, j as int),
                        acc@.map_values(|t: String| t@),
                    ),
                    !scanning ==> j < n && s@[j as int] == ' ',
                decreases n - j, (if scanning { 1int } else { 0int }),
            {
                if s.get_char(j) == ' ' {
                    scanning = false;
                } else {
                    proof {
                        assert(s@.subrange(start as int, j as int).push(s@[j as int])
                            =~= s@.subrange(start as int, j + 1 as int));
                    }
                    j = j + 1;
                }
            }
            let tok = s.substring_char(start, j).to_owned();
            let ghost pre = acc@.map_values(|t: String| t@);
            acc.push(tok);
            proof {
                assert(acc@.map_values(|t: String| t@) =~= pre.push(tok@));
            }
            i = j;
            if i < n {
                i = i + 1;
            }
        }
    }
    acc
}

/// The digit value of a decimal digit character.
pub open spec fn spec_digit(c: char) -> Option<int> {
    match c {
        '0' => Option::Some(0int),
        '1' => Option::Some(1int),
        '2' => Option::Some(2int),
        '3' => Option::Some(3int),
        '4' => Option::Some(4int),
        '5' => Option::Some(5int),
        '6' => Option::Some(6int),
        '7' => Option::Some(7int),
        '8' => Option::Some(8int),
        '9' => Option::Some(9int),
        _ => Option::None,
    }
}

/// The value of the decimal digits of `t` from `i` on, prefixed by `acc`,
/// or nothing if a non-digit occurs.
pub open spec fn spec_parse_uint(t: Seq<char>, i: int, acc: int) -> Option<int>
    decreases t.len() - i,
{
    if i < 0 || i >= t.len() {
        Option::Some(acc)
    } else {
        match spec_digit(t[i]) {
            Option::Some(d) => spec_parse_uint(t, i + 1, acc * 10 + d),
            Option::None => Option::None,
        }
    }
}

/// The value read never shrinks as more digits arrive.
proof fn lemma_parse_uint_grows(t: Seq<char>, i: int, acc: int)
    requires
        acc >= 0,
    ensures
        spec_parse_uint(t, i, acc) matches Option::Some(v) ==> v >= acc,
    decreases t.len() - i,
{
    if 0 <= i < t.len() {
        match spec_digit(t[i]) {
            Option::Some(d) => {
                lemma_parse_uint_grows(t, i + 1, acc * 10 + d);
            },
            Option::None => {},
        }
    }
}

/// The `u32` a token denotes: decimal digits only, rejecting empty tokens,
/// non-digits and overflow.
pub open spec fn spec_parse_u32(t: Seq<char>) -> Option<u32> {
    if t.len() == 0 {
        Option::None
    } else {
        match spec_parse_uint(t, 0, 0) {
            Option::Some(v) => if v <= u32::MAX {
                Option::Some(v as u32)
            } else {
                Option::None
            },
            Option::None => Option::None,
        }
    }
}

/// The `i32` a token denotes: an optional leading minus sign and decimal
/// digits, rejecting empty tokens, non-digits and overflow.
pub open spec fn spec_parse_i32(t: Seq<char>) -> Option<i32> {
    if t.len() == 0 {
        Option::None
    } else if t[0] == '-' {
        if t.len() == 1 {
            Option::None
        } else {
            match spec_parse_uint(t, 1, 0) {
                Option::Some(v) => if v <= 0x8000_0000 {
                    Option::Some((-v) as i32)
                } else {
                    Option::None
                },
                Option::None => Option::None,
            }
        }
    } else {
        match spec_parse_uint(t, 0, 0) {
            Option::Some(v) => if v <= i32::MAX {
                Option::Some(v as i32)
            } else {
                Option::None
            },
            Option::None => Option::None,
        }
    }
}

/// Read the decimal digits of `t` from `from` on as a nonnegative value,
/// bounded by `bound`.
fn parse_uint_from(t: &str, from: usize, bound: u64) -> (r: Option<u64>)
    requires
        from <= t@.len(),
        0 < bound <= 0xffff_ffff,
    ensures
        ({
            let sv = spec_parse_uint(t@, from as int, 0);
            match r {
                Option::Some(v) => sv == Option::Some(v as int) && v <= bound,
                Option::None => sv is None || (sv matches Option::Some(v) && v > bound),
            }
        }),
{
    let n = t.unicode_len();
    let mut acc: u64 = 0;
    let mut i = from;
    while i < n
        invariant
            n == t@.len(),
            from <= i <= n,
            acc <= bound,
            0 < bound <= 0xffff_ffff,
            spec_parse_uint(t@, from as int, 0) == spec_parse_uint(t@, i as int, acc as int),
        decreases n - i,
    {
        let c = t.get_char(i);
        let d: u64 = match c {
            '0' => 0,
            '1' => 1,
            '2' => 2,
            '3' => 3,
            '4' => 4,
            '5' => 5,
            '6' => 6,
            '7' => 7,
            '8' => 8,
            '9' => 9,
            _ => 10,
        };
        if d == 10 {
            proof {
                assert(spec_digit(t@[i as int]) is None);
            }
            return Option::None;
        }
        proof {
            assert(spec_digit(t@[i as int]) == Option::Some(d as int));
        }
        let next = acc * 10 + d;
        if next > bound {
            proof {
                lemma_parse_uint_grows(t@, i + 1 as int, next as int);
            }
            return Option::None;
        }
        acc = next;
        i = i + 1;
    }
    Option::Some(acc)
}

/// Parse a token as a `u32`.
pub fn parse_u32_token(t: &str) -> (r: Option<u32>)
    ensures
        r == spec_parse_u32(t@),
{
    let n = t.unicode_len();
    if n == 0 {
        return Option::None;
    }
    match parse_uint_from(t, 0, 0xffff_ffff) {
        Option::Some(v) => Option::Some(v as u32),
        Option::None => Option::None,
    }
}

/// Parse a token as an `i32`.
pub fn parse_i32_token(t: &str) -> (r: Option<i32>)
    ensures
        r == spec_parse_i32(t@),
{
    let n = t.unicode_len();
    if n == 0 {
        return Option::None;
    }
    if t.get_char(0) == '-' {
        if n == 1 {
            return Option::None;
        }
        match parse_uint_from(t, 1, 0x8000_0000) {
            Option::Some(v) => Option::Some((0i64 - v as i64) as i32),
            Option::None => Option::None,
        }
    } else {
        match parse_uint_from(t, 0, 0x7fff_ffff) {
            Option::Some(v) => Option::Some(v as i32),
            Option::None => Option::None,
        }
    }
}

} // verus!

verus! {

/// Whether two strings hold the same characters.
pub fn str_eq(a: &str, b: &str) -> (r: bool)
    ensures
        r == (a@ == b@),
{
    let la = a.unicode_len();
    let lb = b.unicode_len();
    if la != lb {
        return false;
    }
    let mut i: usize = 0;
    while i < la
        invariant
            la == a@.len(),
            la == b@.len(),
            i <= la,
            forall|k: int| 0 <= k < i ==> a@[k] == b@[k],
        decreases la - i,
    {
        if a.get_char(i) != b.get_char(i) {
            return false;
        }
        i = i + 1;
    }
    proof {
        assert(a@ =~= b@);
    }
    true
}

/// The depth and score fields read from one `info` line.
#[derive(Debug, Clone)]
pub struct UciInfo {
    pub depth: u32,
    pub eval: UciEval,
}

/// An engine evaluation: centipawns, or moves until mate.
#[derive(Debug, Clone, Copy, PartialEq, Eq, Structural)]
pub enum UciEval {
    Centipawn(i32),
    Mate(i32),
}

impl UciEval {
    /// The evaluation a `score` field denotes: `cp` gives centipawns, any
    /// other tag (the protocol only sends `mate` here) a mate distance.
    pub fn new(eval_type: &str, eval_value: i32) -> (r: UciEval)
        ensures
            r == if eval_type@ == "cp"@ {
                UciEval::Centipawn(eval_value)
            } else {
                UciEval::Mate(eval_value)
            },
    {
        if str_eq(eval_type, "cp") {
            UciEval::Centipawn(eval_value)
        } else {
            UciEval::Mate(eval_value)
        }
    }
}

impl Default for UciEval {
    /// An even evaluation.
    fn default() -> (r: UciEval)
        ensures
            r == UciEval::Centipawn(0),
    {
        UciEval::Centipawn(0)
    }
}

impl Default for UciInfo {
    /// Depth zero with an even evaluation.
    fn default() -> (r: UciInfo)
        ensures
            r.depth == 0,
            r.eval == UciEval::Centipawn(0),
    {
        UciInfo { depth: 0, eval: UciEval::Centipawn(0) }
    }
}

/// The token scanner behind [`uci_parse_info`], reading recognized keys
/// from token `i` on into `info`: `depth` takes an integer, `score` a
/// `cp`/`mate` tag and an integer, `pv` ends the scan, `multipv` checks its
/// integer, and unrecognized tokens are skipped.
pub open spec fn spec_parse_info_tokens(
    toks: Seq<Seq<char>>,
    i: int,
    info: UciInfo,
) -> Result<UciInfo, UciError>
    decreases toks.len() - i,
{
    if i < 0 || i >= toks.len() {
        Result::Ok(info)
    } else if toks[i] == "depth"@ {
        if i + 1 < toks.len() {
            match spec_parse_u32(toks[i + 1]) {
                Option::Some(d) => spec_parse_info_tokens(
                    toks,
                    i + 2,
                    UciInfo { depth: d, eval: info.eval },
                ),
                Option::None => Result::Err(UciError::NumericalParseError),
            }
        } else {
            Result::Err(UciError::NumericalParseError)
        }
    } else if toks[i] == "score"@ {
        if i + 2 < toks.len() {
            match spec_parse_i32(toks[i + 2]) {
                Option::Some(v) => spec_parse_info_tokens(
                    toks,
                    i + 3,
                    UciInfo {
                        depth: info.depth,
                        eval: if toks[i + 1] == "cp"@ {
                            UciEval::Centipawn(v)
                        } else {
                            UciEval::Mate(v)
                        },
                    },
                ),
                Option::None => Result::Err(UciError::NumericalParseError),
            }
        } else {
            Result::Err(UciError::NumericalParseError)
        }
    } else if toks[i] == "pv"@ {
        Result::Ok(info)
    } else if toks[i] == "multipv"@ {
        if i + 1 < toks.len() {
            match spec_parse_u32(toks[i + 1]) {
                Option::Some(_) => spec_parse_info_tokens(toks, i + 2, info),
                Option::None => Result::Err(UciError::NumericalParseError),
            }
        } else {
            Result::Err(UciError::NumericalParseError)
        }
    } else {
        spec_parse_info_tokens(toks, i + 1, info)
    }
}

/// What [`uci_parse_info`] reads from a whole line: the first token (the
/// `info` tag itself) is skipped, then the recognized keys are scanned.
pub open spec fn spec_parse_info(line: Seq<char>) -> Result<UciInfo, UciError> {
    spec_parse_info_tokens(spec_tokens(line), 1, UciInfo { depth: 0, eval: UciEval::Centipawn(0) })
}

/// Read the search depth and the score out of one engine `info` line. A
/// malformed or missing integer field is rejected, never defaulted.
pub fn uci_parse_info(line: &str) -> (r: Result<UciInfo, UciError>)
    ensures
        r == spec_parse_info(line@),
{
    let tokens = tokenize(line);
    let ghost toks = tokens@.map_values(|t: String| t@);
    let mut info = UciInfo { depth: 0, eval: UciEval::Centipawn(0) };
    let mut i: usize = 1;
    while i < tokens.len()
        invariant
            toks == tokens@.map_values(|t: String| t@),
            toks.len() == tokens@.len(),
            1 <= i,
            i <= toks.len() || (toks.len() == 0 && i == 1),
            spec_parse_info(line@) == spec_parse_info_tokens(toks, i as int, info),
        decreases toks.len() - i,
    {
        proof {
            assert(toks[i as int] == tokens@[i as int]@);
        }
        if str_eq(tokens[i].as_str(), "depth") {
            if tokens.len() - i > 1 {
                proof {
                    assert(toks[i + 1] == tokens@[i + 1]@);
                }
                match parse_u32_token(tokens[i + 1].as_str()) {
                    Option::Some(d) => {
                        info = UciInfo { depth: d, eval: info.eval };
                        i = i + 2;
                    },
                    Option::None => {
                        return Result::Err(UciError::NumericalParseError);
                    },
                }
            } else {
                return Result::Err(UciError::NumericalParseError);
            }
        } else if str_eq(tokens[i].as_str(), "score") {
            if tokens.len() - i > 2 {
                proof {
                    assert(toks[i + 1] == tokens@[i + 1]@);
                    assert(toks[i + 2] == tokens@[i + 2]@);
                }
                match parse_i32_token(tokens[i + 2].as_str()) {
                    Option::Some(v) => {
                        let ev = UciEval::new(tokens[i + 1].as_str(), v);
                        info = UciInfo { depth: info.depth, eval: ev };
                        i = i + 3;
                    },
                    Option::None => {
                        return Result::Err(UciError::NumericalParseError);
                    },
                }
            } else {
                return Result::Err(UciError::NumericalParseError);
            }
        } else if str_eq(tokens[i].as_str(), "pv") {
            return Result::Ok(info);
        } else if str_eq(tokens[i].as_str(), "multipv") {
            if tokens.len() - i > 1 {
                proof {
                    assert(toks[i + 1] == tokens@[i + 1]@);
                }
                match parse_u32_token(tokens[i + 1].as_str()) {
                    Option::Some(_) => {
                        i = i + 2;
                    },
                    Option::None => {
                        return Result::Err(UciError::NumericalParseError);
                    },
                }
            } else {
                return Result::Err(UciError::NumericalParseError);
            }
        } else {
            i = i + 1;
        }
    }
    Result::Ok(info)
}

/// An engine score corrected to white's perspective: engine scores favor
/// the side to move, so a score reported while black moves is negated (the
/// integer minimum saturates to the maximum).
pub open spec fn spec_white_perspective(eval: UciEval, player_to_move: Player) -> UciEval {
    match player_to_move {
        Player::White => eval,
        Player::Black => match eval {
            UciEval::Centipawn(v) => UciEval::Centipawn(
                if v == i32::MIN {
                    i32::MAX
                } else {
                    (0 - v) as i32
                },
            ),
            UciEval::Mate(v) => UciEval::Mate(
                if v == i32::MIN {
                    i32::MAX
                } else {
                    (0 - v) as i32
                },
            ),
        },
    }
}

/// Correct an engine score to white's perspective: engine scores favor the
/// side to move, so a score reported while black moves is negated (an
/// extreme centipawn or mate value at the integer minimum saturates to the
/// maximum). Positive results always favor white.
pub fn white_perspective_eval(eval: UciEval, player_to_move: Player) -> (r: UciEval)
    ensures
        r == spec_white_perspective(eval, player_to_move),
        player_to_move == Player::White ==> r == eval,
        player_to_move == Player::Black ==> r == match eval {
            UciEval::Centipawn(v) => UciEval::Centipawn(
                if v == i32::MIN {
                    i32::MAX
                } else {
                    (0 - v) as i32
                },
            ),
            UciEval::Mate(v) => UciEval::Mate(
                if v == i32::MIN {
                    i32::MAX
                } else {
                    (0 - v) as i32
                },
            ),
        },
{
    match player_to_move {
        Player::White => eval,
        Player::Black => match eval {
            UciEval::Centipawn(v) => UciEval::Centipawn(
                if v == i32::MIN {
                    i32::MAX
                } else {
                    0 - v
                },
            ),
            UciEval::Mate(v) => UciEval::Mate(
                if v == i32::MIN {
                    i32::MAX
                } else {
                    0 - v
                },
            ),
        },
    }
}

} // verus!
