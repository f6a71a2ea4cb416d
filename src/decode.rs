use vstd::prelude::*;
use vstd::string::StrSliceExecFns;
use crate::square::{PlayerName, SquareContent, Square};

verus! {

/// One square as a caller describes it: file `x` and rank `y` as decimal text, the
/// occupant's label and the owner's label.
#[derive(Clone, Debug)]
pub struct SquareRecord {
    pub x: String,
    pub y: String,
    pub figure: String,
    pub belongs_to: String,
}

/// Why a board could not be built or queried.
#[derive(Copy, Clone, Debug, PartialEq, Eq, Structural)]
pub enum BoardError {
    /// A record holds an unknown label, a coordinate outside 0..=7, or an empty square
    /// that belongs to a side (or a piece that belongs to none).
    DecodeError,
    /// A queried coordinate lies off the board.
    OutOfBounds,
}

pub open spec fn is_digit(c: char) -> bool {
    '0' <= c <= '9'
}

pub open spec fn digit_value(c: char) -> nat {
    (c as u32 - '0' as u32) as nat
}

/// The number written by the decimal digits `s`.
pub open spec fn decimal_value(s: Seq<char>) -> nat
    decreases s.len(),
{
    if s.len() == 0 {
        0
    } else {
        decimal_value(s.drop_last()) * 10 + digit_value(s.last())
    }
}

/// A coordinate: one or more decimal digits whose value is at most 7.
pub open spec fn coordinate_of(s: Seq<char>) -> Option<usize> {
    if s.len() > 0 && (forall|i: int| 0 <= i < s.len() ==> is_digit(#[trigger] s[i])) && decimal_value(s) < 8 {
        Some(decimal_value(s) as usize)
    } else {
        None
    }
}

pub open spec fn figure_of(s: Seq<char>) -> Option<SquareContent> {
    if s == "PAWN"@ {
        Some(SquareContent::PAWN)
    } else if s == "KNIGHT"@ {
        Some(SquareContent::KNIGHT)
    } else if s == "BISHOP"@ {
        Some(SquareContent::BISHOP)
    } else if s == "ROOK"@ {
        Some(SquareContent::ROOK)
    } else if s == "QUEEN"@ {
        Some(SquareContent::QUEEN)
    } else if s == "KING"@ {
        Some(SquareContent::KING)
    } else if s == "EMPTY"@ {
        Some(SquareContent::EMPTY)
    } else {
        None
    }
}

pub open spec fn owner_of(s: Seq<char>) -> Option<PlayerName> {
    if s == "WHITE"@ {
        Some(PlayerName::WHITE)
    } else if s == "BLACK"@ {
        Some(PlayerName::BLACK)
    } else if s == "NEITHER"@ {
        Some(PlayerName::NEITHER)
    } else {
        None
    }
}

/// The square a record describes, or `None` when the record is malformed.
pub open spec fn decode_spec(rec: SquareRecord) -> Option<Square> {
    match (coordinate_of(rec.x@), coordinate_of(rec.y@), figure_of(rec.figure@), owner_of(rec.belongs_to@)) {
        (Some(x), Some(y), Some(content), Some(belongs_to)) => {
            if (content == SquareContent::EMPTY) == (belongs_to == PlayerName::NEITHER) {
                Some(Square { x, y, content, belongs_to })
            } else {
                None
            }
        },
        _ => None,
    }
}

proof fn lemma_decimal_grows(s: Seq<char>, i: int, j: int)
    requires
        0 <= i <= j <= s.len(),
        forall|k: int| 0 <= k < j ==> is_digit(#[trigger] s[k]),
    ensures
        decimal_value(s.take(i)) <= decimal_value(s.take(j)),
    decreases j - i,
{
    if i < j {
        lemma_decimal_grows(s, i, j - 1);
        assert(s.take(j).drop_last() =~= s.take(j - 1));
    }
}

/// Whether two texts hold the same characters.
fn same_text(a: &str, b: &str) -> (r: bool)
    ensures
        r == (a@ == b@),
{
    let n = a.unicode_len();
    if n != b.unicode_len() {
        return false;
    }
    let mut i: usize = 0;
    while i < n
        invariant
            n == a@.len(),
            n == b@.len(),
            i <= n,
            a@.take(i as int) == b@.take(i as int),
        decreases n - i,
    {
        if a.get_char(i) != b.get_char(i) {
            return false;
        }
        assert(a@.take(i + 1) =~= a@.take(i as int).push(a@[i as int]));
        assert(b@.take(i + 1) =~= b@.take(i as int).push(b@[i as int]));
        i = i + 1;
    }
    assert(a@ =~= a@.take(n as int));
    assert(b@ =~= b@.take(n as int));
    true
}

fn parse_coordinate(s: &str) -> (r: Option<usize>)
    ensures
        r == coordinate_of(s@),
{
    let n = s.unicode_len();
    if n == 0 {
        return None;
    }
    let mut value: usize = 0;
    let mut i: usize = 0;
    while i < n
        invariant
            n == s@.len(),
            i <= n,
            forall|k: int| 0 <= k < i ==> is_digit(#[trigger] s@[k]),
            value == decimal_value(s@.take(i as int)),
            value < 8,
        decreases n - i,
    {
        let c = s.get_char(i);
        if c < '0' || c > '9' {
            return None;
        }
        assert(s@.take(i + 1).drop_last() =~= s@.take(i as int));
        value = value * 10 + (c as u32 - '0' as u32) as usize;
        i = i + 1;
        if value >= 8 {
            proof {
                assert(s@.take(n as int) =~= s@);
                if forall|k: int| 0 <= k < n ==> is_digit(#[trigger] s@[k]) {
                    lemma_decimal_grows(s@, i as int, n as int);
                }
            }
            return None;
        }
    }
    assert(s@.take(n as int) =~= s@);
    Some(value)
}

fn parse_figure(s: &str) -> (r: Option<SquareContent>)
    ensures
        r == figure_of(s@),
{
    if same_text(s, "PAWN") {
        Some(SquareContent::PAWN)
    } else if same_text(s, "KNIGHT") {
        Some(SquareContent::KNIGHT)
    } else if same_text(s, "BISHOP") {
        Some(SquareContent::BISHOP)
    } else if same_text(s, "ROOK") {
        Some(SquareContent::ROOK)
    } else if same_text(s, "QUEEN") {
        Some(SquareContent::QUEEN)
    } else if same_text(s, "KING") {
        Some(SquareContent::KING)
    } else if same_text(s, "EMPTY") {
        Some(SquareContent::EMPTY)
    } else {
        None
    }
}

fn parse_owner(s: &str) -> (r: Option<PlayerName>)
    ensures
        r == owner_of(s@),
{
    if same_text(s, "WHITE") {
        Some(PlayerName::WHITE)
    } else if same_text(s, "BLACK") {
        Some(PlayerName::BLACK)
    } else if same_text(s, "NEITHER") {
        Some(PlayerName::NEITHER)
    } else {
        None
    }
}

/// Decodes one record into the square it describes.
pub fn decode_record(rec: &SquareRecord) -> (r: Result<Square, BoardError>)
    ensures
        match decode_spec(*rec) {
            Some(sq) => r == Ok::<Square, BoardError>(sq),
            None => r == Err::<Square, BoardError>(BoardError::DecodeError),
        },
{
    let x = parse_coordinate(rec.x.as_str());
    let y = parse_coordinate(rec.y.as_str());
    let content = parse_figure(rec.figure.as_str());
    let belongs_to = parse_owner(rec.belongs_to.as_str());
    match (x, y, content, belongs_to) {
        (Some(x), Some(y), Some(content), Some(belongs_to)) => {
            if (content == SquareContent::EMPTY) == (belongs_to == PlayerName::NEITHER) {
                Ok(Square { x, y, content, belongs_to })
            } else {
                Err(BoardError::DecodeError)
            }
        },
        _ => Err(BoardError::DecodeError),
    }
}

} // verus!
