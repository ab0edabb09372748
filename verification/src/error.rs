//! Why a scan fails.

use vstd::prelude::*;
use vstd::string::StringExecFns;

verus! {

/// Why a game could not be replayed.
#[derive(Debug)]
pub enum ReplayError {
    /// The key of a header is not valid UTF-8.
    InvalidHeaderKey,
    /// The value of a header does not decode to valid UTF-8.
    InvalidHeaderValue,
    /// A move of the record names no single legal move in the position
    /// reached. The fields locate it: the number of the move, the side that
    /// was to move, the notation of the move, and the players and date that
    /// the headers gave.
    IllegalMove {
        move_no: u32,
        white_to_move: bool,
        san: String,
        white: String,
        black: String,
        date: String,
    },
    /// A move that puts a new piece on the board came up while first moves
    /// were being attributed.
    UnsupportedPut,
}

/// The character for a digit.
pub open spec fn digit(d: nat) -> char {
    if d == 0 {
        '0'
    } else if d == 1 {
        '1'
    } else if d == 2 {
        '2'
    } else if d == 3 {
        '3'
    } else if d == 4 {
        '4'
    } else if d == 5 {
        '5'
    } else if d == 6 {
        '6'
    } else if d == 7 {
        '7'
    } else if d == 8 {
        '8'
    } else {
        '9'
    }
}

/// A number written in decimal, without leading zeros.
pub open spec fn decimal(n: nat) -> Seq<char>
    decreases n,
{
    if n < 10 {
        seq![digit(n)]
    } else {
        decimal(n / 10).push(digit(n % 10))
    }
}

/// What follows the number of a move: a space before a move of White, a
/// space and three dots before a move of Black.
pub open spec fn move_follow(white_to_move: bool) -> Seq<char> {
    if white_to_move {
        " "@
    } else {
        " ..."@
    }
}

/// The message for a move that could not be replayed: where it stands in its
/// game, and which game that is.
pub open spec fn illegal_move_message(
    move_no: nat,
    white_to_move: bool,
    san: Seq<char>,
    white: Seq<char>,
    black: Seq<char>,
    date: Seq<char>,
) -> Seq<char> {
    "Failed to parse move "@ + decimal(move_no) + "."@ + move_follow(white_to_move) + san
        + ".\nIn "@ + white + "-"@ + black + " ("@ + date + ")"@
}

/// Appends a number in decimal.
fn push_decimal(out: &mut String, n: u32)
    ensures
        final(out)@ == old(out)@ + decimal(n as nat),
    decreases n,
{
    if n >= 10 {
        push_decimal(out, n / 10);
    }
    let d = n % 10;
    let c = if d == 0 {
        '0'
    } else if d == 1 {
        '1'
    } else if d == 2 {
        '2'
    } else if d == 3 {
        '3'
    } else if d == 4 {
        '4'
    } else if d == 5 {
        '5'
    } else if d == 6 {
        '6'
    } else if d == 7 {
        '7'
    } else if d == 8 {
        '8'
    } else {
        '9'
    };
    out.push(c);
    assert(out@ =~= old(out)@ + decimal(n as nat));
}

impl ReplayError {
    /// The message of the error.
    pub open spec fn spec_message(self) -> Seq<char> {
        match self {
            ReplayError::InvalidHeaderKey => "Header key is not valid UTF-8"@,
            ReplayError::InvalidHeaderValue => "Header value is not valid UTF-8"@,
            ReplayError::IllegalMove { move_no, white_to_move, san, white, black, date } => {
                illegal_move_message(move_no as nat, white_to_move, san@, white@, black@, date@)
            },
            ReplayError::UnsupportedPut => "Can't handle puts"@,
        }
    }

    /// The message of the error, for the user.
    pub fn message(&self) -> (r: String)
        ensures
            r@ == self.spec_message(),
    {
        match self {
            ReplayError::InvalidHeaderKey => String::from_str("Header key is not valid UTF-8"),
            ReplayError::InvalidHeaderValue => String::from_str(
                "Header value is not valid UTF-8",
            ),
            ReplayError::IllegalMove { move_no, white_to_move, san, white, black, date } => {
                let mut out = String::from_str("Failed to parse move ");
                push_decimal(&mut out, *move_no);
                out.append(".");
                if *white_to_move {
                    out.append(" ");
                } else {
                    out.append(" ...");
                }
                out.append(san.as_str());
                out.append(".\nIn ");
                out.append(white.as_str());
                out.append("-");
                out.append(black.as_str());
                out.append(" (");
                out.append(date.as_str());
                out.append(")");
                assert(out@ =~= self.spec_message());
                out
            },
            ReplayError::UnsupportedPut => String::from_str("Can't handle puts"),
        }
    }
}

} // verus!
