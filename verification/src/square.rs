//! Squares of the chessboard.

use vstd::prelude::*;

verus! {

/// Number of squares on the board.
pub const SQUARES: u8 = 64;

/// A square of the board.
///
/// Squares are numbered rank by rank from White's side: `a1` is 0, `h1` is 7,
/// `a2` is 8 and `h8` is 63. The view of a square is that number, which is
/// always one of the 64.
#[derive(Clone, Copy, Debug, PartialEq, Eq, Structural, Hash)]
pub struct Square {
    index: u8,
}

impl View for Square {
    type V = int;

    closed spec fn view(&self) -> int {
        if self.index < SQUARES {
            self.index as int
        } else {
            0
        }
    }
}

/// The characters `a` to `h` that name the files.
pub open spec fn file_letter(file: int) -> char {
    if file == 0 {
        'a'
    } else if file == 1 {
        'b'
    } else if file == 2 {
        'c'
    } else if file == 3 {
        'd'
    } else if file == 4 {
        'e'
    } else if file == 5 {
        'f'
    } else if file == 6 {
        'g'
    } else {
        'h'
    }
}

/// The characters `1` to `8` that name the ranks.
pub open spec fn rank_digit(rank: int) -> char {
    if rank == 0 {
        '1'
    } else if rank == 1 {
        '2'
    } else if rank == 2 {
        '3'
    } else if rank == 3 {
        '4'
    } else if rank == 4 {
        '5'
    } else if rank == 5 {
        '6'
    } else if rank == 6 {
        '7'
    } else {
        '8'
    }
}

/// The file of the square with the given number, 0 for the a-file up to 7
/// for the h-file.
pub open spec fn file_of(square: int) -> int {
    square % 8
}

/// The rank of the square with the given number, 0 for the first rank up to
/// 7 for the eighth.
pub open spec fn rank_of(square: int) -> int {
    square / 8
}

/// The number of the square on the given file and rank.
pub open spec fn square_at(file: int, rank: int) -> int {
    rank * 8 + file
}

/// Whether the number is that of a square of the board.
pub open spec fn on_board(square: int) -> bool {
    0 <= square < 64
}

/// The square mirrored left to right: same rank, opposite file.
pub open spec fn mirrored_files(square: int) -> int {
    square_at(7 - file_of(square), rank_of(square))
}

/// The square mirrored top to bottom: same file, opposite rank.
pub open spec fn mirrored_ranks(square: int) -> int {
    square_at(file_of(square), 7 - rank_of(square))
}

/// The two-character name of a square, such as `e4`.
pub open spec fn square_name(square: int) -> Seq<char> {
    seq![file_letter(file_of(square)), rank_digit(rank_of(square))]
}

impl Square {
    #[verifier::type_invariant]
    spec fn in_range(self) -> bool {
        self.index < SQUARES
    }

    /// The number of a square is that of a square of the board.
    pub broadcast proof fn lemma_on_board(self)
        ensures
            on_board(#[trigger] self@),
    {
    }

    /// The square with the given number, if there is one.
    pub fn new(index: u8) -> (r: Option<Square>)
        ensures
            r is Some <==> index < 64,
            r matches Some(sq) ==> sq@ == index,
    {
        if index < SQUARES {
            Some(Square { index })
        } else {
            None
        }
    }

    /// The square on the given file and rank, if both are on the board.
    pub fn from_coords(file: u8, rank: u8) -> (r: Option<Square>)
        ensures
            r is Some <==> file < 8 && rank < 8,
            r matches Some(sq) ==> sq@ == square_at(file as int, rank as int),
    {
        if file < 8 && rank < 8 {
            Some(Square { index: rank * 8 + file })
        } else {
            None
        }
    }

    /// Whether two squares are the same.
    pub fn same(self, other: Square) -> (r: bool)
        ensures
            r == (self@ == other@),
    {
        proof {
            use_type_invariant(self);
            use_type_invariant(other);
        }
        self.index == other.index
    }

    /// The number of the square.
    pub fn index(self) -> (r: u8)
        ensures
            r == self@,
            r < 64,
    {
        proof {
            use_type_invariant(self);
        }
        self.index
    }

    /// The file of the square.
    pub fn file(self) -> (r: u8)
        ensures
            r == file_of(self@),
            r < 8,
    {
        proof {
            use_type_invariant(self);
        }
        self.index % 8
    }

    /// The rank of the square.
    pub fn rank(self) -> (r: u8)
        ensures
            r == rank_of(self@),
            r < 8,
    {
        proof {
            use_type_invariant(self);
        }
        self.index / 8
    }

    /// Mirrors the square left to right: the rank stays, the a-file becomes
    /// the h-file and so on.
    pub fn flip_horizontal(self) -> (r: Square)
        ensures
            r@ == mirrored_files(self@),
    {
        proof {
            use_type_invariant(self);
        }
        let file = self.index % 8;
        let rank = self.index / 8;
        assert(file < 8 && rank < 8);
        let index = rank * 8 + (7 - file);
        assert(index < 64);
        Square { index }
    }

    /// Mirrors the square top to bottom: the file stays, the first rank
    /// becomes the eighth and so on.
    pub fn flip_vertical(self) -> (r: Square)
        ensures
            r@ == mirrored_ranks(self@),
    {
        proof {
            use_type_invariant(self);
        }
        let file = self.index % 8;
        let rank = self.index / 8;
        assert(file < 8 && rank < 8);
        let index = (7 - rank) * 8 + file;
        assert(index < 64);
        Square { index }
    }

    /// The square on the file of `self` and the rank of `other`.
    pub fn with_rank_of(self, other: Square) -> (r: Square)
        ensures
            r@ == square_at(file_of(self@), rank_of(other@)),
    {
        proof {
            use_type_invariant(self);
            use_type_invariant(other);
        }
        let file = self.index % 8;
        let rank = other.index / 8;
        assert(file < 8 && rank < 8);
        let index = rank * 8 + file;
        assert(index < 64);
        Square { index }
    }

    /// The name of the square in coordinate notation, such as `e4`.
    pub fn name(self) -> (r: String)
        ensures
            r@ == square_name(self@),
    {
        let file = self.file();
        let rank = self.rank();
        let letter = if file == 0 {
            'a'
        } else if file == 1 {
            'b'
        } else if file == 2 {
            'c'
        } else if file == 3 {
            'd'
        } else if file == 4 {
            'e'
        } else if file == 5 {
            'f'
        } else if file == 6 {
            'g'
        } else {
            'h'
        };
        let digit = if rank == 0 {
            '1'
        } else if rank == 1 {
            '2'
        } else if rank == 2 {
            '3'
        } else if rank == 3 {
            '4'
        } else if rank == 4 {
            '5'
        } else if rank == 5 {
            '6'
        } else if rank == 6 {
            '7'
        } else {
            '8'
        };
        let mut out = String::new();
        out.push(letter);
        out.push(digit);
        assert(out@ =~= square_name(self@));
        out
    }
}

} // verus!
