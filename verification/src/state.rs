//! The state of a scan and its transitions, as the contracts see them.
//!
//! Every function of the searcher is specified by one of the transitions
//! below. What holds of every state that the searcher reaches is written down
//! once, as [`ReplayView::inv`], and shown to be kept by each transition.

use crate::chess::{
    event_of, fen_en_passant, fen_position, is_standard_start, parsed_fen, position_after, FEN_LIMIT,
};
use crate::event::MoveEvent;
use crate::position::{key_of, occupied, KeyView};
use crate::square::{
    file_of, mirrored_files, mirrored_ranks, on_board, rank_of, square_at, Square,
};
use crate::table::{empty_table, recorded};
use crate::tally::{bumped, is_outcome, lemma_total_bumped, total};
use shakmaty::Chess;
use vstd::prelude::*;
use vstd::string::StringSliceAdditionalSpecFns;
use vstd::utf8::encode_utf8;

verus! {

broadcast use Square::lemma_on_board;

/// The square that stands for "castled" in the tally of a rook: the rook's
/// own square mirrored left to right and then top to bottom.
///
/// Both mirrorings are needed. The result must differ from the rook's square,
/// which would read as "captured where it stood", and must tell the two rooks
/// of a side apart.
pub open spec fn castled_rook_mark(rook: int) -> int {
    mirrored_ranks(mirrored_files(rook))
}

/// Whether the value of a header `FEN` names the position from which the
/// games start: it is a notation of at most 128 bytes, without a square for
/// a capture en passant, that sets up a legal position with the placement,
/// side to move and castling rights of `start`. Counters of moves are not
/// compared.
pub open spec fn names_start(start: Chess, value: Seq<char>) -> bool {
    let text = encode_utf8(value);
    &&& text.len() <= FEN_LIMIT
    &&& parsed_fen(text) matches Some(fen)
    &&& fen_en_passant(fen) is None
    &&& fen_position(fen) matches Some(pos)
    &&& key_of(pos) == key_of(start)
}

/// The square on which a castling king lands: on its own rank, on the g-file
/// when it castles with the rook on its h-side and on the c-file when it
/// castles with the rook on its a-side.
pub open spec fn king_landing(king: int, rook: int) -> int {
    square_at(
        if file_of(rook) > file_of(king) {
            6
        } else {
            2
        },
        rank_of(king),
    )
}

/// The square of the pawn that an en-passant capture from `from` to `to`
/// takes: on the file of the landing square and the rank of the origin.
pub open spec fn en_passant_victim(from: int, to: int) -> int {
    square_at(file_of(to), rank_of(from))
}

/// The table in which the tally of every square of `pieces` has seen "never
/// moved" once more.
pub open spec fn unmoved_recorded(
    counts: Map<int, Map<Option<int>, nat>>,
    pieces: Set<int>,
) -> Map<int, Map<Option<int>, nat>> {
    Map::new(
        |square: int| counts.dom().contains(square),
        |square: int|
            if pieces.contains(square) {
                bumped(counts[square], None)
            } else {
                counts[square]
            },
    )
}

/// The squares of a set with a number below `bound`.
pub open spec fn squares_below(squares: Set<int>, bound: int) -> Set<int> {
    Set::new(|square: int| squares.contains(square) && square < bound)
}

/// The squares of a set with a number of at least `bound`.
pub open spec fn squares_from(squares: Set<int>, bound: int) -> Set<int> {
    Set::new(|square: int| squares.contains(square) && square >= bound)
}

/// The state of a scan, as the contracts see it.
#[verifier::ext_equal]
pub struct ReplayView {
    /// The key of the target position.
    pub target: KeyView,
    /// The counts gathered so far.
    pub counts: Map<int, Map<Option<int>, nat>>,
    /// The number of finished games that reached the target.
    pub games: nat,
    /// The position from which every game starts.
    pub start: Chess,
    /// Whether first moves are being attributed: the game has reached the
    /// target and some piece of it has not moved yet.
    pub counting: bool,
    /// The position reached in the game in progress.
    pub position: Chess,
    /// The squares of the target whose pieces have no outcome yet in the game
    /// in progress.
    pub pieces: Set<int>,
    /// Whether the game in progress has reached the target.
    pub counted: bool,
    /// Whether the game in progress starts from a position of its own.
    pub skip_game: bool,
    /// Whether White is to move in the game in progress.
    pub turn: bool,
    /// The number of the last move that White made in the game in progress.
    pub move_no: nat,
    /// The player of the white pieces, as the headers name them.
    pub white: Seq<char>,
    /// The player of the black pieces.
    pub black: Seq<char>,
    /// The date of the game.
    pub date: Seq<char>,
}

impl ReplayView {
    /// The state before the first game: nothing counted, the game at its
    /// start.
    pub open spec fn initial(target: KeyView, start: Chess) -> ReplayView {
        ReplayView {
            target,
            counts: empty_table(occupied(target)),
            games: 0,
            start,
            counting: false,
            position: start,
            pieces: occupied(target),
            counted: false,
            skip_game: false,
            turn: true,
            move_no: 0,
            white: Seq::empty(),
            black: Seq::empty(),
            date: Seq::empty(),
        }
    }

    /// Whether the state stands between two games: nothing of a game in
    /// progress is left in it.
    pub open spec fn between_games(self) -> bool {
        &&& !self.counting
        &&& !self.counted
        &&& !self.skip_game
        &&& self.position == self.start
        &&& self.pieces == occupied(self.target)
        &&& self.turn
        &&& self.move_no == 0
        &&& self.white == Seq::<char>::empty()
        &&& self.black == Seq::<char>::empty()
        &&& self.date == Seq::<char>::empty()
    }

    /// What holds of every state that the library reaches.
    ///
    /// Games start from the standard starting position. The table is keyed by
    /// exactly the squares that the target occupies. The
    /// tracked squares are among them, and are all of them until the game
    /// reaches the target. The tally of each square adds up to the number of
    /// games that reached the target, the game in progress included once the
    /// piece of that square has its outcome.
    pub open spec fn inv(self) -> bool {
        &&& is_standard_start(self.start)
        &&& self.target.placement.len() == 64
        &&& self.counts.dom() == occupied(self.target)
        &&& self.pieces.subset_of(occupied(self.target))
        &&& (!self.counted ==> self.pieces == occupied(self.target))
        &&& (self.counting ==> self.counted)
        &&& forall|square: int, outcome: Option<int>|
            self.counts.dom().contains(square) && #[trigger] self.counts[square].dom().contains(
                outcome,
            ) ==> is_outcome(outcome) && self.counts[square][outcome] > 0
        &&& forall|square: int| #[trigger]
            occupied(self.target).contains(square) ==> total(self.counts[square]) == self.games
                + if self.counted && !self.pieces.contains(square) {
                1nat
            } else {
                0nat
            }
    }

    /// Whether the state has room for one more game and one more move: the
    /// counters that the library keeps in 32 bits are below their limit.
    pub open spec fn has_room(self) -> bool {
        self.games < u32::MAX && self.move_no < u32::MAX
    }

    /// The state after the piece of `piece` got the outcome `to`: the outcome
    /// is counted once and the square is tracked no longer.
    pub open spec fn count(self, piece: int, to: Option<int>) -> ReplayView {
        ReplayView {
            pieces: self.pieces.remove(piece),
            counts: recorded(self.counts, piece, to),
            ..self
        }
    }

    /// The state after the outcome `to` was seen for the square `piece`:
    /// counted if the square is still tracked, ignored otherwise.
    pub open spec fn attribute(self, piece: int, to: Option<int>) -> ReplayView {
        if self.pieces.contains(piece) {
            self.count(piece, to)
        } else {
            self
        }
    }

    /// Whether the event cannot be attributed: it puts a piece on the board
    /// while first moves are being attributed.
    pub open spec fn rejects(self, event: MoveEvent) -> bool {
        self.counting && event is Put
    }

    /// The state after the event was attributed.
    ///
    /// Outside the attribution window nothing changes. Inside it:
    /// - a normal move: a tracked piece on the destination is captured where
    ///   it stood, and a tracked piece on the origin has moved to the
    ///   destination;
    /// - an en-passant capture: a tracked pawn on the origin has moved to the
    ///   landing square, and a tracked pawn beside it, on the file of the
    ///   landing square, is captured where it stood;
    /// - castling: a tracked king has moved to the square on which it lands,
    ///   and a tracked rook gets the mark for "castled".
    pub open spec fn observe(self, event: MoveEvent) -> ReplayView {
        if !self.counting {
            self
        } else {
            match event {
                MoveEvent::Normal { from, to } => self.attribute(to@, Some(to@)).attribute(
                    from@,
                    Some(to@),
                ),
                MoveEvent::EnPassant { from, to } => self.attribute(from@, Some(to@)).attribute(
                    en_passant_victim(from@, to@),
                    Some(en_passant_victim(from@, to@)),
                ),
                MoveEvent::Castle { king, rook } => self.attribute(
                    king@,
                    Some(king_landing(king@, rook@)),
                ).attribute(
                    rook@,
                    Some(castled_rook_mark(rook@)),
                ),
                MoveEvent::Put { to } => self,
            }
        }
    }

    /// The state after a header of the game in progress was read: the names
    /// of the players and the date are kept, and a header `FEN` marks the game
    /// as one that starts from a position of its own, unless its value names
    /// the position from which all games start. Other headers change nothing.
    pub open spec fn header(self, key: Seq<u8>, value: Seq<char>) -> ReplayView {
        if key == "White".spec_bytes() {
            ReplayView { white: value, ..self }
        } else if key == "Black".spec_bytes() {
            ReplayView { black: value, ..self }
        } else if key == "Date".spec_bytes() {
            ReplayView { date: value, ..self }
        } else if key == "FEN".spec_bytes() && !names_start(self.start, value) {
            ReplayView { skip_game: true, ..self }
        } else {
            self
        }
    }

    /// Whether the game in progress reaches the target now, for the first
    /// time.
    pub open spec fn reaches_target(self) -> bool {
        !self.counting && !self.counted && key_of(self.position) == self.target
    }

    /// The state after the position reached was held against the target: the
    /// attribution window opens when the game reaches the target for the
    /// first time.
    pub open spec fn check(self) -> ReplayView {
        if self.reaches_target() {
            ReplayView { counting: true, counted: true, ..self }
        } else {
            self
        }
    }

    /// The state after the attribution window was closed if no piece is left
    /// to watch.
    pub open spec fn settle(self) -> ReplayView {
        if self.counting && self.pieces == Set::<int>::empty() {
            ReplayView { counting: false, ..self }
        } else {
            self
        }
    }

    /// The number that the next move of the game has.
    pub open spec fn next_move_no(self) -> nat {
        if self.turn {
            self.move_no + 1
        } else {
            self.move_no
        }
    }

    /// The state after the move `m`, legal in the position reached, was
    /// replayed: the position is checked against the target before the move
    /// is made, the move is attributed, then made, and the window closes if
    /// nothing is left to watch.
    pub open spec fn step(self, m: shakmaty::Move) -> ReplayView {
        let seen = self.check().observe(event_of(m));
        let moved = ReplayView { position: position_after(self.position, m), ..seen }.settle();
        ReplayView { turn: !self.turn, move_no: self.next_move_no(), ..moved }
    }

    /// The state after the game in progress ended: if it reached the target,
    /// every piece still tracked has never moved, and the game is counted.
    /// The next game starts afresh; the counts stay.
    pub open spec fn end(self) -> ReplayView {
        ReplayView {
            counts: if self.counted {
                unmoved_recorded(self.counts, self.pieces)
            } else {
                self.counts
            },
            games: if self.counted {
                self.games + 1
            } else {
                self.games
            },
            counting: false,
            position: self.start,
            pieces: occupied(self.target),
            counted: false,
            skip_game: false,
            turn: true,
            move_no: 0,
            white: Seq::empty(),
            black: Seq::empty(),
            date: Seq::empty(),
            ..self
        }
    }
}

/// Counting an outcome for a tracked square keeps what holds of every state.
pub proof fn lemma_count_keeps_inv(s: ReplayView, piece: int, to: Option<int>)
    requires
        s.inv(),
        s.counted,
        s.pieces.contains(piece),
        is_outcome(to),
    ensures
        s.count(piece, to).inv(),
{
    let t = s.count(piece, to);
    assert(occupied(s.target).contains(piece));
    assert(t.counts.dom() =~= s.counts.dom());
    lemma_total_bumped(s.counts[piece], to);
    assert forall|square: int| #[trigger] occupied(t.target).contains(square) implies total(
        t.counts[square],
    ) == t.games + if t.counted && !t.pieces.contains(square) {
        1nat
    } else {
        0nat
    } by {
        if square != piece {
            assert(t.counts[square] == s.counts[square]);
        }
    }
}

/// The squares that attribution derives from the squares of an event are
/// squares of the board: the landing square of a castling king, the mark of a
/// castled rook, and the square of a pawn taken en passant.
pub proof fn lemma_derived_squares_on_board(a: int, b: int)
    requires
        on_board(a),
        on_board(b),
    ensures
        on_board(king_landing(a, b)),
        on_board(castled_rook_mark(a)),
        on_board(en_passant_victim(a, b)),
{
    assert(0 <= a % 8 < 8 && 0 <= a / 8 < 8);
    assert(0 <= b % 8 < 8 && 0 <= b / 8 < 8);
    let files = (a / 8) * 8 + (7 - a % 8);
    assert(mirrored_files(a) == files);
    assert(0 <= files < 64);
    assert(0 <= files % 8 < 8 && 0 <= files / 8 < 8);
}

/// Attributing an event keeps what holds of every state.
pub proof fn lemma_observe_keeps_inv(s: ReplayView, event: MoveEvent)
    requires
        s.inv(),
    ensures
        s.observe(event).inv(),
{
    if s.counting {
        match event {
            MoveEvent::Normal { from, to } => {
                lemma_attribute_keeps_inv(s, to@, Some(to@));
                lemma_attribute_keeps_inv(s.attribute(to@, Some(to@)), from@, Some(to@));
            },
            MoveEvent::EnPassant { from, to } => {
                let victim = en_passant_victim(from@, to@);
                lemma_derived_squares_on_board(from@, to@);
                lemma_attribute_keeps_inv(s, from@, Some(to@));
                lemma_attribute_keeps_inv(s.attribute(from@, Some(to@)), victim, Some(victim));
            },
            MoveEvent::Castle { king, rook } => {
                let landing = king_landing(king@, rook@);
                lemma_derived_squares_on_board(king@, rook@);
                lemma_derived_squares_on_board(rook@, king@);
                lemma_attribute_keeps_inv(s, king@, Some(landing));
                lemma_attribute_keeps_inv(
                    s.attribute(king@, Some(landing)),
                    rook@,
                    Some(castled_rook_mark(rook@)),
                );
            },
            MoveEvent::Put { to } => {},
        }
    }
}

/// Seeing an outcome for a square keeps what holds of every state.
pub proof fn lemma_attribute_keeps_inv(s: ReplayView, piece: int, to: Option<int>)
    requires
        s.inv(),
        s.counted,
        is_outcome(to),
    ensures
        s.attribute(piece, to).inv(),
        s.attribute(piece, to).counted,
        s.attribute(piece, to).counting == s.counting,
{
    if s.pieces.contains(piece) {
        lemma_count_keeps_inv(s, piece, to);
    }
}

/// Holding the position against the target keeps what holds of every state.
pub proof fn lemma_check_keeps_inv(s: ReplayView)
    requires
        s.inv(),
    ensures
        s.check().inv(),
{
}

/// Ending a game keeps what holds of every state.
pub proof fn lemma_end_keeps_inv(s: ReplayView)
    requires
        s.inv(),
    ensures
        s.end().inv(),
{
    let t = s.end();
    assert(t.counts.dom() =~= s.counts.dom());
    assert forall|square: int| #[trigger] occupied(t.target).contains(square) implies total(
        t.counts[square],
    ) == t.games by {
        if s.counted && s.pieces.contains(square) {
            lemma_total_bumped(s.counts[square], None);
        }
    }
}


} // verus!
