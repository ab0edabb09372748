//! Replaying games and attributing first moves.
//!
//! A [`PgnSearcher`] holds the counts gathered so far and the state of the
//! game in progress. The reader of a game record hands it the record piece by
//! piece: the headers, then each move of the main line, then the end of the
//! game.

use crate::chess::{
    copy_position, describe, en_passant_of, event_of, is_standard_start, notation, notation_text,
    parse_fen, play, resolution, resolve, set_up, starting_position, FEN_LIMIT,
};
use crate::error::ReplayError;
use crate::event::MoveEvent;
use crate::pgn::{decode_header, decoded_header};
use crate::position::{key_of, occupied, PositionKey};
use crate::square::Square;
use crate::square_set::SquareSet;
use crate::state::{
    castled_rook_mark, king_landing, names_start, lemma_check_keeps_inv, lemma_count_keeps_inv, lemma_end_keeps_inv,
    squares_below, squares_from, unmoved_recorded, ReplayView,
};
use crate::table::AttributionTable;
use crate::tally::{
    is_outcome, lemma_occurrences_within_sum, lemma_sum_empty, outcome_view, OUTCOMES,
};
use crate::text::{is_utf8, same_bytes};
use shakmaty::san::SanPlus;
use shakmaty::Chess;
use vstd::prelude::*;
use vstd::string::StringSliceAdditionalSpecFns;
use vstd::utf8::valid_utf8;

verus! {

broadcast use Square::lemma_on_board;

/// Whether the error reports the notation as an illegal move at the place
/// where the state stands: the number of the move to come, the side to move,
/// the notation itself, and the players and date of the game in progress.
pub open spec fn illegal_move_at(error: ReplayError, state: ReplayView, san: SanPlus) -> bool {
    match error {
        ReplayError::IllegalMove { move_no, white_to_move, san: text, white, black, date } => {
            &&& move_no == state.next_move_no()
            &&& white_to_move == state.turn
            &&& text@ == notation(san)
            &&& white@ == state.white
            &&& black@ == state.black
            &&& date@ == state.date
        },
        _ => false,
    }
}

/// The square on which the king lands that castles from `king` with the
/// rook on `rook`.
pub fn castled_king_outcome(king: Square, rook: Square) -> (r: Square)
    ensures
        r@ == king_landing(king@, rook@),
{
    let file: u8 = if rook.file() > king.file() {
        6
    } else {
        2
    };
    Square::from_coords(file, king.rank()).unwrap()
}

/// The square that stands for "castled" in the tally of the rook that left
/// `rook`.
pub fn castled_rook_outcome(rook: Square) -> (r: Square)
    ensures
        r@ == castled_rook_mark(rook@),
{
    rook.flip_horizontal().flip_vertical()
}

/// The scan of a corpus: the counts gathered so far and the state of the game
/// in progress.
pub struct PgnSearcher {
    target: PositionKey,
    counts: AttributionTable,
    games: u32,
    start: Chess,
    counting: bool,
    position: Chess,
    pieces: SquareSet,
    counted: bool,
    skip_game: bool,
    turn: bool,
    move_no: u32,
    white: String,
    black: String,
    date: String,
}

impl View for PgnSearcher {
    type V = ReplayView;

    closed spec fn view(&self) -> ReplayView {
        ReplayView {
            target: self.target@,
            counts: self.counts@,
            games: self.games as nat,
            start: self.start,
            counting: self.counting,
            position: self.position,
            pieces: self.pieces@,
            counted: self.counted,
            skip_game: self.skip_game,
            turn: self.turn,
            move_no: self.move_no as nat,
            white: self.white@,
            black: self.black@,
            date: self.date@,
        }
    }
}

impl PgnSearcher {
    /// The parts of the representation are well-formed.
    pub closed spec fn parts_wf(&self) -> bool {
        self.target.wf() && self.counts.wf()
    }

    /// The searcher is in a state that the library reaches.
    pub open spec fn wf(&self) -> bool {
        self.parts_wf() && self@.inv()
    }

    /// A searcher for the given target position, before the first game.
    ///
    /// The table has an empty tally for each square that the target
    /// occupies; every such square is tracked. Games are replayed from the
    /// standard starting position.
    pub fn new(target: Chess) -> (r: PgnSearcher)
        ensures
            r.wf(),
            r@ == ReplayView::initial(key_of(target), r@.start),
            is_standard_start(r@.start),
    {
        let key = PositionKey::of(&target);
        let pieces = key.occupied();
        let counts = AttributionTable::new(&pieces);
        let start = starting_position();
        let position = copy_position(&start);
        let r = PgnSearcher {
            target: key,
            counts,
            games: 0,
            start,
            counting: false,
            position,
            pieces,
            counted: false,
            skip_game: false,
            turn: true,
            move_no: 0,
            white: String::new(),
            black: String::new(),
            date: String::new(),
        };
        proof {
            lemma_sum_empty(OUTCOMES as nat);
            assert(r@.counts.dom() =~= occupied(r@.target));
        }
        r
    }

    /// The key of the target position.
    pub fn target(&self) -> (r: &PositionKey)
        requires
            self.wf(),
        ensures
            r.wf(),
            r@ == self@.target,
    {
        &self.target
    }

    /// The counts gathered so far.
    pub fn counts(&self) -> (r: &AttributionTable)
        requires
            self.wf(),
        ensures
            r.wf(),
            r@ == self@.counts,
    {
        &self.counts
    }

    /// The number of finished games that reached the target.
    pub fn games(&self) -> (r: u32)
        ensures
            r == self@.games,
    {
        self.games
    }

    /// The squares of the target whose pieces have no outcome yet in the
    /// game in progress.
    pub fn pieces(&self) -> (r: &SquareSet)
        ensures
            r@ == self@.pieces,
    {
        &self.pieces
    }

    /// Whether first moves are being attributed.
    pub fn counting(&self) -> (r: bool)
        ensures
            r == self@.counting,
    {
        self.counting
    }

    /// Whether the game in progress has reached the target.
    pub fn counted(&self) -> (r: bool)
        ensures
            r == self@.counted,
    {
        self.counted
    }

    /// Whether there is room for one more game and one more move.
    pub fn has_room(&self) -> (r: bool)
        ensures
            r == self@.has_room(),
    {
        self.games < u32::MAX && self.move_no < u32::MAX
    }

    /// Reads one header of the game in progress, given as the raw bytes of
    /// its key and value.
    ///
    /// The players and the date are kept for error messages. A header `FEN`
    /// marks the game to be skipped, unless its value names the position from
    /// which all games start. A key that is not valid UTF-8 and a value that
    /// does not decode are errors, whatever the key, and change nothing.
    pub fn header(&mut self, key: &[u8], value: &[u8]) -> (r: Result<(), ReplayError>)
        requires
            old(self).wf(),
        ensures
            final(self).wf(),
            !valid_utf8(key@) ==> r is Err && r->Err_0 is InvalidHeaderKey && final(self)@ == old(
                self,
            )@,
            valid_utf8(key@) && decoded_header(value@) is None ==> r is Err
                && r->Err_0 is InvalidHeaderValue && final(self)@ == old(self)@,
            valid_utf8(key@) && decoded_header(value@) is Some ==> r is Ok && final(self)@ == old(
                self,
            )@.header(key@, decoded_header(value@).unwrap()),
    {
        if !is_utf8(key) {
            return Err(ReplayError::InvalidHeaderKey);
        }
        let text = match decode_header(value) {
            Some(text) => text,
            None => {
                return Err(ReplayError::InvalidHeaderValue);
            },
        };
        if same_bytes(key, "White".as_bytes()) {
            self.white = text;
        } else if same_bytes(key, "Black".as_bytes()) {
            self.black = text;
        } else if same_bytes(key, "Date".as_bytes()) {
            self.date = text;
        } else if same_bytes(key, "FEN".as_bytes()) {
            if !self.names_start(text.as_str()) {
                self.skip_game = true;
            }
        }
        Ok(())
    }

    /// Whether the value of a header `FEN` names the position from which the
    /// games start.
    fn names_start(&self, value: &str) -> (r: bool)
        ensures
            r == names_start(self@.start, value@),
    {
        let text = value.as_bytes();
        if text.len() > FEN_LIMIT {
            return false;
        }
        match parse_fen(text) {
            None => false,
            Some(fen) => {
                if en_passant_of(&fen).is_some() {
                    return false;
                }
                match set_up(&fen) {
                    None => false,
                    Some(pos) => PositionKey::of(&self.start).matches(&pos),
                }
            },
        }
    }

    /// Whether the reader is to skip the moves of the game in progress: it
    /// is, when a header gave the game a starting position of its own.
    pub fn end_headers(&self) -> (r: bool)
        ensures
            r == self@.skip_game,
    {
        self.skip_game
    }

    /// Whether the reader is to skip a variation that begins: it always is,
    /// only the main line is replayed.
    pub fn begin_variation(&self) -> (r: bool)
        ensures
            r,
    {
        true
    }

    /// Gives the piece of `piece` the outcome `to`: counts the outcome and
    /// stops tracking the square.
    fn count(&mut self, piece: Square, to: Option<Square>)
        requires
            old(self).wf(),
            old(self)@.counted,
            old(self)@.pieces.contains(piece@),
            old(self)@.games < u32::MAX,
            is_outcome(outcome_view(to)),
        ensures
            final(self).wf(),
            final(self)@ == old(self)@.count(piece@, outcome_view(to)),
    {
        let ghost before = self@;
        let ghost outcome = outcome_view(to);
        proof {
            assert(occupied(before.target).contains(piece@));
            lemma_occurrences_within_sum(
                before.counts[piece@],
                outcome,
                OUTCOMES as nat,
            );
            lemma_count_keeps_inv(before, piece@, outcome);
        }
        self.pieces.remove(piece);
        self.counts.record(piece, to);
    }

    /// Sees the outcome `to` for the square `piece`: counts it if the square
    /// is still tracked.
    fn attribute(&mut self, piece: Square, to: Option<Square>)
        requires
            old(self).wf(),
            old(self)@.counted,
            old(self)@.games < u32::MAX,
            is_outcome(outcome_view(to)),
        ensures
            final(self).wf(),
            final(self)@ == old(self)@.attribute(piece@, outcome_view(to)),
            final(self)@.counted,
            final(self)@.games == old(self)@.games,
    {
        if self.pieces.contains(piece) {
            self.count(piece, to);
        }
    }

    /// Whether the event cannot be attributed: it puts a piece on the board
    /// while first moves are being attributed.
    pub fn rejects(&self, m: &MoveEvent) -> (r: bool)
        ensures
            r == self@.rejects(*m),
    {
        self.counting && match *m {
            MoveEvent::Put { .. } => true,
            _ => false,
        }
    }

    /// Attributes a resolved move, before it is made on the board.
    ///
    /// Outside the attribution window nothing happens. Inside it the first
    /// move of each tracked piece that the event touches is counted. No
    /// attribution is defined for an event that puts a piece on the board
    /// inside the window: such an event is left out here, and `rejects` tells
    /// it beforehand.
    pub fn observe(&mut self, m: &MoveEvent)
        requires
            old(self).wf(),
            old(self)@.counting ==> old(self)@.games < u32::MAX,
            !old(self)@.rejects(*m),
        ensures
            final(self).wf(),
            final(self)@ == old(self)@.observe(*m),
    {
        if self.counting {
            match *m {
                MoveEvent::Normal { from, to } => {
                    self.attribute(to, Some(to));
                    self.attribute(from, Some(to));
                },
                MoveEvent::EnPassant { from, to } => {
                    self.attribute(from, Some(to));
                    let captured = to.with_rank_of(from);
                    self.attribute(captured, Some(captured));
                },
                MoveEvent::Castle { king, rook } => {
                    self.attribute(king, Some(castled_king_outcome(king, rook)));
                    self.attribute(rook, Some(castled_rook_outcome(rook)));
                },
                MoveEvent::Put { .. } => {},
            }
        }
    }

    /// Holds the position reached against the target: when the game reaches
    /// the target for the first time, the attribution window opens.
    pub fn check_for_target(&mut self)
        requires
            old(self).wf(),
        ensures
            final(self).wf(),
            final(self)@ == old(self)@.check(),
    {
        if !self.counting && !self.counted && self.target.matches(&self.position) {
            self.counting = true;
            self.counted = true;
        }
    }

    /// Replays one move of the main line.
    ///
    /// Where the notation names no single legal move in the position
    /// reached, the game cannot be replayed: the error says where, and
    /// nothing changes. Otherwise the position is first held against the
    /// target, then the move is attributed and made.
    pub fn san(&mut self, san: &SanPlus) -> (r: Result<(), ReplayError>)
        requires
            old(self).wf(),
            old(self)@.has_room(),
        ensures
            final(self).wf(),
            match resolution(old(self)@.position, *san) {
                None => r is Err && illegal_move_at(r->Err_0, old(self)@, *san) && final(self)@
                    == old(self)@,
                Some(m) => if old(self)@.check().rejects(event_of(m)) {
                    r is Err && r->Err_0 is UnsupportedPut && final(self)@ == old(self)@.check()
                } else {
                    r is Ok && final(self)@ == old(self)@.step(m)
                },
            },
    {
        let number = if self.turn {
            self.move_no + 1
        } else {
            self.move_no
        };
        let m = match resolve(&self.position, san) {
            Some(m) => m,
            None => {
                return Err(
                    ReplayError::IllegalMove {
                        move_no: number,
                        white_to_move: self.turn,
                        san: notation_text(san),
                        white: self.white.clone(),
                        black: self.black.clone(),
                        date: self.date.clone(),
                    },
                );
            },
        };
        let event = describe(&m);
        proof {
            lemma_check_keeps_inv(self@);
        }
        self.check_for_target();
        if self.rejects(&event) {
            return Err(ReplayError::UnsupportedPut);
        }
        self.observe(&event);
        play(&mut self.position, &m);
        if self.counting && self.pieces.is_empty() {
            self.counting = false;
        }
        self.move_no = number;
        self.turn = !self.turn;
        Ok(())
    }

    /// Ends the game in progress.
    ///
    /// If the game reached the target, every piece that is still tracked is
    /// counted as never moved, and the game is counted. The state of the game
    /// is then reset for the next one; the counts stay.
    pub fn end_game(&mut self)
        requires
            old(self).wf(),
            old(self)@.counted ==> old(self)@.games < u32::MAX,
        ensures
            final(self).wf(),
            final(self)@ == old(self)@.end(),
    {
        let ghost before = self@;
        if self.counted {
            proof {
                assert(squares_from(before.pieces, 0) =~= before.pieces);
                assert(unmoved_recorded(before.counts, squares_below(before.pieces, 0))
                    =~= before.counts);
            }
            let mut i: u8 = 0;
            while i < 64
                invariant
                    i <= 64,
                    self.counted,
                    self.wf(),
                    self@.games < u32::MAX,
                    before.inv(),
                    self@ == (ReplayView {
                        counts: unmoved_recorded(
                            before.counts,
                            squares_below(before.pieces, i as int),
                        ),
                        pieces: squares_from(before.pieces, i as int),
                        ..before
                    }),
                decreases 64 - i,
            {
                let square = Square::new(i).unwrap();
                self.attribute(square, None);
                i = i + 1;
                proof {
                    assert(self@.pieces =~= squares_from(before.pieces, i as int));
                    assert(self@.counts =~= unmoved_recorded(
                        before.counts,
                        squares_below(before.pieces, i as int),
                    ));
                }
            }
            proof {
                assert(squares_below(before.pieces, 64) =~= before.pieces);
            }
            self.games = self.games + 1;
        }
        self.position = copy_position(&self.start);
        self.pieces = self.target.occupied();
        self.counting = false;
        self.counted = false;
        self.skip_game = false;
        self.turn = true;
        self.move_no = 0;
        self.white = String::new();
        self.black = String::new();
        self.date = String::new();
        proof {
            lemma_end_keeps_inv(before);
            assert(self@.counts =~= before.end().counts);
        }
    }
}

} // verus!
