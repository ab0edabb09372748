//! What holds of a scan as a whole, proved from the transitions of
//! [`ReplayView`](crate::state::ReplayView) that the functions of the
//! library are specified by.

use crate::chess::{event_of, is_standard_start, resolution};
use crate::event::MoveEvent;
use crate::position::{occupied, KeyView};
use crate::state::{
    castled_rook_mark, king_landing, names_start, lemma_check_keeps_inv, lemma_end_keeps_inv, lemma_observe_keeps_inv,
    ReplayView,
};
use crate::report::{is_ranking, precedes};
use crate::square::{mirrored_files, mirrored_ranks, on_board, Square};
use crate::table::recorded;
use crate::tally::{
    bumped, is_outcome, lemma_sum_empty, lemma_total_bumped, lemma_zero_sum, occurrences, total,
    OUTCOMES,
};
use shakmaty::san::SanPlus;
use shakmaty::{Chess, Move};
use vstd::arithmetic::div_mod::lemma_fundamental_div_mod_converse;
use vstd::prelude::*;
use vstd::string::StringSliceAdditionalSpecFns;

verus! {

broadcast use Square::lemma_on_board;

/// A game as its record gives it: the headers, each by its key and its
/// decoded value, and the moves of the main line.
pub struct Game {
    pub headers: Seq<(Seq<u8>, Seq<char>)>,
    pub moves: Seq<SanPlus>,
}

/// The state after the headers of a game were read one after the other.
pub open spec fn after_headers(s: ReplayView, headers: Seq<(Seq<u8>, Seq<char>)>) -> ReplayView
    decreases headers.len(),
{
    if headers.len() == 0 {
        s
    } else {
        after_headers(s, headers.drop_last()).header(headers.last().0, headers.last().1)
    }
}

/// The state after the moves were replayed one after the other. Where a
/// move cannot be replayed, the replay stops, as it does after the last move.
pub open spec fn after_moves(s: ReplayView, moves: Seq<SanPlus>) -> ReplayView
    decreases moves.len(),
{
    if moves.len() == 0 {
        s
    } else {
        match resolution(s.position, moves[0]) {
            None => s,
            Some(m) => if s.check().rejects(event_of(m)) {
                s.check()
            } else {
                after_moves(s.step(m), moves.drop_first())
            },
        }
    }
}

/// The state in which a game ends: after its headers and, unless the
/// headers mark it to be skipped, its moves.
pub open spec fn at_end_of(s: ReplayView, game: Game) -> ReplayView {
    let read = after_headers(s, game.headers);
    if read.skip_game {
        read
    } else {
        after_moves(read, game.moves)
    }
}

/// Whether the game, replayed from the state, reaches the target.
pub open spec fn reaches_target(s: ReplayView, game: Game) -> bool {
    at_end_of(s, game).counted
}

/// The state after a game was replayed and ended.
pub open spec fn after_game(s: ReplayView, game: Game) -> ReplayView {
    at_end_of(s, game).end()
}

/// The state after the games of a corpus were replayed one after the other.
pub open spec fn after_corpus(s: ReplayView, games: Seq<Game>) -> ReplayView
    decreases games.len(),
{
    if games.len() == 0 {
        s
    } else {
        after_game(after_corpus(s, games.drop_last()), games.last())
    }
}

/// The number of games of a corpus that reach the target.
pub open spec fn matching_games(s: ReplayView, games: Seq<Game>) -> nat
    decreases games.len(),
{
    if games.len() == 0 {
        0
    } else {
        matching_games(s, games.drop_last()) + if reaches_target(
            after_corpus(s, games.drop_last()),
            games.last(),
        ) {
            1nat
        } else {
            0nat
        }
    }
}

/// Reading headers changes nothing but what is noted of the game in
/// progress: its players, its date, and whether it is to be skipped.
pub proof fn lemma_headers_keep_counts(s: ReplayView, headers: Seq<(Seq<u8>, Seq<char>)>)
    ensures
        after_headers(s, headers) == (ReplayView {
            skip_game: after_headers(s, headers).skip_game,
            white: after_headers(s, headers).white,
            black: after_headers(s, headers).black,
            date: after_headers(s, headers).date,
            ..s
        }),
        s.skip_game ==> after_headers(s, headers).skip_game,
    decreases headers.len(),
{
    if headers.len() > 0 {
        lemma_headers_keep_counts(s, headers.drop_last());
    }
}

/// A game with a header `FEN` whose value names another position than the
/// one from which games start is marked to be skipped.
pub proof fn lemma_fen_marks_game(s: ReplayView, headers: Seq<(Seq<u8>, Seq<char>)>, i: int)
    requires
        0 <= i < headers.len(),
        headers[i].0 == "FEN".spec_bytes(),
        !names_start(s.start, headers[i].1),
    ensures
        after_headers(s, headers).skip_game,
    decreases headers.len(),
{
    lemma_header_keys_differ();
    lemma_headers_keep_counts(s, headers.drop_last());
    if i == headers.len() - 1 {
    } else {
        lemma_fen_marks_game(s, headers.drop_last(), i);
    }
}

/// A game without such a header is not marked: where every header `FEN`
/// names the position from which games start, the mark stays as it was.
pub proof fn lemma_standard_start_is_not_skipped(
    s: ReplayView,
    headers: Seq<(Seq<u8>, Seq<char>)>,
)
    requires
        forall|i: int|
            0 <= i < headers.len() && (#[trigger] headers[i]).0 == "FEN".spec_bytes()
                ==> names_start(s.start, headers[i].1),
    ensures
        after_headers(s, headers).skip_game == s.skip_game,
    decreases headers.len(),
{
    if headers.len() > 0 {
        let before = headers.drop_last();
        assert forall|i: int|
            0 <= i < before.len() && (#[trigger] before[i]).0
                == "FEN".spec_bytes() implies names_start(s.start, before[i].1) by {
            assert(before[i] == headers[i]);
        }
        lemma_standard_start_is_not_skipped(s, before);
        lemma_headers_keep_counts(s, before);
        assert(headers.last() == headers[headers.len() - 1]);
    }
}

/// The key `FEN` is none of the keys `White`, `Black` and `Date`.
proof fn lemma_header_keys_differ()
    ensures
        "FEN".spec_bytes() != "White".spec_bytes(),
        "FEN".spec_bytes() != "Black".spec_bytes(),
        "FEN".spec_bytes() != "Date".spec_bytes(),
{
    broadcast use vstd::string::is_ascii_spec_bytes;

    reveal_strlit("FEN");
    reveal_strlit("White");
    reveal_strlit("Black");
    reveal_strlit("Date");
    assert(vstd::string::is_ascii("FEN"));
    assert(vstd::string::is_ascii("White"));
    assert(vstd::string::is_ascii("Black"));
    assert(vstd::string::is_ascii("Date"));
    assert("FEN".spec_bytes().len() == 3);
    assert("White".spec_bytes().len() == 5);
    assert("Black".spec_bytes().len() == 5);
    assert("Date".spec_bytes().len() == 4);
}

/// The state before the first game is one that the library reaches, and it
/// stands between two games.
pub proof fn lemma_initial(target: KeyView, start: Chess)
    requires
        target.placement.len() == 64,
        is_standard_start(start),
    ensures
        ReplayView::initial(target, start).inv(),
        ReplayView::initial(target, start).between_games(),
{
    lemma_sum_empty(OUTCOMES as nat);
    assert(ReplayView::initial(target, start).counts.dom() =~= occupied(target));
}

/// Replaying a move keeps what holds of every state, and leaves the target,
/// the starting position and the number of finished games as they are.
pub proof fn lemma_step_keeps_inv(s: ReplayView, m: Move)
    requires
        s.inv(),
    ensures
        s.step(m).inv(),
        s.step(m).target == s.target,
        s.step(m).start == s.start,
        s.step(m).games == s.games,
{
    lemma_check_keeps_inv(s);
    lemma_observe_keeps_inv(s.check(), event_of(m));
    lemma_observe_keeps_frame(s.check(), event_of(m));
}

/// Attributing an event leaves everything but the counts and the tracked
/// squares as it is.
pub proof fn lemma_observe_keeps_frame(s: ReplayView, event: MoveEvent)
    ensures
        s.observe(event) == (ReplayView {
            counts: s.observe(event).counts,
            pieces: s.observe(event).pieces,
            ..s
        }),
{
}

/// Replaying moves keeps what holds of every state, and leaves the target,
/// the starting position and the number of finished games as they are.
pub proof fn lemma_moves_keep_inv(s: ReplayView, moves: Seq<SanPlus>)
    requires
        s.inv(),
    ensures
        after_moves(s, moves).inv(),
        after_moves(s, moves).target == s.target,
        after_moves(s, moves).start == s.start,
        after_moves(s, moves).games == s.games,
    decreases moves.len(),
{
    if moves.len() > 0 {
        match resolution(s.position, moves[0]) {
            None => {},
            Some(m) => {
                if s.check().rejects(event_of(m)) {
                    lemma_check_keeps_inv(s);
                } else {
                    lemma_step_keeps_inv(s, m);
                    lemma_moves_keep_inv(s.step(m), moves.drop_first());
                }
            },
        }
    }
}

/// After a game the state is again one that the library reaches and stands
/// between two games. The game is counted if and only if it reached the
/// target.
pub proof fn lemma_game(s: ReplayView, game: Game)
    requires
        s.inv(),
    ensures
        after_game(s, game).inv(),
        after_game(s, game).between_games(),
        after_game(s, game).target == s.target,
        after_game(s, game).start == s.start,
        after_game(s, game).games == s.games + if reaches_target(s, game) {
            1nat
        } else {
            0nat
        },
{
    lemma_headers_keep_counts(s, game.headers);
    let read = after_headers(s, game.headers);
    assert(read.inv());
    lemma_moves_keep_inv(read, game.moves);
    lemma_end_keeps_inv(at_end_of(s, game));
}

/// After a corpus the state is again one that the library reaches and
/// stands between two games, and the number of games has grown by the number
/// of games of the corpus that reached the target.
pub proof fn lemma_corpus(s: ReplayView, games: Seq<Game>)
    requires
        s.inv(),
        s.between_games(),
    ensures
        after_corpus(s, games).inv(),
        after_corpus(s, games).between_games(),
        after_corpus(s, games).target == s.target,
        after_corpus(s, games).start == s.start,
        after_corpus(s, games).games == s.games + matching_games(s, games),
    decreases games.len(),
{
    if games.len() > 0 {
        lemma_corpus(s, games.drop_last());
        lemma_game(after_corpus(s, games.drop_last()), games.last());
    }
}

/// Scanning a corpus in two parts, one after the other, gives what scanning
/// it in one piece gives: the same state, and as many games that reach the
/// target.
pub proof fn lemma_corpus_in_parts(s: ReplayView, first: Seq<Game>, second: Seq<Game>)
    ensures
        after_corpus(s, first + second) == after_corpus(after_corpus(s, first), second),
        matching_games(s, first + second) == matching_games(s, first) + matching_games(
            after_corpus(s, first),
            second,
        ),
    decreases second.len(),
{
    if second.len() == 0 {
        assert(first + second =~= first);
    } else {
        assert((first + second).drop_last() =~= first + second.drop_last());
        assert((first + second).last() == second.last());
        lemma_corpus_in_parts(s, first, second.drop_last());
    }
}

/// A skipped game leaves the counts untouched.
///
/// Of a game that its headers mark to be skipped, no move is replayed. The
/// state after it is the state before it: the same counts, the same number
/// of games, and a fresh game to come.
pub proof fn lemma_skipped_game_changes_nothing(s: ReplayView, game: Game)
    requires
        s.inv(),
        s.between_games(),
        after_headers(s, game.headers).skip_game,
    ensures
        after_game(s, game) == s,
        after_game(s, game).counts == s.counts,
        !after_game(s, game).skip_game,
        !reaches_target(s, game),
{
    lemma_headers_keep_counts(s, game.headers);
    assert(after_game(s, game) =~= s);
}

/// A square that the target position does not occupy is never a key of the
/// table: the keys are the squares of the target, whatever was scanned.
pub proof fn lemma_keys_are_target_squares(
    target: KeyView,
    start: Chess,
    games: Seq<Game>,
    square: int,
)
    requires
        target.placement.len() == 64,
        is_standard_start(start),
    ensures
        after_corpus(ReplayView::initial(target, start), games).counts.dom().contains(square)
            == occupied(target).contains(square),
{
    lemma_initial(target, start);
    lemma_corpus(ReplayView::initial(target, start), games);
}

/// In every state that the library reaches, the tally of each square of the
/// target adds up to the number of finished games that reached the target,
/// and to one more once the game in progress has given the piece of the
/// square its outcome.
pub proof fn lemma_tally_totals(s: ReplayView, square: int)
    requires
        s.inv(),
        occupied(s.target).contains(square),
    ensures
        s.counts.dom().contains(square),
        !s.counted ==> total(s.counts[square]) == s.games,
        s.counted && s.pieces.contains(square) ==> total(s.counts[square]) == s.games,
        s.counted && !s.pieces.contains(square) ==> total(s.counts[square]) == s.games + 1,
{
}

/// After a corpus the tally of each square of the target adds up to the
/// number of games that reached the target.
pub proof fn lemma_tallies_add_up_to_matching_games(
    target: KeyView,
    start: Chess,
    games: Seq<Game>,
    square: int,
)
    requires
        target.placement.len() == 64,
        is_standard_start(start),
        occupied(target).contains(square),
    ensures
        total(after_corpus(ReplayView::initial(target, start), games).counts[square])
            == matching_games(ReplayView::initial(target, start), games),
{
    lemma_initial(target, start);
    lemma_corpus(ReplayView::initial(target, start), games);
}

/// A corpus in which no game reaches the target leaves a tally for each
/// square of the target, and each of these tallies empty.
pub proof fn lemma_no_match_no_counts(
    target: KeyView,
    start: Chess,
    games: Seq<Game>,
    square: int,
)
    requires
        target.placement.len() == 64,
        is_standard_start(start),
        occupied(target).contains(square),
        matching_games(ReplayView::initial(target, start), games) == 0,
    ensures
        after_corpus(ReplayView::initial(target, start), games).counts.dom().contains(square),
        after_corpus(ReplayView::initial(target, start), games).counts[square] == Map::<
            Option<int>,
            nat,
        >::empty(),
{
    lemma_initial(target, start);
    lemma_corpus(ReplayView::initial(target, start), games);
    lemma_empty_tallies(after_corpus(ReplayView::initial(target, start), games), square);
}

/// A tracked piece that is captured on its square is counted as captured
/// where it stood: the outcome recorded for its square is its own square, no
/// other outcome of that square changes, and the square is tracked no longer.
/// If the capturing piece was tracked too, its move to that square is counted
/// in the same event.
pub proof fn lemma_capture_in_place(s: ReplayView, from: Square, to: Square)
    requires
        s.inv(),
        s.counting,
        s.pieces.contains(to@),
    ensures
        ({
            let t = s.observe(MoveEvent::Normal { from, to });
            &&& t.counts[to@] == bumped(s.counts[to@], Some(to@))
            &&& !t.pieces.contains(to@)
            &&& forall|outcome: Option<int>|
                outcome != Some(to@) ==> occurrences(t.counts[to@], outcome) == occurrences(
                    s.counts[to@],
                    outcome,
                )
            &&& from@ != to@ && s.pieces.contains(from@) ==> t.counts[from@] == bumped(
                s.counts[from@],
                Some(to@),
            ) && !t.pieces.contains(from@)
        }),
{
    let captured = s.attribute(to@, Some(to@));
    let t = captured.attribute(from@, Some(to@));
    assert(!captured.pieces.contains(to@));
    if from@ != to@ && captured.pieces.contains(from@) {
        assert(t.counts[to@] == captured.counts[to@]);
        assert(captured.counts[from@] == s.counts[from@]);
    }
}

/// A piece that the first move after the game reached the target captures
/// is counted as captured where it stood: the outcome recorded for its square
/// is its own square, and no other outcome of that square changes.
pub proof fn lemma_capture_on_entry(s: ReplayView, from: Square, to: Square)
    requires
        s.inv(),
        s.reaches_target(),
        occupied(s.target).contains(to@),
    ensures
        ({
            let t = s.check().observe(MoveEvent::Normal { from, to });
            &&& t.counts[to@] == bumped(s.counts[to@], Some(to@))
            &&& !t.pieces.contains(to@)
            &&& forall|outcome: Option<int>|
                outcome != Some(to@) ==> occurrences(t.counts[to@], outcome) == occurrences(
                    s.counts[to@],
                    outcome,
                )
        }),
{
    lemma_check_keeps_inv(s);
    lemma_capture_in_place(s.check(), from, to);
}

/// Before any game has reached the target, every tally is empty.
pub proof fn lemma_empty_tallies(s: ReplayView, square: int)
    requires
        s.inv(),
        s.games == 0,
        !s.counted,
        occupied(s.target).contains(square),
    ensures
        s.counts[square] == Map::<Option<int>, nat>::empty(),
{
    let tally = s.counts[square];
    assert forall|outcome: Option<int>| !tally.dom().contains(outcome) by {
        if tally.dom().contains(outcome) {
            assert(is_outcome(outcome));
            lemma_zero_sum(tally, outcome, OUTCOMES as nat);
        }
    }
    assert(tally =~= Map::<Option<int>, nat>::empty());
}

/// A game that reaches the target, in which then a pawn of the target
/// advances to an empty square and the next move captures a piece of the
/// target from a square that is tracked no longer, and which ends there:
/// the pawn's square gets the landing square as outcome, the captured
/// piece's square its own square, and every other square of the target
/// "never moved". In a scan that had counted nothing before, these are the
/// only entries of the tallies, each with count one.
pub proof fn lemma_advance_then_capture(
    s: ReplayView,
    advance: Move,
    capture: Move,
    p: Square,
    q: Square,
    u: Square,
    c: Square,
)
    requires
        s.inv(),
        s.reaches_target(),
        event_of(advance) == (MoveEvent::Normal { from: p, to: q }),
        event_of(capture) == (MoveEvent::Normal { from: u, to: c }),
        occupied(s.target).contains(p@),
        !occupied(s.target).contains(q@),
        occupied(s.target).contains(c@),
        c@ != p@,
        !s.step(advance).pieces.contains(u@),
    ensures
        ({
            let t = s.step(advance).step(capture).end();
            &&& t.games == s.games + 1
            &&& t.counts[p@] == bumped(s.counts[p@], Some(q@))
            &&& t.counts[c@] == bumped(s.counts[c@], Some(c@))
            &&& forall|other: int|
                occupied(s.target).contains(other) && other != p@ && other != c@
                    ==> #[trigger] t.counts[other] == bumped(s.counts[other], None)
            &&& s.games == 0 ==> {
                &&& t.counts[p@] == Map::<Option<int>, nat>::empty().insert(Some(q@), 1nat)
                &&& t.counts[c@] == Map::<Option<int>, nat>::empty().insert(Some(c@), 1nat)
                &&& forall|other: int|
                    occupied(s.target).contains(other) && other != p@ && other != c@
                        ==> #[trigger] t.counts[other] == Map::<Option<int>, nat>::empty().insert(
                        None,
                        1nat,
                    )
            }
        }),
{
    let opened = s.check();
    let advanced = opened.observe(MoveEvent::Normal { from: p, to: q });
    assert(opened.pieces == occupied(s.target));
    assert(advanced.counts == recorded(s.counts, p@, Some(q@)));
    assert(advanced.pieces == opened.pieces.remove(p@));
    let first = s.step(advance);
    assert(first.pieces.contains(c@));
    assert(first.counting);
    assert(first.counts == advanced.counts);
    let captured = first.check().observe(MoveEvent::Normal { from: u, to: c });
    assert(captured.counts == recorded(first.counts, c@, Some(c@)));
    assert(captured.pieces == first.pieces.remove(c@));
    let second = first.step(capture);
    assert(second.counts == captured.counts);
    assert(second.pieces == captured.pieces);
    assert(second.counted);
    let t = second.end();
    if s.games == 0 {
        assert forall|square: int| occupied(s.target).contains(square) implies s.counts[square]
            == Map::<Option<int>, nat>::empty() by {
            lemma_empty_tallies(s, square);
        }
    }
}

/// Two scans of the same corpus end alike: from two states between games
/// that hold the same target, the same starting position, the same counts
/// and the same number of games, the same games lead to the same state, and
/// so to the same counts.
pub proof fn lemma_same_corpus_same_counts(a: ReplayView, b: ReplayView, games: Seq<Game>)
    requires
        a.between_games(),
        b.between_games(),
        a.target == b.target,
        a.start == b.start,
        a.counts == b.counts,
        a.games == b.games,
    ensures
        after_corpus(a, games) == after_corpus(b, games),
        after_corpus(a, games).counts == after_corpus(b, games).counts,
        after_corpus(
            ReplayView::initial(a.target, a.start),
            games,
        ).counts == after_corpus(ReplayView::initial(b.target, b.start), games).counts,
{
    assert(a =~= b);
}

/// Castling inside the attribution window gives exactly two pieces their
/// outcome in one event: the king is recorded as moving to the square on
/// which it lands, the rook gets its mark for "castled", both squares are
/// tracked no longer, and no other tally changes.
pub proof fn lemma_castling_attributes_two(s: ReplayView, king: Square, rook: Square)
    requires
        s.inv(),
        s.counting,
        king@ != rook@,
        s.pieces.contains(king@),
        s.pieces.contains(rook@),
    ensures
        ({
            let t = s.observe(MoveEvent::Castle { king, rook });
            &&& t.pieces == s.pieces.remove(king@).remove(rook@)
            &&& t.counts == s.counts.insert(
                king@,
                bumped(s.counts[king@], Some(king_landing(king@, rook@))),
            ).insert(rook@, bumped(s.counts[rook@], Some(castled_rook_mark(rook@))))
            &&& total(t.counts[king@]) == total(s.counts[king@]) + 1
            &&& total(t.counts[rook@]) == total(s.counts[rook@]) + 1
            &&& forall|square: int|
                square != king@ && square != rook@ ==> t.counts[square] == s.counts[square]
        }),
{
    let t = s.observe(MoveEvent::Castle { king, rook });
    lemma_total_bumped(s.counts[king@], Some(king_landing(king@, rook@)));
    lemma_total_bumped(s.counts[rook@], Some(castled_rook_mark(rook@)));
    assert(t.counts =~= s.counts.insert(
        king@,
        bumped(s.counts[king@], Some(king_landing(king@, rook@))),
    ).insert(
        rook@,
        bumped(s.counts[rook@], Some(castled_rook_mark(rook@))),
    ));
}

/// The mark that a castled rook gets tells the rooks apart and is never the
/// rook's own square.
///
/// Two different rook squares have different marks, so castling on the
/// king's side and on the queen's side are counted apart, for White and for
/// Black: the marks of `a1`, `h1`, `a8` and `h8` are `h8`, `a8`, `h1` and
/// `a1`. A mark never falls on the rook's own square, which would read as
/// "captured where it stood".
pub proof fn lemma_castled_rook_marks(rook: int, other: int)
    requires
        on_board(rook),
        on_board(other),
    ensures
        on_board(castled_rook_mark(rook)),
        castled_rook_mark(rook) != rook,
        rook != other ==> castled_rook_mark(rook) != castled_rook_mark(other),
        castled_rook_mark(0) == 63,
        castled_rook_mark(7) == 56,
        castled_rook_mark(56) == 7,
        castled_rook_mark(63) == 0,
{
    lemma_mark_is_half_turn(rook);
    lemma_mark_is_half_turn(other);
    lemma_mark_is_half_turn(0);
    lemma_mark_is_half_turn(7);
    lemma_mark_is_half_turn(56);
    lemma_mark_is_half_turn(63);
}

/// Mirroring a square left to right and then top to bottom turns the board
/// by half a turn: the square with number `n` goes to the one with number
/// `63 - n`.
pub proof fn lemma_mark_is_half_turn(square: int)
    requires
        on_board(square),
    ensures
        castled_rook_mark(square) == 63 - square,
{
    let file = square % 8;
    let rank = square / 8;
    assert(square == rank * 8 + file);
    assert(0 <= file < 8 && 0 <= rank < 8);
    let mirrored = rank * 8 + (7 - file);
    assert(mirrored_files(square) == mirrored);
    lemma_fundamental_div_mod_converse(mirrored, 8, rank, 7 - file);
    assert(mirrored_ranks(mirrored) == (7 - rank) * 8 + (7 - file));
}

/// Within a game the tracked squares only shrink, and no count ever falls:
/// attributing an event tracks no new square and takes no occurrence away.
pub proof fn lemma_attribution_is_monotone(s: ReplayView, event: MoveEvent)
    requires
        s.inv(),
    ensures
        s.observe(event).pieces.subset_of(s.pieces),
        forall|square: int, outcome: Option<int>|
            s.counts.dom().contains(square) ==> occurrences(
                s.observe(event).counts[square],
                outcome,
            ) >= occurrences(s.counts[square], outcome),
{
    if s.counting {
        match event {
            MoveEvent::Normal { from, to } => {
                lemma_attribute_is_monotone(s, to@, Some(to@));
                lemma_attribute_is_monotone(s.attribute(to@, Some(to@)), from@, Some(to@));
            },
            MoveEvent::EnPassant { from, to } => {
                let victim = crate::state::en_passant_victim(from@, to@);
                lemma_attribute_is_monotone(s, from@, Some(to@));
                lemma_attribute_is_monotone(s.attribute(from@, Some(to@)), victim, Some(victim));
            },
            MoveEvent::Castle { king, rook } => {
                let landing = king_landing(king@, rook@);
                lemma_attribute_is_monotone(s, king@, Some(landing));
                lemma_attribute_is_monotone(
                    s.attribute(king@, Some(landing)),
                    rook@,
                    Some(castled_rook_mark(rook@)),
                );
            },
            MoveEvent::Put { to } => {},
        }
    }
}

/// Seeing an outcome for a square tracks no new square, keeps the keys of
/// the table and takes no occurrence away.
pub proof fn lemma_attribute_is_monotone(s: ReplayView, piece: int, to: Option<int>)
    requires
        s.pieces.subset_of(s.counts.dom()),
    ensures
        s.attribute(piece, to).pieces.subset_of(s.pieces),
        s.attribute(piece, to).counts.dom() == s.counts.dom(),
        forall|square: int, outcome: Option<int>|
            s.counts.dom().contains(square) ==> occurrences(
                s.attribute(piece, to).counts[square],
                outcome,
            ) >= occurrences(s.counts[square], outcome),
{
    assert(s.attribute(piece, to).counts.dom() =~= s.counts.dom());
}

/// A tally has one ranking only: two listings that both rank it agree up to
/// any length.
pub proof fn lemma_rankings_agree(
    a: Seq<(Option<int>, nat)>,
    b: Seq<(Option<int>, nat)>,
    tally: Map<Option<int>, nat>,
    n: nat,
)
    requires
        is_ranking(a, tally),
        is_ranking(b, tally),
        n <= a.len(),
    ensures
        n <= b.len(),
        forall|i: int| 0 <= i < n ==> a[i] == b[i],
    decreases n,
{
    if n > 0 {
        lemma_rankings_agree(a, b, tally, (n - 1) as nat);
        let i = n - 1;
        let o = a[i].0;
        assert(tally.dom().contains(o));
        let j = choose|j: int| 0 <= j < b.len() && (#[trigger] b[j]).0 == o;
        assert(b[j] == a[i]);
        if j < i {
            assert(b[j] == a[j]);
            assert(precedes(a[j], a[i]));
        } else if j > i {
            let p = b[i].0;
            assert(tally.dom().contains(p));
            let k = choose|k: int| 0 <= k < a.len() && (#[trigger] a[k]).0 == p;
            assert(a[k] == b[i]);
            assert(precedes(b[i], b[j]));
            if k < i {
                assert(a[k] == b[k]);
                assert(precedes(b[k], b[i]));
            } else if k > i {
                assert(precedes(a[i], a[k]));
            }
        }
    }
}

/// The order of a report is fixed by the counts: a tally has exactly one
/// ranking, so two scans that gather the same counts lay them out alike.
pub proof fn lemma_ranking_unique(
    a: Seq<(Option<int>, nat)>,
    b: Seq<(Option<int>, nat)>,
    tally: Map<Option<int>, nat>,
)
    requires
        is_ranking(a, tally),
        is_ranking(b, tally),
    ensures
        a == b,
{
    lemma_rankings_agree(a, b, tally, a.len());
    lemma_rankings_agree(b, a, tally, b.len());
    assert(a =~= b);
}

} // verus!
