//! The report: the counts of a scan, ordered and partitioned for
//! presentation.

use crate::piece::{Color, Piece, Role};
use crate::position::{KeyView, PositionKey};
use crate::table::AttributionTable;
use crate::square::{square_name, Square};
use crate::tally::{
    is_outcome, occurrences, outcome, outcome_at, outcome_view, slot_of, Tally, OUTCOMES,
};
use vstd::prelude::*;
use vstd::string::StringExecFns;

verus! {

broadcast use Square::lemma_on_board;

/// A listing of outcomes with their counts, as the contracts see it.
pub open spec fn listing_view(listing: Seq<(Option<Square>, u32)>) -> Seq<(Option<int>, nat)> {
    Seq::new(listing.len(), |i: int| (outcome_view(listing[i].0), listing[i].1 as nat))
}

/// The order of a report: the more frequent outcome comes first, and of two
/// equally frequent ones the one that is earlier in the fixed order of
/// outcomes (squares by their number, then "never moved").
pub open spec fn precedes(a: (Option<int>, nat), b: (Option<int>, nat)) -> bool {
    a.1 > b.1 || (a.1 == b.1 && slot_of(a.0) < slot_of(b.0))
}

/// Whether a listing is the ranking of a tally: it holds each outcome of the
/// tally with its count, and nothing else, in the order of a report.
pub open spec fn is_ranking(
    listing: Seq<(Option<int>, nat)>,
    tally: Map<Option<int>, nat>,
) -> bool {
    &&& forall|i: int|
        0 <= i < listing.len() ==> tally.dom().contains((#[trigger] listing[i]).0)
            && tally[listing[i].0] == listing[i].1
    &&& forall|o: Option<int>| #[trigger]
        tally.dom().contains(o) ==> exists|i: int|
            0 <= i < listing.len() && (#[trigger] listing[i]).0 == o
    &&& forall|i: int, j: int|
        0 <= i < j < listing.len() ==> precedes(#[trigger] listing[i], #[trigger] listing[j])
}

/// The outcomes of a tally with their counts, the most frequent first.
pub fn sorted_targets(targets: &Tally) -> (r: Vec<(Option<Square>, u32)>)
    requires
        targets.wf(),
    ensures
        is_ranking(listing_view(r@), targets@),
{
    let mut out: Vec<(Option<Square>, u32)> = Vec::new();
    let mut slot: usize = 0;
    while slot < OUTCOMES
        invariant
            slot <= OUTCOMES,
            targets.wf(),
            forall|i: int|
                0 <= i < out.len() ==> {
                    let o = outcome_view((#[trigger] out[i]).0);
                    &&& is_outcome(o)
                    &&& slot_of(o) < slot
                    &&& occurrences(targets@, o) == out[i].1
                    &&& out[i].1 > 0
                },
            forall|s: int|
                0 <= s < slot && occurrences(targets@, #[trigger] outcome_at(s)) > 0
                    ==> exists|i: int|
                    0 <= i < out.len() && outcome_view((#[trigger] out[i]).0) == outcome_at(s),
            forall|i: int, j: int|
                0 <= i < j < out.len() ==> precedes(
                    #[trigger] listing_view(out@)[i],
                    #[trigger] listing_view(out@)[j],
                ),
        decreases OUTCOMES - slot,
    {
        let to = outcome(slot);
        let count = targets.get(to);
        if count > 0 {
            let mut p: usize = 0;
            while p < out.len() && out[p].1 >= count
                invariant
                    p <= out.len(),
                    forall|k: int| 0 <= k < p ==> (#[trigger] out[k]).1 >= count,
                decreases out.len() - p,
            {
                p = p + 1;
            }
            let ghost before = out@;
            out.insert(p, (to, count));
            proof {
                let fresh = (outcome_view(to), count as nat);
                assert(listing_view(out@)[p as int] == fresh);
                assert forall|i: int| 0 <= i < out.len() && i != p implies #[trigger] out[i]
                    == before[if i < p {
                    i
                } else {
                    i - 1
                }] by {}
                assert forall|i: int, j: int| 0 <= i < j < out.len() implies precedes(
                    #[trigger] listing_view(out@)[i],
                    #[trigger] listing_view(out@)[j],
                ) by {
                    let bi = if i < p {
                        i
                    } else {
                        i - 1
                    };
                    let bj = if j < p {
                        j
                    } else {
                        j - 1
                    };
                    if i == p {
                        assert(out[j] == before[bj]);
                        if bj > p {
                            assert(precedes(
                                listing_view(before)[p as int],
                                listing_view(before)[bj],
                            ));
                        }
                    } else if j == p {
                        assert(out[i] == before[bi]);
                    } else {
                        assert(out[i] == before[bi]);
                        assert(out[j] == before[bj]);
                        assert(precedes(listing_view(before)[bi], listing_view(before)[bj]));
                    }
                }
                assert forall|s: int|
                    0 <= s < slot + 1 && occurrences(
                        targets@,
                        #[trigger] outcome_at(s),
                    ) > 0 implies exists|i: int|
                    0 <= i < out.len() && outcome_view((#[trigger] out[i]).0) == outcome_at(
                        s,
                    ) by {
                    if s == slot {
                        assert(outcome_view(out[p as int].0) == outcome_at(s));
                    } else {
                        let i = choose|i: int|
                            0 <= i < before.len() && outcome_view((#[trigger] before[i]).0)
                                == outcome_at(s);
                        let k = if i < p {
                            i
                        } else {
                            i + 1
                        };
                        assert(out[k] == before[i]);
                    }
                }
            }
        }
        slot = slot + 1;
    }
    proof {
        targets.lemma_entries();
        let listing = listing_view(out@);
        assert forall|o: Option<int>| #[trigger] targets@.dom().contains(o) implies exists|i: int|
            0 <= i < listing.len() && (#[trigger] listing[i]).0 == o by {
            assert(outcome_at(slot_of(o)) == o);
            let i = choose|i: int|
                0 <= i < out.len() && outcome_view((#[trigger] out[i]).0) == outcome_at(
                    slot_of(o),
                );
            assert(listing[i].0 == o);
        }
        assert forall|i: int| 0 <= i < listing.len() implies targets@.dom().contains(
            (#[trigger] listing[i]).0,
        ) && targets@[listing[i].0] == listing[i].1 by {
            assert(out[i].1 > 0);
        }
    }
    out
}

/// How a target is written in the list that the page hands to its arrow
/// script: the name of the square between single quotes, or `null` for
/// "never moved".
pub open spec fn js_target(target: Option<int>) -> Seq<char> {
    match target {
        Some(square) => seq!['\''] + square_name(square) + seq!['\''],
        None => seq!['n', 'u', 'l', 'l'],
    }
}

/// The first `n` targets of a listing, each written for the arrow script,
/// with commas between them.
pub open spec fn js_joined(listing: Seq<(Option<int>, nat)>, n: nat) -> Seq<char>
    decreases n,
{
    if n == 0 {
        Seq::empty()
    } else if n == 1 {
        js_target(listing[0].0)
    } else {
        js_joined(listing, (n - 1) as nat) + seq![','] + js_target(listing[n - 1].0)
    }
}

/// Number of targets that the page highlights for a piece.
pub const HIGHLIGHTS: usize = 3;

/// The number of targets of a listing that are highlighted: the first three,
/// or all where there are fewer.
pub open spec fn highlighted(len: nat) -> nat {
    if len < HIGHLIGHTS {
        len
    } else {
        HIGHLIGHTS as nat
    }
}

/// The list of the highlighted targets of a listing, in square brackets, as
/// the arrow script takes it.
pub open spec fn js_targets(listing: Seq<(Option<int>, nat)>) -> Seq<char> {
    seq!['['] + js_joined(listing, highlighted(listing.len())) + seq![']']
}

fn push_js_target(out: &mut String, target: Option<Square>)
    ensures
        final(out)@ == old(out)@ + js_target(outcome_view(target)),
{
    match target {
        Some(square) => {
            out.push('\'');
            let name = square.name();
            out.append(name.as_str());
            out.push('\'');
        },
        None => {
            out.push('n');
            out.push('u');
            out.push('l');
            out.push('l');
        },
    }
    assert(out@ =~= old(out)@ + js_target(outcome_view(target)));
}

/// The most frequent targets of a ranking, at most three, written as a list
/// for the arrow script of the page.
pub fn jstargets(targets: &Vec<(Option<Square>, u32)>) -> (r: String)
    ensures
        r@ == js_targets(listing_view(targets@)),
{
    let ghost listing = listing_view(targets@);
    let shown = if targets.len() < HIGHLIGHTS {
        targets.len()
    } else {
        HIGHLIGHTS
    };
    let mut to = String::new();
    to.push('[');
    let mut i: usize = 0;
    while i < shown
        invariant
            i <= shown <= targets.len(),
            listing == listing_view(targets@),
            to@ == seq!['['] + js_joined(listing, i as nat),
        decreases shown - i,
    {
        if i > 0 {
            to.push(',');
        }
        push_js_target(&mut to, targets[i].0);
        i = i + 1;
        assert(to@ =~= seq!['['] + js_joined(listing, i as nat));
    }
    to.push(']');
    assert(to@ =~= js_targets(listing));
    to
}

/// One line of the table of a piece: what became of it, and how often.
pub struct CountRow {
    pub label: String,
    pub count: u32,
}

/// The label of a target in the table of the piece that stood on `from`: the
/// piece's own square reads as "Captured", another square by its name, and no
/// square as "Unmoved".
pub open spec fn count_label(target: Option<int>, from: int) -> Seq<char> {
    match target {
        Some(square) => if square == from {
            "Captured"@
        } else {
            square_name(square)
        },
        None => "Unmoved"@,
    }
}

/// Whether the rows are the table of the listing for the piece that stood on
/// `from`: one row for each entry, in the same order, with its label and
/// count.
pub open spec fn is_count_table(
    rows: Seq<CountRow>,
    listing: Seq<(Option<int>, nat)>,
    from: int,
) -> bool {
    &&& rows.len() == listing.len()
    &&& forall|i: int|
        0 <= i < rows.len() ==> (#[trigger] rows[i]).label@ == count_label(listing[i].0, from)
            && rows[i].count == listing[i].1
}

/// The table of a piece: a labelled row for each entry of its ranking.
pub fn count_table(targets: &Vec<(Option<Square>, u32)>, from: Square) -> (r: Vec<CountRow>)
    ensures
        is_count_table(r@, listing_view(targets@), from@),
{
    let mut rows: Vec<CountRow> = Vec::new();
    let mut i: usize = 0;
    while i < targets.len()
        invariant
            i <= targets.len(),
            rows.len() == i,
            forall|k: int|
                0 <= k < i ==> (#[trigger] rows[k]).label@ == count_label(
                    listing_view(targets@)[k].0,
                    from@,
                ) && rows[k].count == listing_view(targets@)[k].1,
        decreases targets.len() - i,
    {
        let (dest, count) = targets[i];
        let label = match dest {
            Some(d) => if d.same(from) {
                String::from_str("Captured")
            } else {
                d.name()
            },
            None => String::from_str("Unmoved"),
        };
        rows.push(CountRow { label, count });
        i = i + 1;
    }
    rows
}

/// The figurine of a piece.
pub open spec fn figurine(color: Color, role: Role) -> char {
    match color {
        Color::White => match role {
            Role::King => '\u{2654}',
            Role::Queen => '\u{2655}',
            Role::Rook => '\u{2656}',
            Role::Bishop => '\u{2657}',
            Role::Knight => '\u{2658}',
            Role::Pawn => '\u{2659}',
        },
        Color::Black => match role {
            Role::King => '\u{265A}',
            Role::Queen => '\u{265B}',
            Role::Rook => '\u{265C}',
            Role::Bishop => '\u{265D}',
            Role::Knight => '\u{265E}',
            Role::Pawn => '\u{265F}',
        },
    }
}

/// The figurine of a piece, as a text of one character.
pub fn piece_char(color: Color, role: Role) -> (r: &'static str)
    ensures
        r@ == seq![figurine(color, role)],
{
    proof {
        reveal_strlit("\u{2654}");
        reveal_strlit("\u{2655}");
        reveal_strlit("\u{2656}");
        reveal_strlit("\u{2657}");
        reveal_strlit("\u{2658}");
        reveal_strlit("\u{2659}");
        reveal_strlit("\u{265A}");
        reveal_strlit("\u{265B}");
        reveal_strlit("\u{265C}");
        reveal_strlit("\u{265D}");
        reveal_strlit("\u{265E}");
        reveal_strlit("\u{265F}");
    }
    let r = match color {
        Color::White => match role {
            Role::King => "\u{2654}",
            Role::Queen => "\u{2655}",
            Role::Rook => "\u{2656}",
            Role::Bishop => "\u{2657}",
            Role::Knight => "\u{2658}",
            Role::Pawn => "\u{2659}",
        },
        Color::Black => match role {
            Role::King => "\u{265A}",
            Role::Queen => "\u{265B}",
            Role::Rook => "\u{265C}",
            Role::Bishop => "\u{265D}",
            Role::Knight => "\u{265E}",
            Role::Pawn => "\u{265F}",
        },
    };
    assert(r@ =~= seq![figurine(color, role)]);
    r
}

/// What the report says of one piece of the target position.
pub struct PieceStats {
    /// The square on which the piece stands in the target position.
    pub square: Square,
    /// The piece.
    pub piece: Piece,
    /// The figurine of the piece followed by the name of its square.
    pub heading: String,
    /// What became of the piece, the most frequent outcome first.
    pub targets: Vec<(Option<Square>, u32)>,
    /// The most frequent targets as a list for the arrow script.
    pub arrows: String,
    /// The outcomes as labelled rows, in the order of `targets`.
    pub rows: Vec<CountRow>,
}

/// How a piece on a square is headed in the report: by its figurine and the
/// name of the square.
pub open spec fn heading_of(piece: Piece, square: int) -> Seq<char> {
    seq![figurine(piece.color, piece.role)] + square_name(square)
}

/// Whether the entry says of its square what the counts and the target
/// position hold: the piece that stands there, the ranking of its tally, and
/// the texts made from that ranking.
pub open spec fn describes(
    stats: PieceStats,
    counts: Map<int, Map<Option<int>, nat>>,
    board: KeyView,
) -> bool {
    let listing = listing_view(stats.targets@);
    &&& board.placement[stats.square@] == Some(stats.piece)
    &&& stats.heading@ == heading_of(stats.piece, stats.square@)
    &&& is_ranking(listing, counts[stats.square@])
    &&& stats.arrows@ == js_targets(listing)
    &&& is_count_table(stats.rows@, listing, stats.square@)
}

/// The entries of the report for the given squares, in their order.
pub fn stats_table(pieces: &Vec<Square>, counts: &AttributionTable, board: &PositionKey) -> (r:
    Vec<PieceStats>)
    requires
        counts.wf(),
        board.wf(),
        forall|i: int|
            0 <= i < pieces.len() ==> counts@.dom().contains((#[trigger] pieces[i])@)
                && board@.placement[pieces[i]@] is Some,
    ensures
        r.len() == pieces.len(),
        forall|i: int|
            0 <= i < r.len() ==> (#[trigger] r[i]).square == pieces[i] && describes(
                r[i],
                counts@,
                board@,
            ),
{
    let mut table: Vec<PieceStats> = Vec::new();
    let mut i: usize = 0;
    while i < pieces.len()
        invariant
            i <= pieces.len(),
            table.len() == i,
            counts.wf(),
            board.wf(),
            forall|k: int|
                0 <= k < pieces.len() ==> counts@.dom().contains((#[trigger] pieces[k])@)
                    && board@.placement[pieces[k]@] is Some,
            forall|k: int|
                0 <= k < i ==> (#[trigger] table[k]).square == pieces[k] && describes(
                    table[k],
                    counts@,
                    board@,
                ),
        decreases pieces.len() - i,
    {
        let square = pieces[i];
        let piece = board.piece_at(square).unwrap();
        let tally = counts.get(square).unwrap();
        let targets = sorted_targets(tally);
        let arrows = jstargets(&targets);
        let rows = count_table(&targets, square);
        let mut heading = String::from_str(piece_char(piece.color, piece.role));
        let name = square.name();
        heading.append(name.as_str());
        assert(heading@ =~= heading_of(piece, square@));
        table.push(PieceStats { square, piece, heading, targets, arrows, rows });
        i = i + 1;
    }
    table
}

/// Whether the piece on a square of the board belongs to the part of the
/// report for the given side and for pawns or for the other pieces.
pub open spec fn in_part(board: KeyView, square: int, color: Color, pawns: bool) -> bool {
    board.placement[square] matches Some(piece) && piece.color == color && (piece.role
        == Role::Pawn) == pawns
}

/// The squares with a number below `n` that are keys of the counts and
/// belong to the given part of the report, in the order of their numbers.
pub open spec fn part_squares(
    keys: Set<int>,
    board: KeyView,
    color: Color,
    pawns: bool,
    n: nat,
) -> Seq<int>
    decreases n,
{
    if n == 0 {
        Seq::empty()
    } else {
        let before = part_squares(keys, board, color, pawns, (n - 1) as nat);
        if keys.contains(n - 1) && in_part(board, n - 1, color, pawns) {
            before.push(n - 1)
        } else {
            before
        }
    }
}

/// The squares of the entries of a part of the report.
pub open spec fn entry_squares(part: Seq<PieceStats>) -> Seq<int> {
    Seq::new(part.len(), |i: int| part[i].square@)
}

/// Whether the entries are the given part of the report: one entry for each
/// square of the part, in the order of the squares, each describing its
/// square.
pub open spec fn is_part(
    part: Seq<PieceStats>,
    counts: Map<int, Map<Option<int>, nat>>,
    board: KeyView,
    color: Color,
    pawns: bool,
) -> bool {
    &&& entry_squares(part) == part_squares(counts.dom(), board, color, pawns, 64)
    &&& forall|i: int| 0 <= i < part.len() ==> describes(#[trigger] part[i], counts, board)
}

/// The report of a scan: the pieces of the target position in four parts,
/// White's pawns, White's other pieces, Black's pawns and Black's other
/// pieces.
pub struct Report {
    pub white_pawns: Vec<PieceStats>,
    pub white_pieces: Vec<PieceStats>,
    pub black_pawns: Vec<PieceStats>,
    pub black_pieces: Vec<PieceStats>,
}

/// The squares of one part of the report, in the order of their numbers.
fn part(counts: &AttributionTable, board: &PositionKey, color: Color, pawns: bool) -> (r: Vec<
    Square,
>)
    requires
        counts.wf(),
        board.wf(),
    ensures
        r@.len() == part_squares(counts@.dom(), board@, color, pawns, 64).len(),
        forall|i: int|
            0 <= i < r.len() ==> (#[trigger] r[i])@ == part_squares(
                counts@.dom(),
                board@,
                color,
                pawns,
                64,
            )[i] && counts@.dom().contains(r[i]@) && board@.placement[r[i]@] is Some,
{
    let mut squares: Vec<Square> = Vec::new();
    let mut i: u8 = 0;
    while i < 64
        invariant
            i <= 64,
            counts.wf(),
            board.wf(),
            squares@.len() == part_squares(counts@.dom(), board@, color, pawns, i as nat).len(),
            forall|k: int|
                0 <= k < squares.len() ==> (#[trigger] squares[k])@ == part_squares(
                    counts@.dom(),
                    board@,
                    color,
                    pawns,
                    i as nat,
                )[k] && counts@.dom().contains(squares[k]@) && board@.placement[squares[k]@] is Some,
        decreases 64 - i,
    {
        let square = Square::new(i).unwrap();
        if counts.contains(square) {
            match board.piece_at(square) {
                Some(piece) => {
                    let pawn = match piece.role {
                        Role::Pawn => true,
                        _ => false,
                    };
                    if piece.color == color && pawn == pawns {
                        squares.push(square);
                    }
                },
                None => {},
            }
        }
        i = i + 1;
    }
    squares
}

/// Lays out the counts of a scan for presentation.
///
/// The pieces of the target position come in four parts, by side and by
/// pawn or other piece, each in the order of the squares. For each piece the
/// outcomes are ranked, the most frequent first.
pub fn output(counts: &AttributionTable, board: &PositionKey) -> (r: Report)
    requires
        counts.wf(),
        board.wf(),
    ensures
        is_part(r.white_pawns@, counts@, board@, Color::White, true),
        is_part(r.white_pieces@, counts@, board@, Color::White, false),
        is_part(r.black_pawns@, counts@, board@, Color::Black, true),
        is_part(r.black_pieces@, counts@, board@, Color::Black, false),
{
    let white_pawns = stats_table(&part(counts, board, Color::White, true), counts, board);
    let white_pieces = stats_table(&part(counts, board, Color::White, false), counts, board);
    let black_pawns = stats_table(&part(counts, board, Color::Black, true), counts, board);
    let black_pieces = stats_table(&part(counts, board, Color::Black, false), counts, board);
    proof {
        assert(entry_squares(white_pawns@) =~= part_squares(
            counts@.dom(),
            board@,
            Color::White,
            true,
            64,
        ));
        assert(entry_squares(white_pieces@) =~= part_squares(
            counts@.dom(),
            board@,
            Color::White,
            false,
            64,
        ));
        assert(entry_squares(black_pawns@) =~= part_squares(
            counts@.dom(),
            board@,
            Color::Black,
            true,
            64,
        ));
        assert(entry_squares(black_pieces@) =~= part_squares(
            counts@.dom(),
            board@,
            Color::Black,
            false,
            64,
        ));
    }
    Report { white_pawns, white_pieces, black_pawns, black_pieces }
}

} // verus!
