//! The accumulator: for each square of the target position, the tally of what
//! became of the piece that stood there.

use crate::square::{on_board, Square};
use crate::square_set::SquareSet;
use crate::tally::{bumped, occurrences, outcome_view, Tally};
use std::collections::HashMap;
use vstd::prelude::*;
use vstd::std_specs::hash::group_hash_axioms;

verus! {

broadcast use {Square::lemma_on_board, group_hash_axioms};

/// The table over the given squares in which nothing has been counted yet.
pub open spec fn empty_table(squares: Set<int>) -> Map<int, Map<Option<int>, nat>> {
    Map::new(|square: int| squares.contains(square), |square: int| Map::empty())
}

/// The table after one more occurrence of `outcome` for the piece of `square`.
pub open spec fn recorded(
    table: Map<int, Map<Option<int>, nat>>,
    square: int,
    outcome: Option<int>,
) -> Map<int, Map<Option<int>, nat>> {
    table.insert(square, bumped(table[square], outcome))
}

/// Counts of outcomes, keyed by the squares of the target position.
///
/// The view maps the number of each such square to the tally of its piece.
/// The set of squares is fixed when the table is made: counting never adds
/// or removes one.
pub struct AttributionTable {
    rows: HashMap<u8, Tally>,
}

impl View for AttributionTable {
    type V = Map<int, Map<Option<int>, nat>>;

    closed spec fn view(&self) -> Map<int, Map<Option<int>, nat>> {
        Map::new(
            |square: int| on_board(square) && self.rows@.contains_key(square as u8),
            |square: int| self.rows@[square as u8]@,
        )
    }
}

impl AttributionTable {
    /// The representation is keyed by numbers of squares and holds
    /// well-formed tallies.
    pub closed spec fn wf(&self) -> bool {
        forall|key: u8| #[trigger]
            self.rows@.contains_key(key) ==> key < 64 && self.rows@[key].wf()
    }

    /// The table over the given squares with every tally empty.
    pub fn new(squares: &SquareSet) -> (r: AttributionTable)
        ensures
            r.wf(),
            r@ == empty_table(squares@),
    {
        let mut rows: HashMap<u8, Tally> = HashMap::new();
        let mut i: u8 = 0;
        while i < 64
            invariant
                i <= 64,
                forall|key: u8| #[trigger]
                    rows@.contains_key(key) <==> key < i && squares@.contains(key as int),
                forall|key: u8| #[trigger]
                    rows@.contains_key(key) ==> rows@[key].wf() && rows@[key]@ == Map::<
                        Option<int>,
                        nat,
                    >::empty(),
            decreases 64 - i,
        {
            let square = Square::new(i).unwrap();
            if squares.contains(square) {
                rows.insert(i, Tally::new());
            }
            i = i + 1;
        }
        let r = AttributionTable { rows };
        proof {
            squares.lemma_members_on_board();
            assert(r@ =~= empty_table(squares@));
        }
        r
    }

    /// The squares that the table is keyed by.
    pub fn squares(&self) -> (r: SquareSet)
        ensures
            r@ == self@.dom(),
    {
        let mut squares = SquareSet::empty();
        let mut i: u8 = 0;
        while i < 64
            invariant
                i <= 64,
                forall|square: int|
                    squares@.contains(square) <==> 0 <= square < i && self.rows@.contains_key(
                        square as u8,
                    ),
            decreases 64 - i,
        {
            if self.rows.contains_key(&i) {
                squares.insert(Square::new(i).unwrap());
            }
            i = i + 1;
        }
        assert(squares@ =~= self@.dom());
        squares
    }

    /// Whether the table has a tally for the square.
    pub fn contains(&self, square: Square) -> (r: bool)
        ensures
            r == self@.dom().contains(square@),
    {
        let key = square.index();
        self.rows.contains_key(&key)
    }

    /// The tally of the piece of the given square, if the table has one.
    pub fn get(&self, square: Square) -> (r: Option<&Tally>)
        requires
            self.wf(),
        ensures
            r is Some <==> self@.dom().contains(square@),
            r matches Some(tally) ==> tally.wf() && tally@ == self@[square@],
    {
        let key = square.index();
        self.rows.get(&key)
    }

    /// How often `to` was recorded for the piece of `square`; zero where the
    /// table has no tally for the square.
    pub fn count(&self, square: Square, to: Option<Square>) -> (r: u32)
        requires
            self.wf(),
        ensures
            self@.dom().contains(square@) ==> r == occurrences(self@[square@], outcome_view(to)),
            !self@.dom().contains(square@) ==> r == 0,
    {
        match self.get(square) {
            Some(tally) => tally.get(to),
            None => 0,
        }
    }

    /// Counts one more occurrence of the outcome `to` for the piece of
    /// `square`.
    pub fn record(&mut self, square: Square, to: Option<Square>)
        requires
            old(self).wf(),
            old(self)@.dom().contains(square@),
            occurrences(old(self)@[square@], outcome_view(to)) < u32::MAX,
        ensures
            final(self).wf(),
            final(self)@ == recorded(old(self)@, square@, outcome_view(to)),
    {
        let key = square.index();
        let mut tally = self.rows.remove(&key).unwrap();
        tally.bump(to);
        self.rows.insert(key, tally);
        proof {
            assert forall|other: int| self@.dom().contains(other) implies #[trigger] self@[other]
                == recorded(old(self)@, square@, outcome_view(to))[other] by {
                if other != square@ {
                    assert(other as u8 != key);
                }
            }
            assert(self@ =~= recorded(old(self)@, square@, outcome_view(to)));
        }
    }
}

} // verus!
