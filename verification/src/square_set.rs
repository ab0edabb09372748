//! Sets of squares.

use crate::square::{on_board, Square};
use std::collections::HashSet;
use vstd::prelude::*;
use vstd::std_specs::hash::group_hash_axioms;

verus! {

broadcast use {Square::lemma_on_board, group_hash_axioms};

/// Whether bit `square` of `bits` is set.
pub open spec fn has_bit(bits: u64, square: int) -> bool {
    0 <= square < 64 && (bits >> (square as u64)) & 1 == 1
}

/// The squares whose bit is set in `bits`.
pub open spec fn squares_of(bits: u64) -> Set<int> {
    Set::new(|square: int| has_bit(bits, square))
}

/// A set of squares of the board.
///
/// The view is the set of the numbers of its squares.
#[derive(Debug)]
pub struct SquareSet {
    squares: HashSet<u8>,
}

impl View for SquareSet {
    type V = Set<int>;

    closed spec fn view(&self) -> Set<int> {
        Set::new(|square: int| on_board(square) && self.squares@.contains(square as u8))
    }
}

impl SquareSet {
    /// Every member of a set of squares is a square of the board.
    pub proof fn lemma_members_on_board(&self)
        ensures
            forall|square: int| self@.contains(square) ==> on_board(square),
    {
    }

    /// The set without any square.
    pub fn empty() -> (r: SquareSet)
        ensures
            r@ == Set::<int>::empty(),
    {
        let r = SquareSet { squares: HashSet::new() };
        assert(r@ =~= Set::<int>::empty());
        r
    }

    /// The set of the squares whose bit is set in `bits`, bit 0 standing for
    /// `a1` and bit 63 for `h8`.
    pub fn from_bits(bits: u64) -> (r: SquareSet)
        ensures
            r@ == squares_of(bits),
    {
        let mut squares: HashSet<u8> = HashSet::new();
        let mut i: u8 = 0;
        while i < 64
            invariant
                i <= 64,
                forall|key: u8| #[trigger]
                    squares@.contains(key) <==> key < i && has_bit(bits, key as int),
            decreases 64 - i,
        {
            if (bits >> (i as u64)) & 1 == 1 {
                squares.insert(i);
            }
            i = i + 1;
        }
        let r = SquareSet { squares };
        assert(r@ =~= squares_of(bits));
        r
    }

    /// Whether the square is in the set.
    pub fn contains(&self, square: Square) -> (r: bool)
        ensures
            r == self@.contains(square@),
    {
        let key = square.index();
        self.squares.contains(&key)
    }

    /// Whether two sets hold the same squares.
    pub fn same(&self, other: &SquareSet) -> (r: bool)
        ensures
            r == (self@ == other@),
    {
        let mut i: u8 = 0;
        while i < 64
            invariant
                i <= 64,
                forall|square: int|
                    0 <= square < i ==> self@.contains(square) == other@.contains(square),
            decreases 64 - i,
        {
            if self.squares.contains(&i) != other.squares.contains(&i) {
                assert(self@.contains(i as int) != other@.contains(i as int));
                return false;
            }
            i = i + 1;
        }
        assert(self@ =~= other@);
        true
    }

    /// Whether the set holds no square.
    pub fn is_empty(&self) -> (r: bool)
        ensures
            r == (self@ == Set::<int>::empty()),
    {
        let mut i: u8 = 0;
        while i < 64
            invariant
                i <= 64,
                forall|square: int| 0 <= square < i ==> !self@.contains(square),
            decreases 64 - i,
        {
            if self.squares.contains(&i) {
                assert(self@.contains(i as int));
                return false;
            }
            i = i + 1;
        }
        assert(self@ =~= Set::<int>::empty());
        true
    }

    /// Adds the square to the set.
    pub fn insert(&mut self, square: Square)
        ensures
            final(self)@ == old(self)@.insert(square@),
    {
        let key = square.index();
        self.squares.insert(key);
        assert(self@ =~= old(self)@.insert(square@));
    }

    /// Takes the square out of the set.
    pub fn remove(&mut self, square: Square)
        ensures
            final(self)@ == old(self)@.remove(square@),
    {
        let key = square.index();
        self.squares.remove(&key);
        assert(self@ =~= old(self)@.remove(square@));
    }
}

} // verus!
