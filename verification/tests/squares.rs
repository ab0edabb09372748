use first_move::square::Square;
use first_move::square_set::SquareSet;

fn sq(name: &str) -> Square {
    let bytes = name.as_bytes();
    Square::from_coords(bytes[0] - b'a', bytes[1] - b'1').unwrap()
}

#[test]
fn square_numbers_run_rank_by_rank() {
    assert_eq!(sq("a1").index(), 0);
    assert_eq!(sq("h1").index(), 7);
    assert_eq!(sq("a2").index(), 8);
    assert_eq!(sq("e4").index(), 28);
    assert_eq!(sq("h8").index(), 63);
}

#[test]
fn square_new_accepts_the_board_only() {
    assert_eq!(Square::new(0).unwrap().index(), 0);
    assert_eq!(Square::new(63).unwrap().index(), 63);
    assert!(Square::new(64).is_none());
    assert!(Square::new(255).is_none());
}

#[test]
fn square_from_coords_rejects_coordinates_off_the_board() {
    assert_eq!(Square::from_coords(4, 3), Some(sq("e4")));
    assert!(Square::from_coords(8, 0).is_none());
    assert!(Square::from_coords(0, 8).is_none());
}

#[test]
fn square_file_and_rank() {
    assert_eq!(sq("e4").file(), 4);
    assert_eq!(sq("e4").rank(), 3);
    assert_eq!(sq("a8").file(), 0);
    assert_eq!(sq("a8").rank(), 7);
}

#[test]
fn square_names_of_all_squares() {
    let files = ["a", "b", "c", "d", "e", "f", "g", "h"];
    let ranks = ["1", "2", "3", "4", "5", "6", "7", "8"];
    for index in 0..64u8 {
        let square = Square::new(index).unwrap();
        let expected = format!("{}{}", files[(index % 8) as usize], ranks[(index / 8) as usize]);
        assert_eq!(square.name(), expected);
    }
}

#[test]
fn square_flip_horizontal_mirrors_files() {
    assert_eq!(sq("h1").flip_horizontal(), sq("a1"));
    assert_eq!(sq("d3").flip_horizontal(), sq("e3"));
    assert_eq!(sq("a8").flip_horizontal(), sq("h8"));
}

#[test]
fn square_flip_vertical_mirrors_ranks() {
    assert_eq!(sq("a8").flip_vertical(), sq("a1"));
    assert_eq!(sq("d3").flip_vertical(), sq("d6"));
    assert_eq!(sq("h1").flip_vertical(), sq("h8"));
}

#[test]
fn square_flips_are_their_own_inverse() {
    for index in 0..64u8 {
        let square = Square::new(index).unwrap();
        assert_eq!(square.flip_horizontal().flip_horizontal(), square);
        assert_eq!(square.flip_vertical().flip_vertical(), square);
    }
}

#[test]
fn square_with_rank_of_takes_file_and_rank() {
    assert_eq!(sq("d3").with_rank_of(sq("f5")), sq("d5"));
    assert_eq!(sq("d6").with_rank_of(sq("e5")), sq("d5"));
    assert_eq!(sq("a1").with_rank_of(sq("h8")), sq("a8"));
}

#[test]
fn square_set_starts_empty() {
    let set = SquareSet::empty();
    assert!(set.is_empty());
    for index in 0..64u8 {
        assert!(!set.contains(Square::new(index).unwrap()));
    }
}

#[test]
fn square_set_insert_and_remove() {
    let mut set = SquareSet::empty();
    set.insert(sq("e4"));
    set.insert(sq("h8"));
    set.insert(sq("e4"));
    assert!(set.contains(sq("e4")));
    assert!(set.contains(sq("h8")));
    assert!(!set.contains(sq("a1")));
    assert!(!set.is_empty());
    set.remove(sq("e4"));
    assert!(!set.contains(sq("e4")));
    assert!(set.contains(sq("h8")));
    set.remove(sq("a1"));
    set.remove(sq("h8"));
    assert!(set.is_empty());
}

#[test]
fn square_set_from_bits_reads_bit_per_square() {
    let set = SquareSet::from_bits(0x8100_0000_0000_0081);
    for index in 0..64u8 {
        let expected = index == 0 || index == 7 || index == 56 || index == 63;
        assert_eq!(set.contains(Square::new(index).unwrap()), expected);
    }
}

#[test]
fn square_set_same_compares_members() {
    let mut a = SquareSet::empty();
    let mut b = SquareSet::from_bits(1 << 28);
    assert!(!a.same(&b));
    a.insert(sq("e4"));
    assert!(a.same(&b));
    b.insert(sq("a1"));
    assert!(!a.same(&b));
}

#[test]
fn square_same_compares_numbers() {
    assert!(sq("e4").same(sq("e4")));
    assert!(!sq("e4").same(sq("d4")));
    assert!(Square::new(28).unwrap().same(sq("e4")));
}
