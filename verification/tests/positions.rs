use first_move::piece::{Color, Piece, Role};
use first_move::position::PositionKey;
use first_move::square::Square;
use first_move::square_set::SquareSet;
use shakmaty::fen::Fen;
use shakmaty::san::San;
use shakmaty::{Chess, Position};

fn on(name: &str) -> Square {
    let bytes = name.as_bytes();
    Square::from_coords(bytes[0] - b'a', bytes[1] - b'1').unwrap()
}

fn played(moves: &[&str]) -> Chess {
    let mut pos = Chess::default();
    for text in moves {
        let m = San::from_ascii(text.as_bytes()).unwrap().to_move(&pos).unwrap();
        pos.play_unchecked(&m);
    }
    pos
}

fn from_fen(text: &str) -> Chess {
    let fen: Fen = text.parse().unwrap();
    fen.position().unwrap()
}

#[test]
fn key_of_the_starting_position() {
    let key = PositionKey::of(&Chess::default());
    assert!(key.white_to_move());
    assert!(key.castling_rights().same(&SquareSet::from_bits(0x8100_0000_0000_0081)));
    let back = [
        Role::Rook,
        Role::Knight,
        Role::Bishop,
        Role::Queen,
        Role::King,
        Role::Bishop,
        Role::Knight,
        Role::Rook,
    ];
    for file in 0..8u8 {
        let role = back[file as usize];
        assert_eq!(
            key.piece_at(Square::from_coords(file, 0).unwrap()),
            Some(Piece { color: Color::White, role })
        );
        assert_eq!(
            key.piece_at(Square::from_coords(file, 1).unwrap()),
            Some(Piece { color: Color::White, role: Role::Pawn })
        );
        for rank in 2..6u8 {
            assert_eq!(key.piece_at(Square::from_coords(file, rank).unwrap()), None);
        }
        assert_eq!(
            key.piece_at(Square::from_coords(file, 6).unwrap()),
            Some(Piece { color: Color::Black, role: Role::Pawn })
        );
        assert_eq!(
            key.piece_at(Square::from_coords(file, 7).unwrap()),
            Some(Piece { color: Color::Black, role })
        );
    }
}

#[test]
fn key_follows_the_moves() {
    let key = PositionKey::of(&played(&["e4", "c5", "Ke2"]));
    assert!(!key.white_to_move());
    assert_eq!(key.piece_at(on("e4")), Some(Piece { color: Color::White, role: Role::Pawn }));
    assert_eq!(key.piece_at(on("e2")), Some(Piece { color: Color::White, role: Role::King }));
    assert_eq!(key.piece_at(on("e1")), None);
    assert_eq!(key.piece_at(on("c5")), Some(Piece { color: Color::Black, role: Role::Pawn }));
    assert_eq!(key.piece_at(on("c7")), None);
    assert!(key.castling_rights().same(&SquareSet::from_bits(0x8100_0000_0000_0000)));
}

#[test]
fn key_occupied_lists_the_squares_with_a_piece() {
    let key = PositionKey::of(&played(&["e4", "d5", "exd5"]));
    let occupied = key.occupied();
    let mut count = 0;
    for index in 0..64u8 {
        let square = Square::new(index).unwrap();
        assert_eq!(occupied.contains(square), key.piece_at(square).is_some());
        if occupied.contains(square) {
            count += 1;
        }
    }
    assert_eq!(count, 31);
    assert!(occupied.contains(on("d5")));
    assert!(!occupied.contains(on("e4")));
    assert!(!occupied.contains(on("e2")));
    assert!(!occupied.contains(on("d7")));
}

#[test]
fn key_matches_the_same_position_only() {
    let key = PositionKey::of(&played(&["e4", "d5"]));
    assert!(key.matches(&played(&["e4", "d5"])));
    assert!(!key.matches(&Chess::default()));
    assert!(!key.matches(&played(&["e4"])));
    assert!(!key.matches(&played(&["e4", "d5", "Nf3"])));
    assert!(!key.matches(&played(&["e4", "d6"])));
}

#[test]
fn key_ignores_move_counters_and_en_passant_history() {
    let key = PositionKey::of(&played(&["e4", "d5"]));
    assert!(key.matches(&from_fen("rnbqkbnr/ppp1pppp/8/3p4/4P3/8/PPPP1PPP/RNBQKBNR w KQkq - 7 30")));
    let knights = PositionKey::of(&Chess::default());
    assert!(knights.matches(&played(&["Nf3", "Nf6", "Ng1", "Ng8"])));
}

#[test]
fn key_compares_the_side_to_move() {
    let key = PositionKey::of(&Chess::default());
    assert!(!key.matches(&from_fen("rnbqkbnr/pppppppp/8/8/8/8/PPPPPPPP/RNBQKBNR b KQkq - 0 1")));
}

#[test]
fn key_compares_the_castling_rights() {
    let key = PositionKey::of(&Chess::default());
    let rooks_moved = played(&["Nf3", "Nf6", "Rg1", "Rg8", "Rh1", "Rh8", "Ng1", "Ng8"]);
    assert!(!key.matches(&rooks_moved));
    assert!(!key.matches(&from_fen("rnbqkbnr/pppppppp/8/8/8/8/PPPPPPPP/RNBQKBNR w Qkq - 0 1")));
    let moved = PositionKey::of(&rooks_moved);
    assert!(moved.castling_rights().same(&SquareSet::from_bits(0x0100_0000_0000_0001)));
    assert!(moved.matches(&from_fen("rnbqkbnr/pppppppp/8/8/8/8/PPPPPPPP/RNBQKBNR w Qq - 0 1")));
}

#[test]
fn role_from_number_counts_from_the_pawn() {
    assert_eq!(Role::from_number(0), None);
    assert_eq!(Role::from_number(1), Some(Role::Pawn));
    assert_eq!(Role::from_number(2), Some(Role::Knight));
    assert_eq!(Role::from_number(3), Some(Role::Bishop));
    assert_eq!(Role::from_number(4), Some(Role::Rook));
    assert_eq!(Role::from_number(5), Some(Role::Queen));
    assert_eq!(Role::from_number(6), Some(Role::King));
    assert_eq!(Role::from_number(7), None);
}

#[test]
fn color_from_white_names_the_side() {
    assert_eq!(Color::from_white(true), Color::White);
    assert_eq!(Color::from_white(false), Color::Black);
}
