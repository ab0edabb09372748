use first_move::piece::{Color, Role};
use first_move::replay::PgnSearcher;
use first_move::report::{count_table, jstargets, output, piece_char, sorted_targets, stats_table};
use first_move::square::Square;
use first_move::tally::Tally;
use shakmaty::san::{San, SanPlus};
use shakmaty::{Chess, Position};

fn s(name: &str) -> Square {
    let bytes = name.as_bytes();
    Square::from_coords(bytes[0] - b'a', bytes[1] - b'1').unwrap()
}

fn scanned(target: &[&str], games: &[&[&str]]) -> PgnSearcher {
    let mut pos = Chess::default();
    for text in target {
        let m = San::from_ascii(text.as_bytes()).unwrap().to_move(&pos).unwrap();
        pos.play_unchecked(&m);
    }
    let mut searcher = PgnSearcher::new(pos);
    for game in games {
        for text in game.iter() {
            searcher.san(&SanPlus::from_ascii(text.as_bytes()).unwrap()).unwrap();
        }
        searcher.end_game();
    }
    searcher
}

fn bumped(tally: &mut Tally, to: Option<Square>, times: u32) {
    for _ in 0..times {
        tally.bump(to);
    }
}

#[test]
fn sorted_targets_of_an_empty_tally() {
    assert!(sorted_targets(&Tally::new()).is_empty());
}

#[test]
fn sorted_targets_puts_the_most_frequent_first() {
    let mut tally = Tally::new();
    bumped(&mut tally, Some(s("e4")), 2);
    bumped(&mut tally, Some(s("e3")), 5);
    bumped(&mut tally, None, 3);
    bumped(&mut tally, Some(s("e2")), 1);
    assert_eq!(
        sorted_targets(&tally),
        vec![(Some(s("e3")), 5), (None, 3), (Some(s("e4")), 2), (Some(s("e2")), 1)]
    );
}

#[test]
fn sorted_targets_breaks_ties_by_the_order_of_outcomes() {
    let mut tally = Tally::new();
    bumped(&mut tally, None, 2);
    bumped(&mut tally, Some(s("h8")), 2);
    bumped(&mut tally, Some(s("a1")), 2);
    bumped(&mut tally, Some(s("e4")), 2);
    bumped(&mut tally, Some(s("d4")), 3);
    assert_eq!(
        sorted_targets(&tally),
        vec![
            (Some(s("d4")), 3),
            (Some(s("a1")), 2),
            (Some(s("e4")), 2),
            (Some(s("h8")), 2),
            (None, 2)
        ]
    );
}

#[test]
fn sorted_targets_does_not_depend_on_the_order_of_counting() {
    let mut one = Tally::new();
    let mut other = Tally::new();
    bumped(&mut one, Some(s("e4")), 1);
    bumped(&mut one, None, 1);
    bumped(&mut one, Some(s("e3")), 1);
    bumped(&mut one, Some(s("e4")), 1);
    bumped(&mut other, Some(s("e3")), 1);
    bumped(&mut other, Some(s("e4")), 2);
    bumped(&mut other, None, 1);
    assert_eq!(sorted_targets(&one), sorted_targets(&other));
    assert_eq!(sorted_targets(&one), vec![(Some(s("e4")), 2), (Some(s("e3")), 1), (None, 1)]);
}

#[test]
fn jstargets_lists_at_most_three() {
    assert_eq!(jstargets(&vec![]), "[]");
    assert_eq!(jstargets(&vec![(Some(s("e4")), 9)]), "['e4']");
    assert_eq!(jstargets(&vec![(None, 9), (Some(s("a1")), 1)]), "[null,'a1']");
    assert_eq!(
        jstargets(&vec![(Some(s("e4")), 9), (None, 3), (Some(s("h8")), 3)]),
        "['e4',null,'h8']"
    );
    assert_eq!(
        jstargets(&vec![(Some(s("e4")), 9), (Some(s("e3")), 3), (Some(s("d3")), 3), (None, 1)]),
        "['e4','e3','d3']"
    );
}

#[test]
fn count_table_labels_each_outcome() {
    let rows = count_table(
        &vec![(Some(s("e4")), 7), (Some(s("e2")), 2), (None, 1), (Some(s("a8")), 1)],
        s("e2"),
    );
    let shown: Vec<(String, u32)> = rows.into_iter().map(|row| (row.label, row.count)).collect();
    assert_eq!(
        shown,
        vec![
            ("e4".to_string(), 7),
            ("Captured".to_string(), 2),
            ("Unmoved".to_string(), 1),
            ("a8".to_string(), 1)
        ]
    );
    assert!(count_table(&vec![], s("e2")).is_empty());
}

#[test]
fn piece_char_gives_the_figurines() {
    assert_eq!(piece_char(Color::White, Role::King), "\u{2654}");
    assert_eq!(piece_char(Color::White, Role::Queen), "\u{2655}");
    assert_eq!(piece_char(Color::White, Role::Rook), "\u{2656}");
    assert_eq!(piece_char(Color::White, Role::Bishop), "\u{2657}");
    assert_eq!(piece_char(Color::White, Role::Knight), "\u{2658}");
    assert_eq!(piece_char(Color::White, Role::Pawn), "\u{2659}");
    assert_eq!(piece_char(Color::Black, Role::King), "\u{265a}");
    assert_eq!(piece_char(Color::Black, Role::Queen), "\u{265b}");
    assert_eq!(piece_char(Color::Black, Role::Rook), "\u{265c}");
    assert_eq!(piece_char(Color::Black, Role::Bishop), "\u{265d}");
    assert_eq!(piece_char(Color::Black, Role::Knight), "\u{265e}");
    assert_eq!(piece_char(Color::Black, Role::Pawn), "\u{265f}");
}

#[test]
fn stats_table_describes_each_square() {
    let searcher = scanned(
        &["e4"],
        &[&["e4", "e5", "Nf3"], &["e4", "e5", "Nf3"], &["e4", "c5"], &["e4", "e5", "Bc4", "Nf6"]],
    );
    let table = stats_table(&vec![s("e7"), s("g1")], searcher.counts(), searcher.target());
    assert_eq!(table.len(), 2);
    assert_eq!(table[0].square, s("e7"));
    assert_eq!(table[0].piece.color, Color::Black);
    assert_eq!(table[0].piece.role, Role::Pawn);
    assert_eq!(table[0].heading, "\u{265f}e7");
    assert_eq!(table[0].targets, vec![(Some(s("e5")), 3), (None, 1)]);
    assert_eq!(table[0].arrows, "['e5',null]");
    assert_eq!(table[0].rows.len(), 2);
    assert_eq!(table[0].rows[0].label, "e5");
    assert_eq!(table[0].rows[0].count, 3);
    assert_eq!(table[0].rows[1].label, "Unmoved");
    assert_eq!(table[0].rows[1].count, 1);
    assert_eq!(table[1].heading, "\u{2658}g1");
    assert_eq!(table[1].targets, vec![(Some(s("f3")), 2), (None, 2)]);
    assert_eq!(table[1].arrows, "['f3',null]");
}

#[test]
fn output_partitions_by_side_and_pawns() {
    let searcher = scanned(&["e4", "d5"], &[&["e4", "d5", "exd5", "Qxd5"]]);
    let report = output(searcher.counts(), searcher.target());
    let names = |part: &Vec<first_move::report::PieceStats>| -> Vec<String> {
        part.iter().map(|stats| stats.square.name()).collect()
    };
    assert_eq!(names(&report.white_pawns), vec!["a2", "b2", "c2", "d2", "f2", "g2", "h2", "e4"]);
    assert_eq!(names(&report.white_pieces), vec!["a1", "b1", "c1", "d1", "e1", "f1", "g1", "h1"]);
    assert_eq!(names(&report.black_pawns), vec!["d5", "a7", "b7", "c7", "e7", "f7", "g7", "h7"]);
    assert_eq!(names(&report.black_pieces), vec!["a8", "b8", "c8", "d8", "e8", "f8", "g8", "h8"]);
    let e4 = &report.white_pawns[7];
    assert_eq!(e4.heading, "\u{2659}e4");
    assert_eq!(e4.targets, vec![(Some(s("d5")), 1)]);
    assert_eq!(e4.rows[0].label, "d5");
    let d5 = &report.black_pawns[0];
    assert_eq!(d5.targets, vec![(Some(s("d5")), 1)]);
    assert_eq!(d5.rows[0].label, "Captured");
    assert_eq!(d5.arrows, "['d5']");
    let queen = &report.black_pieces[3];
    assert_eq!(queen.heading, "\u{265b}d8");
    assert_eq!(queen.targets, vec![(Some(s("d5")), 1)]);
    let king = &report.white_pieces[4];
    assert_eq!(king.heading, "\u{2654}e1");
    assert_eq!(king.targets, vec![(None, 1)]);
    assert_eq!(king.arrows, "[null]");
    assert_eq!(king.rows[0].label, "Unmoved");
}

#[test]
fn output_of_a_scan_without_match_has_every_piece_and_no_outcome() {
    let searcher = scanned(&["d4"], &[&["e4", "e5"], &["c4"]]);
    let report = output(searcher.counts(), searcher.target());
    assert_eq!(report.white_pawns.len(), 8);
    assert_eq!(report.white_pieces.len(), 8);
    assert_eq!(report.black_pawns.len(), 8);
    assert_eq!(report.black_pieces.len(), 8);
    for part in [&report.white_pawns, &report.white_pieces, &report.black_pawns, &report.black_pieces]
    {
        for stats in part.iter() {
            assert!(stats.targets.is_empty());
            assert!(stats.rows.is_empty());
            assert_eq!(stats.arrows, "[]");
        }
    }
}

#[test]
fn output_is_the_same_for_the_same_corpus() {
    let games: [&[&str]; 3] = [&["e4", "e5", "Nf3"], &["e4", "c5", "Nf3"], &["e4", "e5", "Bc4"]];
    let first = scanned(&["e4"], &games);
    let second = scanned(&["e4"], &games);
    let a = output(first.counts(), first.target());
    let b = output(second.counts(), second.target());
    let flat = |report: &first_move::report::Report| -> Vec<(String, String, Vec<(String, u32)>)> {
        [&report.white_pawns, &report.white_pieces, &report.black_pawns, &report.black_pieces]
            .iter()
            .flat_map(|part| part.iter())
            .map(|stats| {
                (
                    stats.heading.clone(),
                    stats.arrows.clone(),
                    stats.rows.iter().map(|row| (row.label.clone(), row.count)).collect(),
                )
            })
            .collect()
    };
    assert_eq!(flat(&a), flat(&b));
    assert_eq!(flat(&a).len(), 32);
}
