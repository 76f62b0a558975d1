use tstris::game::bag::{draw_piece_type, fill_bag, shuffled_bag, BAG_SIZE};
use tstris::game::piece::PieceType;
use tstris::game::piece::PieceType::{I, J, L, O, S, T, Z};
use tstris::game::state::Game;
use tstris::game::validate::has_distinct_types;

const SORTED: [PieceType; 7] = [
    PieceType::I,
    PieceType::O,
    PieceType::T,
    PieceType::S,
    PieceType::Z,
    PieceType::J,
    PieceType::L,
];

fn index_of(piece_type: PieceType) -> usize {
    SORTED.iter().position(|&t| t == piece_type).expect("every type is listed")
}

fn holds_each_type_once(bag: &[PieceType]) -> bool {
    let mut seen = [0usize; 7];
    for &piece_type in bag {
        seen[index_of(piece_type)] += 1;
    }
    bag.len() == 7 && seen.iter().all(|&count| count == 1)
}

#[test]
fn bag_size_is_seven() {
    assert_eq!(BAG_SIZE, 7);
}

#[test]
fn shuffle_with_own_indices_keeps_the_order() {
    assert_eq!(shuffled_bag([6, 5, 4, 3, 2, 1]), SORTED.to_vec());
}

#[test]
fn shuffle_with_zero_picks_rotates_the_bag() {
    assert_eq!(shuffled_bag([0, 0, 0, 0, 0, 0]), vec![O, T, S, Z, J, L, I]);
}

#[test]
fn shuffle_follows_the_picks_in_order() {
    // Exchange 6 with 2, then 5 with 5, 4 with 0, 3 with 1, 2 with 2, 1 with 0.
    assert_eq!(shuffled_bag([2, 5, 0, 1, 2, 0]), vec![S, Z, L, O, I, J, T]);
}

#[test]
fn shuffle_always_gives_each_type_once() {
    for a in 0..=6 {
        for b in 0..=5 {
            for c in 0..=4 {
                for d in 0..=3 {
                    for e in 0..=2 {
                        for f in 0..=1 {
                            let bag = shuffled_bag([a, b, c, d, e, f]);
                            assert!(holds_each_type_once(&bag));
                        }
                    }
                }
            }
        }
    }
}

#[test]
fn shuffles_with_different_picks_differ() {
    let mut seen = std::collections::HashSet::new();
    for a in 0..=6 {
        for b in 0..=5 {
            for c in 0..=4 {
                for d in 0..=3 {
                    for e in 0..=2 {
                        for f in 0..=1 {
                            let bag = shuffled_bag([a, b, c, d, e, f]);
                            let order: Vec<usize> = bag.into_iter().map(index_of).collect();
                            seen.insert(order);
                        }
                    }
                }
            }
        }
    }
    // Each of the 7! orders comes from exactly one choice of picks.
    assert_eq!(seen.len(), 5040);
}

#[test]
fn fill_bag_gives_each_type_once() {
    for _ in 0..200 {
        let mut bag = vec![PieceType::I, PieceType::I];
        fill_bag(&mut bag);
        assert!(holds_each_type_once(&bag));
        assert!(has_distinct_types(&bag));
    }
}

#[test]
fn fill_bag_does_not_always_give_the_same_order() {
    let mut first = Vec::new();
    fill_bag(&mut first);
    let mut differs = false;
    for _ in 0..200 {
        let mut bag = Vec::new();
        fill_bag(&mut bag);
        if bag != first {
            differs = true;
        }
    }
    assert!(differs);
}

#[test]
fn fill_bag_does_not_always_keep_the_sorted_order() {
    let mut shuffled = false;
    for _ in 0..200 {
        let mut bag = Vec::new();
        fill_bag(&mut bag);
        if bag != SORTED.to_vec() {
            shuffled = true;
        }
    }
    assert!(shuffled);
}

#[test]
fn draw_takes_the_last_entry() {
    let mut bag = vec![PieceType::T, PieceType::Z, PieceType::O];
    assert_eq!(draw_piece_type(&mut bag), PieceType::O);
    assert_eq!(bag, vec![PieceType::T, PieceType::Z]);
    assert_eq!(draw_piece_type(&mut bag), PieceType::Z);
    assert_eq!(draw_piece_type(&mut bag), PieceType::T);
    assert!(bag.is_empty());
}

#[test]
fn draw_from_an_empty_bag_refills_it() {
    let mut bag = Vec::new();
    let first = draw_piece_type(&mut bag);
    assert_eq!(bag.len(), 6);
    assert!(!bag.contains(&first));
    let mut all = bag.clone();
    all.push(first);
    assert!(holds_each_type_once(&all));
}

#[test]
fn seven_draws_give_each_type_once() {
    let mut bag = Vec::new();
    for _ in 0..100 {
        let mut drawn = Vec::new();
        for _ in 0..7 {
            drawn.push(draw_piece_type(&mut bag));
        }
        assert!(holds_each_type_once(&drawn));
        assert!(bag.is_empty());
    }
}

#[test]
fn ten_thousand_draws_are_evenly_spread() {
    let mut bag = Vec::new();
    let mut counts = [0usize; 7];
    for _ in 0..10_000 {
        counts[index_of(draw_piece_type(&mut bag))] += 1;
    }
    for count in counts {
        // 10,000 draws are 1428 full bags and four more draws.
        assert!(count == 1428 || count == 1429);
        let share = count as f64 / 10_000.0;
        assert!((share - 1.0 / 7.0).abs() < 0.001);
    }
}

#[test]
fn every_prefix_of_a_run_of_draws_is_evenly_spread() {
    let mut bag = Vec::new();
    let mut counts = [0usize; 7];
    for n in 1..=2000usize {
        counts[index_of(draw_piece_type(&mut bag))] += 1;
        for count in counts {
            assert!(n / 7 <= count && count <= n / 7 + 1);
            if n % 7 == 0 {
                assert_eq!(count, n / 7);
            }
        }
        assert_eq!(bag.len(), (7 - n % 7) % 7);
    }
}

#[test]
fn a_type_comes_at_most_twice_in_seven_draws() {
    let mut bag = Vec::new();
    let mut drawn = Vec::new();
    for _ in 0..700 {
        drawn.push(draw_piece_type(&mut bag));
    }
    for window in drawn.windows(7) {
        let mut seen = [0usize; 7];
        for &piece_type in window {
            seen[index_of(piece_type)] += 1;
        }
        assert!(seen.iter().all(|&count| count <= 2));
    }
}

#[test]
fn new_games_do_not_always_start_with_the_same_piece() {
    let first = Game::new(0).next_pieces[0].piece_type;
    let mut differs = false;
    for _ in 0..200 {
        if Game::new(0).next_pieces[0].piece_type != first {
            differs = true;
        }
    }
    assert!(differs);
}

#[test]
fn distinct_types_are_told_from_repeats() {
    assert!(has_distinct_types(&Vec::new()));
    assert!(has_distinct_types(&vec![PieceType::I]));
    assert!(has_distinct_types(&SORTED.to_vec()));
    assert!(!has_distinct_types(&vec![PieceType::I, PieceType::O, PieceType::I]));
    assert!(!has_distinct_types(&vec![PieceType::L, PieceType::L]));
}
