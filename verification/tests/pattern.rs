use boardgames::cards::Card;
use boardgames::pattern::{format_bitmap, reverse, shift_bitmap, Pattern};

fn cells(p: &Pattern) -> Vec<usize> {
    (0..30).filter(|&i| p.get(i)).collect()
}

fn pattern_of(cells: &[usize]) -> Pattern {
    let mut p = Pattern::new();
    for &c in cells {
        p.set(c, true);
    }
    p
}

#[test]
fn new_pattern_is_empty() {
    assert_eq!(cells(&Pattern::new()), Vec::<usize>::new());
}

#[test]
fn set_returns_the_previous_value_and_changes_one_cell() {
    let mut p = Pattern::new();
    assert!(!p.set(7, true));
    assert!(p.set(7, true));
    assert!(!p.set(24, true));
    assert_eq!(cells(&p), vec![7, 24]);
    assert!(p.set(7, false));
    assert!(!p.set(3, false));
    assert_eq!(cells(&p), vec![24]);
}

#[test]
fn get_is_false_off_the_grid() {
    let p = pattern_of(&[0, 24]);
    assert!(p.get(0));
    assert!(p.get(24));
    assert!(!p.get(25));
    assert!(!p.get(usize::MAX));
}

#[test]
fn column_pattern_anchored_at_the_centre_stays_in_place() {
    let p = pattern_of(&[2, 22]);
    assert_eq!(cells(&shift_bitmap(&p, 12)), vec![2, 22]);
}

#[test]
fn shift_moves_rows_and_columns() {
    let boar = Card::Boar.get_moves();
    assert_eq!(cells(&boar), vec![7, 11, 13]);
    assert_eq!(cells(&shift_bitmap(&boar, 12)), vec![7, 11, 13]);
    assert_eq!(cells(&shift_bitmap(&boar, 18)), vec![13, 17, 19]);
    assert_eq!(cells(&shift_bitmap(&boar, 6)), vec![1, 5, 7]);
}

#[test]
fn shift_drops_what_leaves_the_grid() {
    let boar = Card::Boar.get_moves();
    // from the top left corner only the step to the right stays
    assert_eq!(cells(&shift_bitmap(&boar, 0)), vec![1]);
    // from the right edge the step to the right does not wrap to the next row
    assert_eq!(cells(&shift_bitmap(&boar, 9)), vec![4, 8]);
    // from the left edge the step to the left does not wrap to the row above
    assert_eq!(cells(&shift_bitmap(&boar, 10)), vec![5, 11]);
    let crab = Card::Crab.get_moves();
    assert_eq!(cells(&crab), vec![7, 10, 14]);
    assert_eq!(cells(&shift_bitmap(&crab, 13)), vec![8, 11]);
    assert_eq!(cells(&shift_bitmap(&crab, 24)), vec![19, 22]);
}

#[test]
fn shift_to_a_place_off_the_grid() {
    let tiger = Card::Tiger.get_moves();
    assert_eq!(cells(&tiger), vec![2, 17]);
    // two rows below the grid: the jump of two rows lands on the bottom row
    assert_eq!(cells(&shift_bitmap(&tiger, 32)), vec![22]);
    assert_eq!(cells(&shift_bitmap(&tiger, 37)), Vec::<usize>::new());
    assert_eq!(cells(&shift_bitmap(&tiger, usize::MAX)), Vec::<usize>::new());
}

#[test]
fn reverse_turns_by_half_a_turn() {
    let tiger = Card::Tiger.get_moves();
    assert_eq!(cells(&reverse(&tiger)), vec![7, 22]);
    let p = pattern_of(&[0, 1, 12, 20]);
    assert_eq!(cells(&reverse(&p)), vec![4, 12, 23, 24]);
}

#[test]
fn reverse_twice_is_the_identity() {
    for card in boardgames::cards::deck() {
        let p = card.get_moves();
        assert_eq!(cells(&reverse(&reverse(&p))), cells(&p));
    }
    let p = pattern_of(&[0, 3, 5, 24]);
    assert_eq!(cells(&reverse(&reverse(&p))), vec![0, 3, 5, 24]);
}

#[test]
fn shifted_cells_keep_their_row_distance() {
    for card in boardgames::cards::deck() {
        let p = card.get_moves();
        for pos in 0..25usize {
            let moved = shift_bitmap(&p, pos);
            for i in cells(&moved) {
                let source = i + 12 - pos;
                assert!(p.get(source));
                assert_eq!(i as i64 / 5 - pos as i64 / 5, source as i64 / 5 - 2);
                assert_eq!(i as i64 % 5 - pos as i64 % 5, source as i64 % 5 - 2);
            }
            let kept = cells(&p)
                .into_iter()
                .filter(|s| {
                    let r = (s / 5 + pos / 5) as i64 - 2;
                    let c = (s % 5 + pos % 5) as i64 - 2;
                    (0..5).contains(&r) && (0..5).contains(&c)
                })
                .count();
            assert_eq!(cells(&moved).len(), kept);
        }
    }
}

#[test]
fn picture_of_a_pattern() {
    let p = pattern_of(&[2, 17]);
    assert_eq!(
        format_bitmap(&p),
        "0 0 1 0 0\n0 0 0 0 0\n0 0 0 0 0\n0 0 1 0 0\n0 0 0 0 0\n"
    );
}
