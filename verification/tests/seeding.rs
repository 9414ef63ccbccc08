use game_of_life::seeding::{DRAW_ALIVE, DRAW_MAX, DRAW_MIN};
use game_of_life::{initialize_table, is_valid_table, seed_state, ALIVE, COLUMNS, DEAD, ROWS};

#[test]
fn one_draw_in_ten_gives_life() {
    assert_eq!(DRAW_MIN, 0);
    assert_eq!(DRAW_MAX, 9);
    assert_eq!(DRAW_ALIVE, 0);
    let mut alive = 0;
    for drawn in DRAW_MIN..=DRAW_MAX {
        if seed_state(drawn) == ALIVE {
            alive += 1;
        } else {
            assert_eq!(seed_state(drawn), DEAD);
        }
    }
    assert_eq!(alive, 1);
    assert_eq!(seed_state(0), ALIVE);
    assert_eq!(seed_state(1), DEAD);
    assert_eq!(seed_state(9), DEAD);
}

#[test]
fn seeded_table_holds_only_cell_states() {
    let mut table = [[7; COLUMNS]; ROWS];
    initialize_table(&mut table);
    assert!(is_valid_table(&table));
}

#[test]
fn seeded_table_holds_both_states() {
    let mut table = [[1; COLUMNS]; ROWS];
    initialize_table(&mut table);
    let alive: usize = table
        .iter()
        .map(|row| row.iter().filter(|cell| **cell == ALIVE).count())
        .sum();
    assert!(alive > 0);
    assert!(alive < ROWS * COLUMNS);
}

#[test]
fn seeding_differs_from_one_call_to_the_next() {
    let mut first = [[0; COLUMNS]; ROWS];
    let mut second = [[0; COLUMNS]; ROWS];
    initialize_table(&mut first);
    initialize_table(&mut second);
    assert_ne!(first, second);
}

#[test]
fn reference_table_is_twenty_by_eighty() {
    assert_eq!(ROWS, 20);
    assert_eq!(COLUMNS, 80);
}
