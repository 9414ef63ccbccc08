use game_of_life::{get_cell_neighbourhood, neighbourhood_sum};

const NUMBERED: [[i32; 4]; 4] =
    [[11, 12, 13, 14], [21, 22, 23, 24], [31, 32, 33, 34], [41, 42, 43, 44]];

#[test]
fn corner_cells_have_three_neighbours() {
    assert_eq!(get_cell_neighbourhood(&NUMBERED, 0, 0), vec![12, 21, 22]);
    assert_eq!(get_cell_neighbourhood(&NUMBERED, 0, 3), vec![13, 23, 24]);
    assert_eq!(get_cell_neighbourhood(&NUMBERED, 3, 0), vec![31, 32, 42]);
    assert_eq!(get_cell_neighbourhood(&NUMBERED, 3, 3), vec![33, 34, 43]);
}

#[test]
fn border_cells_have_five_neighbours() {
    assert_eq!(get_cell_neighbourhood(&NUMBERED, 0, 1), vec![11, 13, 21, 22, 23]);
    assert_eq!(get_cell_neighbourhood(&NUMBERED, 3, 2), vec![32, 33, 34, 42, 44]);
    assert_eq!(get_cell_neighbourhood(&NUMBERED, 1, 0), vec![11, 12, 22, 31, 32]);
    assert_eq!(get_cell_neighbourhood(&NUMBERED, 2, 3), vec![23, 24, 33, 43, 44]);
}

#[test]
fn inner_cells_have_eight_neighbours() {
    assert_eq!(
        get_cell_neighbourhood(&NUMBERED, 1, 1),
        vec![11, 12, 13, 21, 23, 31, 32, 33]
    );
    assert_eq!(
        get_cell_neighbourhood(&NUMBERED, 2, 2),
        vec![22, 23, 24, 32, 34, 42, 43, 44]
    );
}

#[test]
fn neighbour_counts_by_position_on_every_cell() {
    let table = [[0; 6]; 5];
    for row in 0..5 {
        for column in 0..6 {
            let on_row_border = row == 0 || row == 4;
            let on_column_border = column == 0 || column == 5;
            let expected = if on_row_border && on_column_border {
                3
            } else if on_row_border || on_column_border {
                5
            } else {
                8
            };
            assert_eq!(get_cell_neighbourhood(&table, row, column).len(), expected);
        }
    }
}

#[test]
fn two_by_two_table_is_all_corners() {
    let table = [[1, 2], [3, 4]];
    assert_eq!(get_cell_neighbourhood(&table, 0, 0), vec![2, 3, 4]);
    assert_eq!(get_cell_neighbourhood(&table, 0, 1), vec![1, 3, 4]);
    assert_eq!(get_cell_neighbourhood(&table, 1, 0), vec![1, 2, 4]);
    assert_eq!(get_cell_neighbourhood(&table, 1, 1), vec![1, 2, 3]);
}

#[test]
fn narrow_tables_have_fewer_neighbours() {
    let row = [[1, 2, 3]];
    assert_eq!(get_cell_neighbourhood(&row, 0, 0), vec![2]);
    assert_eq!(get_cell_neighbourhood(&row, 0, 1), vec![1, 3]);
    assert_eq!(get_cell_neighbourhood(&row, 0, 2), vec![2]);
    let column = [[1], [2], [3]];
    assert_eq!(get_cell_neighbourhood(&column, 1, 0), vec![1, 3]);
    let single = [[7]];
    assert_eq!(get_cell_neighbourhood(&single, 0, 0), Vec::<i32>::new());
}

#[test]
fn neighbourhood_leaves_the_table_alone() {
    let mut table = [[1, 0, 1], [0, 1, 0], [1, 1, 1]];
    let cells = get_cell_neighbourhood(&mut table, 1, 1);
    assert_eq!(cells, vec![1, 0, 1, 0, 0, 1, 1, 1]);
    assert_eq!(table, [[1, 0, 1], [0, 1, 0], [1, 1, 1]]);
}

#[test]
fn sum_counts_the_live_cells() {
    assert_eq!(neighbourhood_sum(&vec![]), 0);
    assert_eq!(neighbourhood_sum(&vec![0, 0, 0]), 0);
    assert_eq!(neighbourhood_sum(&vec![1, 0, 1, 1, 0]), 3);
    assert_eq!(neighbourhood_sum(&vec![1; 8]), 8);
}
