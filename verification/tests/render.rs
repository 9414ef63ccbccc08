use game_of_life::{cell_glyph, render_row, render_table, DEAD_GLYPH, LIVE_GLYPH, SEPARATOR};

#[test]
fn glyphs_are_a_filled_square_and_a_blank() {
    assert_eq!(LIVE_GLYPH, '\u{25A0}');
    assert_eq!(DEAD_GLYPH, ' ');
    assert_eq!(SEPARATOR, ' ');
    assert_eq!(cell_glyph(1), '\u{25A0}');
    assert_eq!(cell_glyph(0), ' ');
}

#[test]
fn row_is_drawn_with_blanks_between_cells() {
    assert_eq!(render_row(&[1, 0, 1]), "\u{25A0}   \u{25A0}");
    assert_eq!(render_row(&[0, 1, 1, 0]), "  \u{25A0} \u{25A0}  ");
    assert_eq!(render_row(&[0, 0]), "   ");
}

#[test]
fn row_of_one_cell_has_no_separator() {
    assert_eq!(render_row(&[1]), "\u{25A0}");
    assert_eq!(render_row(&[0]), " ");
}

#[test]
fn row_without_cells_is_an_empty_line() {
    let row: [i32; 0] = [];
    assert_eq!(render_row(&row), "");
}

#[test]
fn row_of_eighty_cells_has_a_hundred_and_fifty_nine_characters() {
    let line = render_row(&[1; 80]);
    assert_eq!(line.chars().count(), 159);
    assert_eq!(line.chars().filter(|ch| *ch == '\u{25A0}').count(), 80);
}

#[test]
fn table_is_drawn_row_by_row() {
    let lines = render_table(&[[0, 1, 0], [1, 1, 1]]);
    assert_eq!(lines, vec!["  \u{25A0}  ".to_string(), "\u{25A0} \u{25A0} \u{25A0}".to_string()]);
}

#[test]
fn table_without_rows_has_no_lines() {
    let table: [[i32; 3]; 0] = [];
    assert!(render_table(&table).is_empty());
}
