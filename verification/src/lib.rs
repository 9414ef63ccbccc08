//! Conway's Game of Life on a bounded rectangular table without wraparound.
//!
//! A table is an array of `R` rows, each an array of `C` cells, and every cell
//! is [`DEAD`] or [`ALIVE`]. Contracts speak of a table through [`grid::rows_of`],
//! its rows as a sequence of sequences of cell states.

pub mod driver;
pub mod generation;
pub mod grid;
pub mod neighbourhood;
pub mod render;
pub mod seeding;

pub use driver::{Action, Driver, Phase, FRAME_DELAY_MS, GENERATIONS};
pub use generation::{advance_generation, advance_generations, next_cell_state};
pub use grid::{is_valid_table, ALIVE, COLUMNS, DEAD, ROWS};
pub use render::{cell_glyph, render_row, render_table, DEAD_GLYPH, LIVE_GLYPH, SEPARATOR};
pub use seeding::{initialize_table, seed_state};
pub use neighbourhood::{get_cell_neighbourhood, neighbourhood_sum};
