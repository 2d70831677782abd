//! Table logic of a small PostgreSQL query window: how result cells are
//! rendered as text, how result tables are assembled, how wide each column is
//! drawn, and how key presses edit the query.
mod cell;
mod editor;
mod table;
mod text;

pub use cell::{
    bar_joined, cell_text, cells_view, format_cell, join_row, lemma_byte_cells_lossless, lemma_rows_outcome_table, lemma_int_cell_reads_back, lemma_byte_cell_reads_back, lemma_fixed_cell_texts, lemma_single_cell_outcomes, lemma_bar_join_steps,
    outcome_table, result_table, single_cell, strings_view, table_view, CellValue, QueryOutcome,
};
pub use editor::{
    apply_key, edited_query, is_run_shortcut, key_action, lemma_actions_leave_query, lemma_characters_type_without_super, lemma_named_keys, lemma_super_r_runs_the_query,
    lemma_backspace_undoes_one_character, lemma_opposite_arrows_cancel, Key, KeyAction,
    ARROW_SCROLL_X, ARROW_SCROLL_Y,
};
pub use table::{
    capped_cell_width, cell_estimate, char_width, lemma_column_width_attained, lemma_column_count, lemma_columns_side_by_side, lemma_width_sum_is_sum, column_count, column_width, column_width_over,
    compute_column_widths, lemma_cells_fit_columns, lemma_column_width_bounds, lemma_column_width_grows,
    rect_capacity_after, rows_fit, table_widths, width_sum, TableModel, CELL_PADDING_X, CELL_PADDING_Y,
    MAX_COLUMN_WIDTH, MIN_CELL_TEXT_SIZE, MIN_COLUMN_WIDTH, ROW_HEIGHT,
};
pub use text::{
    decimal_digit, digit_value, digits_value, hex_value, is_lower_hex_char, lemma_hex_text_reads_back, is_decimal_char, lemma_int_text_reads_back, hex_digit, hex_string, hex_text, i64_text,
    int_text, lemma_hex_text_injective, lemma_int_text_injective, lemma_nat_text_reads_back,
    nat_text, push_decimal, u64_text,
};
