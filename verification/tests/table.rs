use kaiser_db::{compute_column_widths, rect_capacity_after, TableModel};

fn row(cells: &[&str]) -> Vec<String> {
    cells.iter().map(|c| c.to_string()).collect()
}

fn sample() -> Vec<Vec<String>> {
    vec![
        row(&["id", "name", "email"]),
        row(&["1", "alice", "alice@example.com"]),
        row(&["2", "bob", "bob@example.com"]),
        row(&["3", "carol", "carol@example.com"]),
        row(&["4", "dave", "dave@example.com"]),
    ]
}

#[test]
fn column_widths_of_the_sample_table() {
    // "alice@example.com" has 17 characters: 17 * 14 + 20 = 258.
    assert_eq!(compute_column_widths(&sample()), vec![120, 120, 258]);
}

#[test]
fn first_column_uses_narrower_characters() {
    // 10 characters: 10 * 12 + 20 = 140 in the first column, 10 * 14 + 20 = 160 elsewhere.
    let t = vec![row(&["abcdefghij", "abcdefghij"])];
    assert_eq!(compute_column_widths(&t), vec![140, 160]);
}

#[test]
fn column_widths_count_characters_not_bytes() {
    // Nine two-byte characters: 9 * 14 + 20 = 146.
    let t = vec![row(&["x", "ééééééééé"])];
    assert_eq!(compute_column_widths(&t), vec![120, 146]);
}

#[test]
fn long_cells_are_capped_at_the_widest_column() {
    let long = "x".repeat(100);
    let t = vec![row(&["a", long.as_str()]), row(&[long.as_str(), "b"])];
    assert_eq!(compute_column_widths(&t), vec![720, 720]);
    // 50 characters in the first column: 50 * 12 + 20 = 620, still under the cap.
    let fifty = "y".repeat(50);
    assert_eq!(compute_column_widths(&vec![row(&[fifty.as_str()])]), vec![620]);
    // 59 characters: 59 * 12 + 20 = 728, capped.
    let fifty_nine = "z".repeat(59);
    assert_eq!(compute_column_widths(&vec![row(&[fifty_nine.as_str()])]), vec![720]);
}

#[test]
fn empty_tables_have_one_column() {
    assert_eq!(compute_column_widths(&vec![]), vec![120]);
    assert_eq!(compute_column_widths(&vec![vec![]]), vec![120]);
}

#[test]
fn every_column_fits_its_cells() {
    let t = sample();
    let widths = compute_column_widths(&t);
    for r in &t {
        for (j, cell) in r.iter().enumerate() {
            let cw = if j == 0 { 12 } else { 14 };
            let wanted = (cell.chars().count() as u32 * cw + 20).min(720);
            assert!(widths[j] >= wanted);
            assert!(widths[j] >= 120 && widths[j] <= 720);
        }
    }
}

#[test]
fn table_model_sizes() {
    let m = TableModel::new(sample());
    assert_eq!(m.widths(), &vec![120, 120, 258]);
    assert_eq!(m.data(), &sample());
    assert_eq!(m.content_width(), 498);
    assert_eq!(m.content_height(), 5 * 34);
    assert_eq!(TableModel::new(vec![]).content_height(), 34);
}

#[test]
fn table_model_set_table_data_recomputes_widths() {
    let mut m = TableModel::new(sample());
    m.set_table_data(vec![row(&["Rows affected: 3"])]);
    assert_eq!(m.widths(), &vec![16 * 12 + 20]);
    assert_eq!(m.data().len(), 1);
}

#[test]
fn cells_are_placed_row_by_row() {
    let m = TableModel::new(sample());
    assert_eq!(m.text_cell_position(0), (0, 0));
    assert_eq!(m.text_cell_position(2), (0, 2));
    assert_eq!(m.text_cell_position(3), (1, 0));
    assert_eq!(m.text_cell_position(7), (2, 1));
    assert_eq!(m.column_offset(0), 0);
    assert_eq!(m.column_offset(1), 120);
    assert_eq!(m.column_offset(2), 240);
    assert_eq!(m.column_offset(3), 498);
    assert_eq!(m.column_offset(100), 498);
}

#[test]
fn cell_text_boxes() {
    let m = TableModel::new(sample());
    assert_eq!(m.cell_text_bounds(0), (100, 22));
    assert_eq!(m.cell_text_bounds(5), (238, 22));
    assert_eq!(m.cell_text_bounds(14), (238, 22));
}

#[test]
fn rect_buffer_grows_only_when_needed() {
    assert_eq!(rect_capacity_after(5, 3), None);
    assert_eq!(rect_capacity_after(5, 5), None);
    assert_eq!(rect_capacity_after(5, 9), Some(9));
    assert_eq!(rect_capacity_after(0, 1), Some(1));
    assert_eq!(rect_capacity_after(0, 0), None);
}
