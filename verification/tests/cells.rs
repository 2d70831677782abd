use kaiser_db::{format_cell, i64_text, join_row, result_table, u64_text, CellValue, QueryOutcome};

fn s(text: &str) -> String {
    text.to_string()
}

#[test]
fn null_cell_shows_null() {
    assert_eq!(format_cell(&CellValue::Null), "NULL");
}

#[test]
fn text_cell_shows_its_text() {
    assert_eq!(format_cell(&CellValue::Text(s("alice@example.com"))), "alice@example.com");
    assert_eq!(format_cell(&CellValue::Text(s(""))), "");
}

#[test]
fn integer_cells_show_decimal() {
    assert_eq!(format_cell(&CellValue::Int(0)), "0");
    assert_eq!(format_cell(&CellValue::Int(7)), "7");
    assert_eq!(format_cell(&CellValue::Int(-42)), "-42");
    assert_eq!(format_cell(&CellValue::Int(1234567890)), "1234567890");
    assert_eq!(format_cell(&CellValue::Int(i64::MAX)), "9223372036854775807");
    assert_eq!(format_cell(&CellValue::Int(i64::MIN)), "-9223372036854775808");
}

#[test]
fn integer_text_matches_std() {
    for n in [-1000i64, -99, -10, -9, -1, 0, 1, 9, 10, 99, 100, 65535, 1 << 40] {
        assert_eq!(i64_text(n), n.to_string());
    }
    for n in [0u64, 1, 10, 19, 20, 1_000_000, u64::MAX] {
        assert_eq!(u64_text(n), n.to_string());
    }
}

#[test]
fn bool_cells_show_true_or_false() {
    assert_eq!(format_cell(&CellValue::Bool(true)), "true");
    assert_eq!(format_cell(&CellValue::Bool(false)), "false");
}

#[test]
fn byte_cells_show_lower_hex() {
    assert_eq!(format_cell(&CellValue::Bytes(vec![])), "[]");
    assert_eq!(format_cell(&CellValue::Bytes(vec![0x00])), "00");
    assert_eq!(format_cell(&CellValue::Bytes(vec![0x00, 0xab, 0x0f, 0xff, 0x10])), "00ab0fff10");
}

#[test]
fn distinct_byte_cells_show_distinct_text() {
    let samples: Vec<Vec<u8>> = vec![vec![], vec![0], vec![0, 0], vec![1], vec![16], vec![0x01, 0x00], vec![0x10]];
    for a in &samples {
        for b in &samples {
            let ta = format_cell(&CellValue::Bytes(a.clone()));
            let tb = format_cell(&CellValue::Bytes(b.clone()));
            assert_eq!(ta == tb, a == b);
        }
    }
}

#[test]
fn distinct_integer_cells_show_distinct_text() {
    let samples = [i64::MIN, -10, -1, 0, 1, 10, 100, i64::MAX];
    for a in samples {
        for b in samples {
            assert_eq!(i64_text(a) == i64_text(b), a == b);
        }
    }
}

#[test]
fn unsupported_cells_name_their_type() {
    assert_eq!(format_cell(&CellValue::Unsupported(Some(s("tsvector")))), "<unsupported:tsvector>");
    assert_eq!(format_cell(&CellValue::Unsupported(None)), "<unsupported:unknown>");
}

#[test]
fn empty_result_says_no_rows() {
    let t = result_table(&QueryOutcome::Rows(vec![s("id")], vec![]));
    assert_eq!(t, vec![vec![s("Query returned 0 rows.")]]);
}

#[test]
fn result_rows_follow_the_column_names() {
    let outcome = QueryOutcome::Rows(
        vec![s("id"), s("name"), s("avatar")],
        vec![
            vec![CellValue::Int(1), CellValue::Text(s("alice")), CellValue::Bytes(vec![0xca, 0xfe])],
            vec![CellValue::Int(2), CellValue::Null, CellValue::Bytes(vec![])],
        ],
    );
    let t = result_table(&outcome);
    assert_eq!(
        t,
        vec![
            vec![s("id"), s("name"), s("avatar")],
            vec![s("1"), s("alice"), s("cafe")],
            vec![s("2"), s("NULL"), s("[]")],
        ]
    );
}

#[test]
fn executed_statement_reports_rows_affected() {
    assert_eq!(result_table(&QueryOutcome::Executed(3)), vec![vec![s("Rows affected: 3")]]);
    assert_eq!(result_table(&QueryOutcome::Executed(0)), vec![vec![s("Rows affected: 0")]]);
}

#[test]
fn failed_query_reports_the_error() {
    let t = result_table(&QueryOutcome::Failed(s("relation \"kaiser\" does not exist")));
    assert_eq!(t, vec![vec![s("Query failed: relation \"kaiser\" does not exist")]]);
}

#[test]
fn row_lines_are_joined_by_bars() {
    assert_eq!(join_row(&vec![s("id"), s("name"), s("email")]), "id | name | email");
    assert_eq!(join_row(&vec![s("only")]), "only");
    assert_eq!(join_row(&vec![]), "");
    assert_eq!(join_row(&vec![s(""), s("")]), " | ");
}
