//! Rendering of query result cells, and the table that a query outcome shows.
use vstd::prelude::*;
use crate::text::{digits_value, hex_value, is_decimal_char, is_lower_hex_char, lemma_hex_text_reads_back, lemma_int_text_reads_back, hex_string, hex_text, lemma_hex_text_injective, i64_text, int_text, nat_text, push_decimal};

verus! {

/// One decoded value of a result row.
///
/// The decoder tries the column's value as text first, then as the types whose
/// own crates write them (uuid, dates and times, decimals, JSON, floats: all
/// arrive here already written, as `Text`), then as integers, booleans and
/// bytes; a value that no decoder accepts is `Unsupported`, with the name of
/// the column's database type when the column exists.
pub enum CellValue {
    Null,
    Text(String),
    Int(i64),
    Bool(bool),
    Bytes(Vec<u8>),
    Unsupported(Option<String>),
}

/// What a cell shows.
pub open spec fn cell_text(v: &CellValue) -> Seq<char> {
    match v {
        CellValue::Null => "NULL"@,
        CellValue::Text(s) => s@,
        CellValue::Int(n) => int_text(*n as int),
        CellValue::Bool(b) => if *b { "true"@ } else { "false"@ },
        CellValue::Bytes(bytes) => if bytes@.len() == 0 { "[]"@ } else { hex_text(bytes@) },
        CellValue::Unsupported(name) => match name {
            Some(n) => "<unsupported:"@ + n@ + ">"@,
            None => "<unsupported:"@ + "unknown"@ + ">"@,
        },
    }
}

/// The text a cell shows: `NULL` for a null of any type, text as it is, integers
/// in decimal, booleans as `true`/`false`, bytes as lower-case hex (`[]` when
/// empty), and `<unsupported:TYPE>` for what could not be decoded.
pub fn format_cell(v: &CellValue) -> (s: String)
    ensures
        s@ == cell_text(v),
{
    match v {
        CellValue::Null => String::from_str("NULL"),
        CellValue::Text(t) => t.clone(),
        CellValue::Int(n) => i64_text(*n),
        CellValue::Bool(b) => if *b { String::from_str("true") } else { String::from_str("false") },
        CellValue::Bytes(bytes) => {
            if bytes.len() == 0 {
                String::from_str("[]")
            } else {
                hex_string(bytes)
            }
        },
        CellValue::Unsupported(name) => {
            let mut s = String::from_str("<unsupported:");
            match name {
                Some(n) => s.append(n.as_str()),
                None => s.append("unknown"),
            }
            s.append(">");
            s
        },
    }
}


/// What running a query came to.
pub enum QueryOutcome {
    /// The query returned rows: the column names, and the decoded values of each row.
    Rows(Vec<String>, Vec<Vec<CellValue>>),
    /// The query returned no rows to fetch but ran, and changed this many rows.
    Executed(u64),
    /// The query failed; the message is the database's error as it writes it.
    Failed(String),
}

/// The views of a row of strings.
pub open spec fn strings_view(row: Seq<String>) -> Seq<Seq<char>> {
    row.map_values(|s: String| s@)
}

/// The texts of a row of decoded values.
pub open spec fn cells_view(row: Seq<CellValue>) -> Seq<Seq<char>> {
    Seq::new(row.len(), |j: int| cell_text(&row[j]))
}

/// A table of a single cell.
pub open spec fn single_cell(text: Seq<char>) -> Seq<Seq<Seq<char>>> {
    seq![seq![text]]
}

/// The table that a query outcome shows: the column names over one line per
/// row; a single cell saying that no rows came back; a single cell with the
/// number of rows changed; or a single cell with the failure.
pub open spec fn outcome_table(outcome: &QueryOutcome) -> Seq<Seq<Seq<char>>> {
    match outcome {
        QueryOutcome::Rows(columns, rows) => if rows@.len() == 0 {
            single_cell("Query returned 0 rows."@)
        } else {
            seq![strings_view(columns@)] + Seq::new(rows@.len(), |i: int| cells_view(rows@[i]@))
        },
        QueryOutcome::Executed(n) => single_cell("Rows affected: "@ + nat_text(*n as nat)),
        QueryOutcome::Failed(message) => single_cell("Query failed: "@ + message@),
    }
}

/// A query that returned rows shows its column names on the first line and
/// then one line per row, in order, each holding the texts of that row's
/// values; the "Query returned 0 rows." cell is shown exactly when no row came
/// back.
pub proof fn lemma_rows_outcome_table(columns: Vec<String>, rows: Vec<Vec<CellValue>>)
    ensures
        ({
            let t = outcome_table(&QueryOutcome::Rows(columns, rows));
            &&& rows@.len() == 0 ==> t == seq![seq!["Query returned 0 rows."@]]
            &&& rows@.len() >= 1 ==> {
                &&& t.len() == rows@.len() + 1
                &&& t.len() >= 2
                &&& t[0].len() == columns@.len()
                &&& forall|j: int| 0 <= j < columns@.len() ==> #[trigger] t[0][j] == columns@[j]@
                &&& forall|i: int| 0 <= i < rows@.len() ==> (#[trigger] t[i + 1]).len() == rows@[i]@.len()
                &&& forall|i: int, j: int| 0 <= i < rows@.len() && 0 <= j < rows@[i]@.len()
                    ==> #[trigger] t[i + 1][j] == cell_text(&rows@[i]@[j])
            }
        }),
{
    let t = outcome_table(&QueryOutcome::Rows(columns, rows));
    if rows@.len() >= 1 {
        assert forall|i: int| 0 <= i < rows@.len() implies (#[trigger] t[i + 1]).len() == rows@[i]@.len() by {
            assert(t[i + 1] == cells_view(rows@[i]@));
        }
        assert forall|i: int, j: int| 0 <= i < rows@.len() && 0 <= j < rows@[i]@.len()
            implies #[trigger] t[i + 1][j] == cell_text(&rows@[i]@[j]) by {
            assert(t[i + 1] == cells_view(rows@[i]@));
        }
    }
}

/// The views of a table of strings.
pub open spec fn table_view(table: Seq<Vec<String>>) -> Seq<Seq<Seq<char>>> {
    Seq::new(table.len(), |i: int| strings_view(table[i]@))
}

fn clone_strings(row: &Vec<String>) -> (out: Vec<String>)
    ensures
        strings_view(out@) == strings_view(row@),
{
    let mut out: Vec<String> = Vec::new();
    for j in 0..row.len()
        invariant
            out@.len() == j,
            j <= row@.len(),
            forall|k: int| 0 <= k < j ==> #[trigger] out@[k]@ == row@[k]@,
    {
        out.push(row[j].clone());
    }
    assert(strings_view(out@) =~= strings_view(row@));
    out
}

fn format_row(row: &Vec<CellValue>) -> (out: Vec<String>)
    ensures
        strings_view(out@) == cells_view(row@),
{
    let mut out: Vec<String> = Vec::new();
    for j in 0..row.len()
        invariant
            out@.len() == j,
            j <= row@.len(),
            forall|k: int| 0 <= k < j ==> #[trigger] out@[k]@ == cell_text(&row@[k]),
    {
        out.push(format_cell(&row[j]));
    }
    assert(strings_view(out@) =~= cells_view(row@));
    out
}

fn single_cell_table(text: String) -> (t: Vec<Vec<String>>)
    ensures
        table_view(t@) == single_cell(text@),
{
    let mut row: Vec<String> = Vec::new();
    row.push(text);
    let mut t: Vec<Vec<String>> = Vec::new();
    t.push(row);
    assert(strings_view(t@[0]@) =~= seq![text@]);
    assert(table_view(t@) =~= single_cell(text@));
    t
}

/// The table to show for a query outcome.
pub fn result_table(outcome: &QueryOutcome) -> (t: Vec<Vec<String>>)
    ensures
        table_view(t@) == outcome_table(outcome),
{
    match outcome {
        QueryOutcome::Rows(columns, rows) => {
            if rows.len() == 0 {
                return single_cell_table(String::from_str("Query returned 0 rows."));
            }
            let mut t: Vec<Vec<String>> = Vec::new();
            t.push(clone_strings(columns));
            for i in 0..rows.len()
                invariant
                    t@.len() == i + 1,
                    i <= rows@.len(),
                    strings_view(t@[0]@) == strings_view(columns@),
                    forall|k: int| 0 <= k < i ==> strings_view(#[trigger] t@[k + 1]@) == cells_view(rows@[k]@),
            {
                let line = format_row(&rows[i]);
                t.push(line);
                assert(t@[i + 1] == line);
            }
            assert(table_view(t@) =~= outcome_table(outcome)) by {
                assert forall|k: int| 1 <= k < t@.len() implies table_view(t@)[k] == outcome_table(outcome)[k] by {
                    assert(t@[(k - 1) + 1] == t@[k]);
                }
            }
            t
        },
        QueryOutcome::Executed(n) => {
            let mut s = String::from_str("Rows affected: ");
            push_decimal(&mut s, *n);
            single_cell_table(s)
        },
        QueryOutcome::Failed(message) => {
            let mut s = String::from_str("Query failed: ");
            s.append(message.as_str());
            single_cell_table(s)
        },
    }
}


/// Binary cells render losslessly: two byte strings that show the same text are equal.
pub proof fn lemma_byte_cells_lossless(a: Vec<u8>, b: Vec<u8>)
    requires
        cell_text(&CellValue::Bytes(a)) == cell_text(&CellValue::Bytes(b)),
    ensures
        a@ == b@,
{
    reveal_strlit("[]");
    if a@.len() == 0 && b@.len() == 0 {
        assert(a@ =~= b@);
    } else if a@.len() == 0 {
        assert(hex_text(b@)[0] == "[]"@[0]);
        assert(hex_text(b@)[0] != '[');
    } else if b@.len() == 0 {
        assert(hex_text(a@)[0] == "[]"@[0]);
        assert(hex_text(a@)[0] != '[');
    } else {
        lemma_hex_text_injective(a@, b@);
    }
}

/// An integer cell shows the integer's base-ten numeral, with `-` in front
/// when it is negative.
pub proof fn lemma_int_cell_reads_back(n: i64)
    ensures
        ({
            let t = cell_text(&CellValue::Int(n));
            &&& n < 0 ==> t[0] == '-' && digits_value(t.drop_first()) == -n
            &&& n >= 0 ==> digits_value(t) == n
            &&& forall|k: int| (if n < 0 { 1int } else { 0int }) <= k < t.len() ==> is_decimal_char(#[trigger] t[k])
        }),
{
    lemma_int_text_reads_back(n as int);
}

/// A binary cell shows `[]` when empty, and otherwise two lower-case hex
/// digits per byte, in order, reading back as the byte's high and low nibble.
pub proof fn lemma_byte_cell_reads_back(bytes: Vec<u8>)
    ensures
        ({
            let t = cell_text(&CellValue::Bytes(bytes));
            &&& bytes@.len() == 0 ==> t == seq!['[', ']']
            &&& bytes@.len() > 0 ==> t.len() == 2 * bytes@.len()
            &&& bytes@.len() > 0 ==> forall|i: int| 0 <= i < bytes@.len() ==> {
                &&& is_lower_hex_char(#[trigger] t[2 * i])
                &&& is_lower_hex_char(t[2 * i + 1])
                &&& hex_value(t[2 * i]) == bytes@[i] / 16
                &&& hex_value(t[2 * i + 1]) == bytes@[i] % 16
            }
        }),
{
    reveal_strlit("[]");
    lemma_hex_text_reads_back(bytes@);
    if bytes@.len() == 0 {
        assert(cell_text(&CellValue::Bytes(bytes)) =~= seq!['[', ']']);
    }
}

/// The fixed texts cells show: `NULL` for a null, the text itself for text,
/// `true` and `false` for booleans, and `<unsupported:` NAME `>` (NAME being
/// `unknown` when the column is missing) for what could not be decoded.
pub proof fn lemma_fixed_cell_texts(text: String, name: String)
    ensures
        cell_text(&CellValue::Null) == seq!['N', 'U', 'L', 'L'],
        cell_text(&CellValue::Text(text)) == text@,
        cell_text(&CellValue::Bool(true)) == seq!['t', 'r', 'u', 'e'],
        cell_text(&CellValue::Bool(false)) == seq!['f', 'a', 'l', 's', 'e'],
        cell_text(&CellValue::Unsupported(Some(name)))
            == seq!['<', 'u', 'n', 's', 'u', 'p', 'p', 'o', 'r', 't', 'e', 'd', ':'] + name@ + seq!['>'],
        cell_text(&CellValue::Unsupported(None))
            == seq!['<', 'u', 'n', 's', 'u', 'p', 'p', 'o', 'r', 't', 'e', 'd', ':', 'u', 'n', 'k', 'n', 'o', 'w', 'n', '>'],
{
    reveal_strlit("NULL");
    reveal_strlit("true");
    reveal_strlit("false");
    reveal_strlit("<unsupported:");
    reveal_strlit("unknown");
    reveal_strlit(">");
    assert(cell_text(&CellValue::Null) =~= seq!['N', 'U', 'L', 'L']);
    assert(cell_text(&CellValue::Bool(true)) =~= seq!['t', 'r', 'u', 'e']);
    assert(cell_text(&CellValue::Bool(false)) =~= seq!['f', 'a', 'l', 's', 'e']);
    assert(cell_text(&CellValue::Unsupported(Some(name)))
        =~= seq!['<', 'u', 'n', 's', 'u', 'p', 'p', 'o', 'r', 't', 'e', 'd', ':'] + name@ + seq!['>']);
    assert(cell_text(&CellValue::Unsupported(None))
        =~= seq!['<', 'u', 'n', 's', 'u', 'p', 'p', 'o', 'r', 't', 'e', 'd', ':', 'u', 'n', 'k', 'n', 'o', 'w', 'n', '>']);
}

/// The single-cell tables: rows affected in decimal after `Rows affected: `,
/// the failure after `Query failed: `, and the notice for a query that
/// returned no rows.
pub proof fn lemma_single_cell_outcomes(n: u64, message: String, columns: Vec<String>, rows: Vec<Vec<CellValue>>)
    ensures
        outcome_table(&QueryOutcome::Executed(n)) == seq![seq![
            seq!['R', 'o', 'w', 's', ' ', 'a', 'f', 'f', 'e', 'c', 't', 'e', 'd', ':', ' '] + nat_text(n as nat)]],
        outcome_table(&QueryOutcome::Failed(message)) == seq![seq![
            seq!['Q', 'u', 'e', 'r', 'y', ' ', 'f', 'a', 'i', 'l', 'e', 'd', ':', ' '] + message@]],
        rows@.len() == 0 ==> outcome_table(&QueryOutcome::Rows(columns, rows)) == seq![seq![
            seq!['Q', 'u', 'e', 'r', 'y', ' ', 'r', 'e', 't', 'u', 'r', 'n', 'e', 'd', ' ', '0', ' ', 'r', 'o', 'w', 's', '.']]],
{
    reveal_strlit("Rows affected: ");
    reveal_strlit("Query failed: ");
    reveal_strlit("Query returned 0 rows.");
    assert("Rows affected: "@ =~= seq!['R', 'o', 'w', 's', ' ', 'a', 'f', 'f', 'e', 'c', 't', 'e', 'd', ':', ' ']);
    assert("Query failed: "@ =~= seq!['Q', 'u', 'e', 'r', 'y', ' ', 'f', 'a', 'i', 'l', 'e', 'd', ':', ' ']);
    assert("Query returned 0 rows."@ =~= seq!['Q', 'u', 'e', 'r', 'y', ' ', 'r', 'e', 't', 'u', 'r', 'n', 'e', 'd', ' ', '0', ' ', 'r', 'o', 'w', 's', '.']);
}

/// Joining puts ` | ` between neighbours and nothing at the ends: nothing
/// for no texts, the text itself for one, and one separator more for each
/// text added.
pub proof fn lemma_bar_join_steps(parts: Seq<Seq<char>>, next: Seq<char>)
    ensures
        bar_joined(Seq::empty()) == Seq::<char>::empty(),
        bar_joined(seq![next]) == next,
        parts.len() > 0 ==> bar_joined(parts.push(next)) == bar_joined(parts) + seq![' ', '|', ' '] + next,
{
    reveal_strlit(" | ");
    assert(" | "@ =~= seq![' ', '|', ' ']);
    assert(seq![next][0] == next);
    if parts.len() > 0 {
        assert(parts.push(next).drop_last() =~= parts);
    }
}

/// The texts joined in order, with ` | ` between neighbours.
pub open spec fn bar_joined(parts: Seq<Seq<char>>) -> Seq<char>
    decreases parts.len(),
{
    if parts.len() == 0 {
        Seq::empty()
    } else if parts.len() == 1 {
        parts[0]
    } else {
        bar_joined(parts.drop_last()) + " | "@ + parts.last()
    }
}

/// One line of console output for a row: its texts joined by ` | `.
pub fn join_row(values: &Vec<String>) -> (line: String)
    ensures
        line@ == bar_joined(strings_view(values@)),
{
    let mut line = String::new();
    let ghost parts = strings_view(values@);
    for i in 0..values.len()
        invariant
            parts == strings_view(values@),
            line@ == bar_joined(parts.take(i as int)),
    {
        if i != 0 {
            line.append(" | ");
        }
        line.append(values[i].as_str());
        proof {
            let next = parts.take(i + 1);
            assert(next.drop_last() =~= parts.take(i as int));
            assert(next.last() == values@[i as int]@);
            if i == 0 {
                assert(next.len() == 1);
                assert(bar_joined(parts.take(0)) =~= Seq::<char>::empty());
                assert(line@ =~= next[0]);
            }
        }
    }
    assert(parts.take(values@.len() as int) =~= parts);
    line
}

} // verus!
