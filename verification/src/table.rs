//! Column widths and the integer geometry of the result table.
use vstd::prelude::*;

verus! {

/// The narrowest a column is drawn.
pub const MIN_COLUMN_WIDTH: u32 = 120;
/// The widest a column is drawn.
pub const MAX_COLUMN_WIDTH: u32 = 720;
/// Horizontal padding on each side of a cell's text.
pub const CELL_PADDING_X: u32 = 10;
/// Vertical padding above and below a cell's text.
pub const CELL_PADDING_Y: u32 = 6;
/// The height of one table row.
pub const ROW_HEIGHT: u32 = 34;
/// The smallest text box of a cell, in either direction.
pub const MIN_CELL_TEXT_SIZE: u32 = 16;

/// The estimated width of one character in column `index`: the first column
/// is drawn narrower.
pub open spec fn char_width(index: int) -> int {
    if index == 0 { 12 } else { 14 }
}

/// The width that a cell's text asks of its column, at most the widest column.
pub open spec fn cell_estimate(cell: Seq<char>, index: int) -> int {
    let wanted = cell.len() * char_width(index) + 2 * CELL_PADDING_X;
    if wanted < MAX_COLUMN_WIDTH { wanted } else { MAX_COLUMN_WIDTH as int }
}

/// The number of columns of a table: as many as its first row has, at least one.
pub open spec fn column_count(table: Seq<Vec<String>>) -> nat {
    if table.len() == 0 || table[0]@.len() == 0 { 1 } else { table[0]@.len() }
}

/// The width of column `j` over the first `rows` rows: the largest estimate of
/// its cells, at least the narrowest column.
pub open spec fn column_width_over(table: Seq<Vec<String>>, rows: nat, j: int) -> int
    decreases rows,
{
    if rows == 0 {
        MIN_COLUMN_WIDTH as int
    } else {
        let before = column_width_over(table, (rows - 1) as nat, j);
        let row = table[rows - 1]@;
        let here = if j < row.len() { cell_estimate(row[j]@, j) } else { MIN_COLUMN_WIDTH as int };
        if here > before { here } else { before }
    }
}

/// The width of column `j` of a table.
pub open spec fn column_width(table: Seq<Vec<String>>, j: int) -> int {
    column_width_over(table, table.len(), j)
}

/// No row has more cells than the first row has columns.
pub open spec fn rows_fit(table: Seq<Vec<String>>) -> bool {
    forall|i: int| 0 <= i < table.len() ==> #[trigger] table[i]@.len() <= column_count(table)
}

/// A table has as many columns as its first row has cells, and one column
/// when it has no rows or its first row is empty.
pub proof fn lemma_column_count(table: Seq<Vec<String>>)
    ensures
        table.len() > 0 && table[0]@.len() > 0 ==> column_count(table) == table[0]@.len(),
        table.len() == 0 || table[0]@.len() == 0 ==> column_count(table) == 1,
{
}

/// Every column is between the narrowest and the widest column.
pub proof fn lemma_column_width_bounds(table: Seq<Vec<String>>, rows: nat, j: int)
    requires
        rows <= table.len(),
    ensures
        MIN_COLUMN_WIDTH <= column_width_over(table, rows, j) <= MAX_COLUMN_WIDTH,
    decreases rows,
{
    if rows > 0 {
        lemma_column_width_bounds(table, (rows - 1) as nat, j);
    }
}

/// Adding rows never narrows a column.
pub proof fn lemma_column_width_grows(table: Seq<Vec<String>>, r1: nat, r2: nat, j: int)
    requires
        r1 <= r2 <= table.len(),
    ensures
        column_width_over(table, r1, j) <= column_width_over(table, r2, j),
    decreases r2 - r1,
{
    if r1 < r2 {
        lemma_column_width_grows(table, r1, (r2 - 1) as nat, j);
    }
}

/// The width a cell of `chars` characters asks of column `j`: 12 pixels a
/// character in the first column and 14 elsewhere, plus 10 on each side,
/// never more than 720.
pub open spec fn capped_cell_width(chars: int, j: int) -> int {
    let wanted = chars * (if j == 0 { 12int } else { 14int }) + 20;
    if wanted < 720 { wanted } else { 720 }
}

/// Every column is as wide as each of its cells asks (up to the widest column).
pub proof fn lemma_cells_fit_columns(table: Seq<Vec<String>>, i: int, j: int)
    requires
        0 <= i < table.len(),
        0 <= j < table[i]@.len(),
    ensures
        capped_cell_width(table[i]@[j]@.len() as int, j) <= column_width(table, j),
{
    assert(cell_estimate(table[i]@[j]@, j) <= column_width_over(table, (i + 1) as nat, j));
    lemma_column_width_grows(table, (i + 1) as nat, table.len(), j);
}

proof fn lemma_column_width_over_attained(table: Seq<Vec<String>>, rows: nat, j: int)
    requires
        rows <= table.len(),
    ensures
        column_width_over(table, rows, j) == 120 || exists|i: int|
            0 <= i < rows && j < #[trigger] table[i]@.len()
                && column_width_over(table, rows, j) == capped_cell_width(table[i]@[j]@.len() as int, j),
    decreases rows,
{
    if rows > 0 {
        lemma_column_width_over_attained(table, (rows - 1) as nat, j);
        let before = column_width_over(table, (rows - 1) as nat, j);
        let last = rows - 1;
        let row = table[last]@;
        if j < row.len() && cell_estimate(row[j]@, j) > before {
            assert(j < table[last]@.len());
        } else if before != 120 {
            let i = choose|i: int|
                0 <= i < rows - 1 && j < #[trigger] table[i]@.len()
                    && before == capped_cell_width(table[i]@[j]@.len() as int, j);
            assert(j < table[i]@.len());
        }
    }
}

/// Every column width is attained: it is the narrowest width, 120, or exactly
/// the width that some cell of that column asks.
pub proof fn lemma_column_width_attained(table: Seq<Vec<String>>, j: int)
    ensures
        column_width(table, j) == 120 || exists|i: int|
            0 <= i < table.len() && j < #[trigger] table[i]@.len()
                && column_width(table, j) == capped_cell_width(table[i]@[j]@.len() as int, j),
{
    lemma_column_width_over_attained(table, table.len(), j);
}

/// The estimate of a cell of `count` characters in column `index`.
fn estimate(count: usize, index: usize) -> (w: u32)
    ensures
        w == (if count * char_width(index as int) + 2 * CELL_PADDING_X < MAX_COLUMN_WIDTH {
            count * char_width(index as int) + 2 * CELL_PADDING_X
        } else {
            MAX_COLUMN_WIDTH as int
        }),
{
    if count >= 60 {
        MAX_COLUMN_WIDTH
    } else {
        let cw: u32 = if index == 0 { 12 } else { 14 };
        let wanted: u32 = (count as u32) * cw + 2 * CELL_PADDING_X;
        if wanted < MAX_COLUMN_WIDTH { wanted } else { MAX_COLUMN_WIDTH }
    }
}

/// The width of each column of `table`: one width per column of the first row
/// (at least one), each the largest estimate of the cells in that column,
/// between the narrowest and the widest column.
pub fn compute_column_widths(table: &Vec<Vec<String>>) -> (widths: Vec<u32>)
    requires
        rows_fit(table@),
    ensures
        widths@.len() == column_count(table@),
        forall|j: int| 0 <= j < widths@.len() ==> #[trigger] widths@[j] == column_width(table@, j),
        forall|j: int| 0 <= j < widths@.len() ==> MIN_COLUMN_WIDTH <= #[trigger] widths@[j] <= MAX_COLUMN_WIDTH,
        forall|i: int, j: int| #![trigger table@[i]@[j], widths@[j]]
            0 <= i < table@.len() && 0 <= j < table@[i]@.len()
            ==> capped_cell_width(table@[i]@[j]@.len() as int, j) <= widths@[j],
        forall|j: int| 0 <= j < widths@.len() ==> #[trigger] widths@[j] == 120 || exists|i: int|
            0 <= i < table@.len() && j < #[trigger] table@[i]@.len()
                && widths@[j] == capped_cell_width(table@[i]@[j]@.len() as int, j),
{
    let cols: usize = if table.len() == 0 || table[0].len() == 0 { 1 } else { table[0].len() };
    let mut widths: Vec<u32> = Vec::new();
    for j in 0..cols
        invariant
            widths@.len() == j,
            forall|k: int| 0 <= k < j ==> #[trigger] widths@[k] == MIN_COLUMN_WIDTH,
    {
        widths.push(MIN_COLUMN_WIDTH);
    }
    let n = table.len();
    for i in 0..n
        invariant
            n == table@.len(),
            cols == column_count(table@),
            rows_fit(table@),
            widths@.len() == cols,
            forall|k: int| 0 <= k < cols ==> #[trigger] widths@[k] == column_width_over(table@, i as nat, k),
    {
        let row = &table[i];
        assert(row@.len() <= cols);
        for j in 0..row.len()
            invariant
                n == table@.len(),
                i < n,
                row == table@[i as int],
                row@.len() <= cols,
                widths@.len() == cols,
                forall|k: int| 0 <= k < j ==> #[trigger] widths@[k] == column_width_over(table@, (i + 1) as nat, k),
                forall|k: int| j <= k < cols ==> #[trigger] widths@[k] == column_width_over(table@, i as nat, k),
        {
            let count = row[j].as_str().unicode_len();
            let here = estimate(count, j);
            let before = widths[j];
            let w = if here > before { here } else { before };
            widths.set(j, w);
        }
        proof {
            assert forall|k: int| 0 <= k < cols implies #[trigger] widths@[k] == column_width_over(table@, (i + 1) as nat, k) by {
                if k >= row@.len() {
                    lemma_column_width_bounds(table@, i as nat, k);
                }
            }
        }
    }
    proof {
        assert forall|j: int| 0 <= j < widths@.len() implies MIN_COLUMN_WIDTH <= #[trigger] widths@[j] <= MAX_COLUMN_WIDTH by {
            lemma_column_width_bounds(table@, table@.len(), j);
            lemma_column_width_attained(table@, j);
        }
        assert forall|i: int, j: int| #![trigger table@[i]@[j], widths@[j]]
            0 <= i < table@.len() && 0 <= j < table@[i]@.len()
            implies capped_cell_width(table@[i]@[j]@.len() as int, j) <= widths@[j] by {
            lemma_cells_fit_columns(table@, i, j);
        }
        assert forall|j: int| 0 <= j < widths@.len() implies #[trigger] widths@[j] == 120 || exists|i: int|
            0 <= i < table@.len() && j < #[trigger] table@[i]@.len()
                && widths@[j] == capped_cell_width(table@[i]@[j]@.len() as int, j) by {
            lemma_column_width_attained(table@, j);
        }
    }
    widths
}


/// The sum of the first `n` widths.
pub open spec fn width_sum(widths: Seq<u32>, n: nat) -> int
    decreases n,
{
    if n == 0 || n > widths.len() {
        0
    } else {
        width_sum(widths, (n - 1) as nat) + widths[n - 1]
    }
}

fn sum_first(widths: &Vec<u32>, n: usize) -> (total: u128)
    requires
        n <= widths@.len(),
    ensures
        total == width_sum(widths@, n as nat),
{
    let mut total: u128 = 0;
    for k in 0..n
        invariant
            n <= widths@.len(),
            total == width_sum(widths@, k as nat),
            total <= k * 0xffff_ffffu128,
    {
        total = total + widths[k] as u128;
    }
    total
}

/// The widths of all columns of a table.
pub open spec fn table_widths(table: Seq<Vec<String>>) -> Seq<u32> {
    Seq::new(column_count(table), |j: int| column_width(table, j) as u32)
}

/// The first `n` widths add up to `width_sum`: it is their ordinary sum.
pub proof fn lemma_width_sum_is_sum(widths: Seq<u32>, n: nat)
    requires
        n <= widths.len(),
    ensures
        width_sum(widths, n) == widths.take(n as int).fold_left(0int, |acc: int, w: u32| acc + w),
    decreases n,
{
    let f = |acc: int, w: u32| acc + w;
    if n > 0 {
        lemma_width_sum_is_sum(widths, (n - 1) as nat);
        let t = widths.take(n as int);
        assert(t.drop_last() =~= widths.take(n - 1));
        assert(t.last() == widths[n - 1]);
        assert(t.fold_left(0int, f) == f(t.drop_last().fold_left(0int, f), t.last()));
    } else {
        assert(widths.take(0) =~= Seq::<u32>::empty());
    }
}

/// Columns are laid side by side: the first starts at the table's left edge,
/// each next column starts where the one before it ends, and the whole table
/// is as wide as all its columns together.
pub proof fn lemma_columns_side_by_side(table: Seq<Vec<String>>, c: nat)
    requires
        c < column_count(table),
    ensures
        width_sum(table_widths(table), 0) == 0,
        width_sum(table_widths(table), c + 1) == width_sum(table_widths(table), c) + column_width(table, c as int),
        width_sum(table_widths(table), column_count(table))
            == table_widths(table).fold_left(0int, |acc: int, w: u32| acc + w),
{
    let ws = table_widths(table);
    lemma_column_width_bounds(table, table.len(), c as int);
    assert(ws[c as int] == column_width(table, c as int));
    lemma_width_sum_is_sum(ws, column_count(table));
    assert(ws.take(column_count(table) as int) =~= ws);
}

/// The result table: its rows of text, and the width each column is drawn at.
pub struct TableModel {
    data: Vec<Vec<String>>,
    widths: Vec<u32>,
}

impl TableModel {
    #[verifier::type_invariant]
    spec fn widths_fit_data(self) -> bool {
        &&& rows_fit(self.data@)
        &&& self.widths@.len() == column_count(self.data@)
        &&& forall|j: int| 0 <= j < self.widths@.len() ==> #[trigger] self.widths@[j] == column_width(self.data@, j)
    }

    /// The rows the table shows.
    pub closed spec fn rows(&self) -> Seq<Vec<String>> {
        self.data@
    }

    proof fn lemma_widths_are_table_widths(&self)
        requires
            self.widths_fit_data(),
        ensures
            self.widths@ == table_widths(self.data@),
    {
        assert(self.widths@ =~= table_widths(self.data@));
    }

    /// A table showing `data`, with the column widths that its cells ask for.
    pub fn new(data: Vec<Vec<String>>) -> (t: TableModel)
        requires
            rows_fit(data@),
        ensures
            t.rows() == data@,
    {
        let widths = compute_column_widths(&data);
        TableModel { data, widths }
    }

    /// Shows `data` in place of what was shown, with column widths made anew.
    pub fn set_table_data(&mut self, data: Vec<Vec<String>>)
        requires
            rows_fit(data@),
        ensures
            final(self).rows() == data@,
    {
        let widths = compute_column_widths(&data);
        *self = TableModel { data, widths };
    }

    /// The rows the table shows.
    pub fn data(&self) -> (d: &Vec<Vec<String>>)
        ensures
            d@ == self.rows(),
    {
        &self.data
    }

    /// The width of each column: one per column of the first row, at least
    /// one, each as wide as its widest cell asks, within the narrowest and the
    /// widest column.
    pub fn widths(&self) -> (w: &Vec<u32>)
        ensures
            w@.len() == column_count(self.rows()),
            w@.len() >= 1,
            forall|j: int| 0 <= j < w@.len() ==> #[trigger] w@[j] == column_width(self.rows(), j),
            forall|j: int| 0 <= j < w@.len() ==> MIN_COLUMN_WIDTH <= #[trigger] w@[j] <= MAX_COLUMN_WIDTH,
    {
        proof {
            use_type_invariant(self);
            assert forall|j: int| 0 <= j < self.widths@.len() implies MIN_COLUMN_WIDTH <= #[trigger] self.widths@[j] <= MAX_COLUMN_WIDTH by {
                lemma_column_width_bounds(self.data@, self.data@.len(), j);
            }
        }
        &self.widths
    }

    /// The width of the whole table: the sum of its column widths.
    pub fn content_width(&self) -> (w: u128)
        ensures
            w == width_sum(table_widths(self.rows()), column_count(self.rows())),
            w == table_widths(self.rows()).fold_left(0int, |acc: int, x: u32| acc + x),
    {
        proof {
            use_type_invariant(self);
            self.lemma_widths_are_table_widths();
            lemma_width_sum_is_sum(self.widths@, self.widths@.len());
            assert(self.widths@.take(self.widths@.len() as int) =~= self.widths@);
        }
        sum_first(&self.widths, self.widths.len())
    }

    /// The height of the whole table: one row height per row, at least one row.
    pub fn content_height(&self) -> (h: u128)
        ensures
            h == (if self.rows().len() == 0 { 1 } else { self.rows().len() }) * ROW_HEIGHT,
            h == (if self.rows().len() == 0 { 1 } else { self.rows().len() }) * 34,
    {
        let rows: u128 = if self.data.len() == 0 { 1 } else { self.data.len() as u128 };
        assert(rows * 34 <= 0xffff_ffff_ffff_ffffu128 * 34) by (nonlinear_arith)
            requires rows <= 0xffff_ffff_ffff_ffffu128;
        rows * ROW_HEIGHT as u128
    }

    /// Where the `i`-th cell of the table, counting row by row, is drawn: its
    /// row and its column, with as many cells to a row as there are columns.
    pub fn text_cell_position(&self, i: usize) -> (pos: (usize, usize))
        ensures
            pos.1 < column_count(self.rows()),
            pos.0 * column_count(self.rows()) + pos.1 == i,
    {
        proof { use_type_invariant(self); }
        let cols = self.widths.len();
        let r = i / cols;
        let c = i % cols;
        assert(r * cols + c == i) by (nonlinear_arith)
            requires r == i / cols, c == i % cols, cols > 0;
        (r, c)
    }

    /// How far from the left edge of the table column `c` starts: the widths of
    /// the columns before it.
    pub fn column_offset(&self, c: usize) -> (x: u128)
        ensures
            x == width_sum(table_widths(self.rows()), if c < column_count(self.rows()) { c as nat } else { column_count(self.rows()) }),
            x == table_widths(self.rows()).take(if c < column_count(self.rows()) { c as int } else { column_count(self.rows()) as int })
                .fold_left(0int, |acc: int, w: u32| acc + w),
    {
        proof {
            use_type_invariant(self);
            self.lemma_widths_are_table_widths();
        }
        let n = if c < self.widths.len() { c } else { self.widths.len() };
        proof {
            lemma_width_sum_is_sum(self.widths@, n as nat);
        }
        sum_first(&self.widths, n)
    }

    /// The text box of the `i`-th cell: its column's width less the padding on
    /// both sides, and the row height less the padding above and below, each at
    /// least the smallest text box.
    pub fn cell_text_bounds(&self, i: usize) -> (size: (u32, u32))
        ensures
            ({
                let w = table_widths(self.rows())[(i as int) % (column_count(self.rows()) as int)] - 2 * CELL_PADDING_X;
                size.0 == if w > MIN_CELL_TEXT_SIZE { w } else { MIN_CELL_TEXT_SIZE as int }
            }),
            size.1 == ROW_HEIGHT - 2 * CELL_PADDING_Y,
            size.1 == 22,
            ({
                let w = column_width(self.rows(), (i as int) % (column_count(self.rows()) as int));
                size.0 == if w - 20 > 16 { w - 20 } else { 16 }
            }),
    {
        proof {
            use_type_invariant(self);
            self.lemma_widths_are_table_widths();
        }
        let width = self.widths[i % self.widths.len()];
        proof {
            lemma_column_width_bounds(self.data@, self.data@.len(), (i % self.widths.len()) as int);
        }
        let w = if width > MIN_CELL_TEXT_SIZE + 2 * CELL_PADDING_X { width - 2 * CELL_PADDING_X } else { MIN_CELL_TEXT_SIZE };
        (w, ROW_HEIGHT - 2 * CELL_PADDING_Y)
    }
}

/// The capacity the rectangle buffer must be given to hold `required`
/// rectangles: `None` when its capacity already suffices, else the new capacity.
pub fn rect_capacity_after(capacity: usize, required: usize) -> (grown: Option<usize>)
    ensures
        required <= capacity ==> grown is None,
        required > capacity ==> grown == Some(if required > 1 { required } else { 1usize }),
{
    if required <= capacity {
        None
    } else if required > 1 {
        Some(required)
    } else {
        Some(1)
    }
}

} // verus!
