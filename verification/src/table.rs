//! A table of text cells whose columns are as wide as their widest cell.
//! Widths are counted in terminal columns, after escape sequences have been
//! taken out.

use vstd::prelude::*;
use vstd::string::StringExecFns;
use crate::template::Alignment;
use crate::text::push_char;

verus! {

/// What is left of a text once its ANSI escape sequences are taken out, as
/// `strip_ansi_escapes::strip_str` computes it.
pub uninterp spec fn without_escapes(s: Seq<char>) -> Seq<char>;

/// The number of terminal columns that a text takes, as
/// `unicode_width::UnicodeWidthStr::width` computes it.
pub uninterp spec fn display_width(s: Seq<char>) -> nat;

/// Calls `strip_ansi_escapes::strip_str`. Trusted: the result is the text
/// without its escape sequences, which this crate only names.
#[verifier::external_body]
fn strip_escapes(s: &str) -> (r: String)
    ensures
        r@ == without_escapes(s@),
{
    strip_ansi_escapes::strip_str(s)
}

/// Calls `unicode_width::UnicodeWidthStr::width`. Trusted: the result is
/// the number of columns of the text, which this crate only names.
#[verifier::external_body]
fn width_of(s: &str) -> (w: usize)
    ensures
        w == display_width(s@),
{
    unicode_width::UnicodeWidthStr::width(s)
}

/// A cell: its text, and how it is aligned in its column.
pub type Cell = (String, Alignment);

/// The number of columns that a cell takes on the terminal.
pub open spec fn cell_width(cell: Cell) -> nat {
    display_width(without_escapes(cell.0@))
}

/// The width of column `j`: that of the widest cell that any row has
/// there, and 0 if no row has one.
pub open spec fn column_width(rows: Seq<Vec<Cell>>, j: int) -> nat
    decreases rows.len(),
{
    if rows.len() == 0 {
        0
    } else {
        let before = column_width(rows.drop_last(), j);
        let row = rows.last()@;
        if 0 <= j < row.len() && cell_width(row[j]) > before {
            cell_width(row[j])
        } else {
            before
        }
    }
}

/// The length of the longest row.
pub open spec fn longest_row(rows: Seq<Vec<Cell>>) -> nat
    decreases rows.len(),
{
    if rows.len() == 0 {
        0
    } else {
        let before = longest_row(rows.drop_last());
        if rows.last()@.len() > before {
            rows.last()@.len()
        } else {
            before
        }
    }
}

/// `n` spaces.
pub open spec fn spaces(n: nat) -> Seq<char>
    decreases n,
{
    if n == 0 {
        Seq::empty()
    } else {
        spaces((n - 1) as nat).push(' ')
    }
}

/// A cell as it stands in the table. `free` is what the column has more
/// than the cell, and `gap` the space between columns. A cell that is the
/// last of its row gets nothing after it but what centres it or moves it to
/// the right; a left-aligned last cell stands as it is.
pub open spec fn cell_text(cell: Cell, free: nat, gap: nat, last: bool) -> Seq<char> {
    match cell.1 {
        Alignment::Left => if last {
            cell.0@
        } else {
            cell.0@ + spaces(free) + spaces(gap)
        },
        Alignment::Right => if last {
            spaces(free) + cell.0@
        } else {
            spaces(free) + cell.0@ + spaces(gap)
        },
        Alignment::Center => if last {
            spaces(free / 2) + cell.0@ + spaces((free - free / 2) as nat)
        } else {
            spaces(free / 2) + cell.0@ + spaces((free - free / 2) as nat) + spaces(gap)
        },
    }
}

/// The first `n` cells of row `i` as they stand in the table.
pub open spec fn row_text(rows: Seq<Vec<Cell>>, gap: nat, i: int, n: nat) -> Seq<char>
    recommends
        0 <= i < rows.len(),
        n <= rows[i]@.len(),
    decreases n,
{
    if n == 0 {
        Seq::empty()
    } else {
        let j = n - 1;
        let cell = rows[i]@[j];
        row_text(rows, gap, i, j as nat) + cell_text(
            cell,
            (column_width(rows, j) - cell_width(cell)) as nat,
            gap,
            j == rows[i]@.len() - 1,
        )
    }
}

/// The first `m` rows as they stand in the table, with a line feed after
/// every row but the last of the table.
pub open spec fn rows_text(rows: Seq<Vec<Cell>>, gap: nat, m: nat) -> Seq<char>
    recommends
        m <= rows.len(),
    decreases m,
{
    if m == 0 {
        Seq::empty()
    } else {
        let i = m - 1;
        rows_text(rows, gap, i as nat) + row_text(rows, gap, i, rows[i]@.len()) + if i
            < rows.len() - 1 {
            seq!['\n']
        } else {
            Seq::empty()
        }
    }
}

/// The table as text; `No rows` for a table without rows.
pub open spec fn table_text(rows: Seq<Vec<Cell>>, gap: nat) -> Seq<char> {
    if rows.len() == 0 {
        "No rows"@
    } else {
        rows_text(rows, gap, rows.len())
    }
}

/// A column is at least as wide as each of its cells.
pub proof fn lemma_column_holds(rows: Seq<Vec<Cell>>, i: int, j: int)
    requires
        0 <= i < rows.len(),
        0 <= j < rows[i]@.len(),
    ensures
        cell_width(rows[i]@[j]) <= column_width(rows, j),
    decreases rows.len(),
{
    if i < rows.len() - 1 {
        lemma_column_holds(rows.drop_last(), i, j);
    }
}

/// No row is longer than the longest.
pub proof fn lemma_longest_holds(rows: Seq<Vec<Cell>>, i: int)
    requires
        0 <= i < rows.len(),
    ensures
        rows[i]@.len() <= longest_row(rows),
    decreases rows.len(),
{
    if i < rows.len() - 1 {
        lemma_longest_holds(rows.drop_last(), i);
    }
}

/// Rows of cells, and the space between columns.
pub struct Table {
    rows: Vec<Vec<Cell>>,
    padding: usize,
}

/// The mathematical value of a [`Table`].
pub struct TableView {
    pub rows: Seq<Vec<Cell>>,
    pub padding: nat,
}

impl View for Table {
    type V = TableView;

    closed spec fn view(&self) -> TableView {
        TableView { rows: self.rows@, padding: self.padding as nat }
    }
}

fn push_spaces(out: &mut String, n: usize)
    ensures
        final(out)@ == old(out)@ + spaces(n as nat),
{
    let mut k: usize = 0;
    assert(out@ =~= old(out)@ + spaces(0));
    while k < n
        invariant
            k <= n,
            out@ == old(out)@ + spaces(k as nat),
        decreases n - k,
    {
        push_char(out, ' ');
        k += 1;
        assert(out@ =~= old(out)@ + spaces(k as nat));
    }
}

impl Table {
    /// Whether the table is well formed: no row is empty.
    pub open spec fn wf(&self) -> bool {
        forall|i: int| 0 <= i < self@.rows.len() ==> (#[trigger] self@.rows[i])@.len() > 0
    }

    /// A table without rows, with one space between columns.
    pub fn new() -> (t: Table)
        ensures
            t.wf(),
            t@.rows.len() == 0,
            t@.padding == 1,
    {
        Table { rows: Vec::new(), padding: 1 }
    }

    /// Adds a row at the end. An empty row is not added.
    pub fn add_row(&mut self, row: Vec<Cell>)
        ensures
            old(self).wf() ==> final(self).wf(),
            final(self)@.padding == old(self)@.padding,
            final(self)@.rows == if row@.len() == 0 {
                old(self)@.rows
            } else {
                old(self)@.rows.push(row)
            },
    {
        if row.len() == 0 {
            return ;
        }
        self.rows.push(row);
        proof {
            if old(self).wf() {
                assert forall|i: int| 0 <= i < self@.rows.len() implies (
                #[trigger] self@.rows[i])@.len() > 0 by {
                    if i < old(self)@.rows.len() {
                        assert(self@.rows[i] == old(self)@.rows[i]);
                    }
                }
            }
        }
    }

    /// This table with `padding` spaces between columns.
    pub fn padding(self, padding: usize) -> (t: Table)
        ensures
            t@.rows == self@.rows,
            t@.padding == padding,
            self.wf() ==> t.wf(),
    {
        Table { rows: self.rows, padding }
    }

    /// The rows of the table.
    pub fn rows(&self) -> (rows: &Vec<Vec<Cell>>)
        ensures
            rows@ == self@.rows,
    {
        &self.rows
    }

    /// The width of column `j`.
    pub fn column_width(&self, j: usize) -> (w: usize)
        ensures
            w == column_width(self@.rows, j as int),
    {
        let mut w: usize = 0;
        let mut i: usize = 0;
        assert(self.rows@.take(0) =~= Seq::<Vec<Cell>>::empty());
        while i < self.rows.len()
            invariant
                i <= self.rows.len(),
                w == column_width(self.rows@.take(i as int), j as int),
            decreases self.rows.len() - i,
        {
            proof {
                assert(self.rows@.take(i + 1).drop_last() =~= self.rows@.take(i as int));
                assert(self.rows@.take(i + 1).last() == self.rows@[i as int]);
            }
            let row = &self.rows[i];
            if j < row.len() {
                let plain = strip_escapes(row[j].0.as_str());
                let width = width_of(plain.as_str());
                if width > w {
                    w = width;
                }
            }
            i += 1;
        }
        assert(self.rows@.take(i as int) =~= self.rows@);
        w
    }

    /// The length of the longest row.
    pub fn longest_row(&self) -> (n: usize)
        ensures
            n == longest_row(self@.rows),
    {
        let mut n: usize = 0;
        let mut i: usize = 0;
        assert(self.rows@.take(0) =~= Seq::<Vec<Cell>>::empty());
        while i < self.rows.len()
            invariant
                i <= self.rows.len(),
                n == longest_row(self.rows@.take(i as int)),
            decreases self.rows.len() - i,
        {
            proof {
                assert(self.rows@.take(i + 1).drop_last() =~= self.rows@.take(i as int));
                assert(self.rows@.take(i + 1).last() == self.rows@[i as int]);
            }
            if self.rows[i].len() > n {
                n = self.rows[i].len();
            }
            i += 1;
        }
        assert(self.rows@.take(i as int) =~= self.rows@);
        n
    }

    /// The widths of all columns.
    pub fn column_widths(&self) -> (widths: Vec<usize>)
        ensures
            widths@.len() == longest_row(self@.rows),
            forall|j: int|
                0 <= j < widths@.len() ==> #[trigger] widths@[j] == column_width(self@.rows, j),
    {
        let n = self.longest_row();
        let mut widths: Vec<usize> = Vec::new();
        let mut j: usize = 0;
        while j < n
            invariant
                j <= n,
                widths@.len() == j,
                forall|k: int|
                    0 <= k < j ==> #[trigger] widths@[k] == column_width(self@.rows, k),
            decreases n - j,
        {
            widths.push(self.column_width(j));
            j += 1;
        }
        widths
    }

    fn push_cell(&self, out: &mut String, widths: &Vec<usize>, i: usize, j: usize)
        requires
            i < self@.rows.len(),
            j < self@.rows[i as int]@.len(),
            widths@.len() == longest_row(self@.rows),
            forall|k: int|
                0 <= k < widths@.len() ==> #[trigger] widths@[k] == column_width(self@.rows, k),
            old(out)@ == rows_text(self@.rows, self@.padding, i as nat) + row_text(
                self@.rows,
                self@.padding,
                i as int,
                j as nat,
            ),
        ensures
            final(out)@ == rows_text(self@.rows, self@.padding, i as nat) + row_text(
                self@.rows,
                self@.padding,
                i as int,
                (j + 1) as nat,
            ),
    {
        let row = &self.rows[i];
        let cell = &row[j];
        let plain = strip_escapes(cell.0.as_str());
        let visual = width_of(plain.as_str());
        proof {
            lemma_longest_holds(self.rows@, i as int);
            lemma_column_holds(self.rows@, i as int, j as int);
        }
        let available = widths[j];
        let free: usize = available - visual;
        let last = j == row.len() - 1;
        let ghost start = out@;
        match cell.1 {
            Alignment::Left => {
                out.append(cell.0.as_str());
                if !last {
                    push_spaces(out, free);
                    push_spaces(out, self.padding);
                }
            },
            Alignment::Right => {
                push_spaces(out, free);
                out.append(cell.0.as_str());
                if !last {
                    push_spaces(out, self.padding);
                }
            },
            Alignment::Center => {
                let left: usize = free / 2;
                push_spaces(out, left);
                out.append(cell.0.as_str());
                push_spaces(out, free - left);
                if !last {
                    push_spaces(out, self.padding);
                }
            },
        }
        proof {
            let text = cell_text(*cell, free as nat, self.padding as nat, last);
            assert(out@ =~= start + text);
            assert(start + text =~= rows_text(self@.rows, self@.padding, i as nat) + (row_text(
                self@.rows,
                self@.padding,
                i as int,
                j as nat,
            ) + text));
        }
    }

    /// The table as text: the rows on lines of their own, each cell in its
    /// column.
    pub fn to_string(&self) -> (out: String)
        ensures
            out@ == table_text(self@.rows, self@.padding),
    {
        if self.rows.len() == 0 {
            return "No rows".to_owned();
        }
        let widths = self.column_widths();
        let mut out = String::new();
        let mut i: usize = 0;
        while i < self.rows.len()
            invariant
                i <= self.rows.len(),
                widths@.len() == longest_row(self@.rows),
                forall|k: int|
                    0 <= k < widths@.len() ==> #[trigger] widths@[k] == column_width(
                        self@.rows,
                        k,
                    ),
                out@ == rows_text(self@.rows, self@.padding, i as nat),
            decreases self.rows.len() - i,
        {
            let ghost done = out@;
            let n = self.rows[i].len();
            let mut j: usize = 0;
            assert(out@ =~= done + row_text(self@.rows, self@.padding, i as int, 0));
            while j < n
                invariant
                    i < self.rows.len(),
                    n == self.rows@[i as int]@.len(),
                    j <= n,
                    widths@.len() == longest_row(self@.rows),
                    forall|k: int|
                        0 <= k < widths@.len() ==> #[trigger] widths@[k] == column_width(
                            self@.rows,
                            k,
                        ),
                    done == rows_text(self@.rows, self@.padding, i as nat),
                    out@ == done + row_text(self@.rows, self@.padding, i as int, j as nat),
                decreases n - j,
            {
                self.push_cell(&mut out, &widths, i, j);
                j += 1;
            }
            if i < self.rows.len() - 1 {
                push_char(&mut out, '\n');
                assert(out@ =~= done + row_text(self@.rows, self@.padding, i as int, n as nat)
                    + seq!['\n']);
            } else {
                assert(out@ =~= done + row_text(self@.rows, self@.padding, i as int, n as nat)
                    + Seq::<char>::empty());
            }
            i += 1;
        }
        out
    }
}

} // verus!
