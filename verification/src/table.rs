//! A table of text cells, laid out in left-aligned columns.

use vstd::prelude::*;
use crate::text::{byte_len, byte_length, padded, push_padded};

verus! {

/// The larger of two widths.
pub open spec fn wider(a: nat, b: nat) -> nat {
    if a >= b {
        a
    } else {
        b
    }
}

/// The width of a column: the most bytes that its header or any of its cells
/// in `rows` takes up.
pub open spec fn column_width(header: Seq<char>, rows: Seq<Seq<Seq<char>>>, column: int) -> nat
    decreases rows.len(),
{
    if rows.len() == 0 {
        byte_len(header)
    } else {
        wider(column_width(header, rows.drop_last(), column), byte_len(rows.last()[column]))
    }
}

/// The first `count` cells of a line, each padded to the width of its column
/// and followed by one blank.
pub open spec fn cells_text(cells: Seq<Seq<char>>, widths: Seq<nat>, count: int) -> Seq<char>
    decreases count,
{
    if count <= 0 {
        Seq::empty()
    } else {
        cells_text(cells, widths, count - 1) + padded(cells[count - 1], widths[count - 1])
            + seq![' ']
    }
}

/// One line of the table: all its cells, then a line feed.
pub open spec fn line_text(cells: Seq<Seq<char>>, widths: Seq<nat>) -> Seq<char> {
    cells_text(cells, widths, cells.len() as int) + seq!['\n']
}

/// The lines of the first `count` rows, one after the other.
pub open spec fn rows_text(rows: Seq<Seq<Seq<char>>>, widths: Seq<nat>, count: int) -> Seq<char>
    decreases count,
{
    if count <= 0 {
        Seq::empty()
    } else {
        rows_text(rows, widths, count - 1) + line_text(rows[count - 1], widths)
    }
}

/// The mathematical content of a [`Table`].
pub struct TableView {
    pub headers: Seq<Seq<char>>,
    pub rows: Seq<Seq<Seq<char>>>,
}

impl TableView {
    /// Every row has one cell for each header.
    pub open spec fn wf(self) -> bool {
        forall|j: int| 0 <= j < self.rows.len() ==> (#[trigger] self.rows[j]).len()
            == self.headers.len()
    }

    /// The width of each column.
    pub open spec fn widths(self) -> Seq<nat> {
        Seq::new(self.headers.len(), |c: int| column_width(self.headers[c], self.rows, c))
    }

    /// The table as text: the line of headers, then one line for each row.
    pub open spec fn text(self) -> Seq<char> {
        line_text(self.headers, self.widths()) + rows_text(
            self.rows,
            self.widths(),
            self.rows.len() as int,
        )
    }
}

/// The texts held by a run of strings, place by place.
pub open spec fn texts(cells: Seq<String>) -> Seq<Seq<char>> {
    cells.map_values(|cell: String| cell@)
}

/// The texts held by a run of rows, place by place.
pub open spec fn grid(rows: Seq<Vec<String>>) -> Seq<Seq<Seq<char>>> {
    rows.map_values(|row: Vec<String>| texts(row@))
}

/// Widths as counted in memory, taken as the natural numbers they are.
pub open spec fn measures(widths: Seq<usize>) -> Seq<nat> {
    widths.map_values(|w: usize| w as nat)
}

/// Headers and rows of text, to be laid out in columns.
#[derive(Debug)]
pub struct Table {
    headers: Vec<String>,
    rows: Vec<Vec<String>>,
}

impl View for Table {
    type V = TableView;

    closed spec fn view(&self) -> TableView {
        TableView { headers: texts(self.headers@), rows: grid(self.rows@) }
    }
}

impl Table {
    /// A table with the given headers and no rows yet.
    pub fn new(headers: Vec<String>) -> (r: Self)
        ensures
            r@ == (TableView { headers: texts(headers@), rows: Seq::empty() }),
            r@.wf(),
    {
        let r = Table { headers, rows: Vec::new() };
        assert(r@.rows =~= Seq::empty());
        r
    }

    /// Adds a row below the others. It must hold one cell for each header.
    pub fn add_row(&mut self, row: Vec<String>)
        requires
            old(self)@.wf(),
            row@.len() == old(self)@.headers.len(),
        ensures
            final(self)@ == (TableView {
                rows: old(self)@.rows.push(texts(row@)),
                ..old(self)@
            }),
            final(self)@.wf(),
    {
        let ghost before = self@;
        self.rows.push(row);
        proof {
            assert(self@.rows =~= before.rows.push(texts(row@)));
        }
    }

    /// The width of each column: the most bytes that its header or any of
    /// its cells takes up.
    pub fn get_column_widths(&self) -> (r: Vec<usize>)
        requires
            self@.wf(),
        ensures
            r@.len() == self@.headers.len(),
            measures(r@) == self@.widths(),
    {
        let mut column_widths: Vec<usize> = Vec::new();
        let mut column: usize = 0;
        while column < self.headers.len()
            invariant
                self@.wf(),
                column <= self.headers.len(),
                column_widths@.len() == column,
                forall|c: int|
                    0 <= c < column ==> column_widths@[c] == #[trigger] self@.widths()[c],
            decreases self.headers.len() - column,
        {
            let mut width: usize = byte_length(self.headers[column].as_str());
            let mut done: usize = 0;
            while done < self.rows.len()
                invariant
                    self@.wf(),
                    column < self.headers.len(),
                    done <= self.rows.len(),
                    width == column_width(
                        self@.headers[column as int],
                        self@.rows.take(done as int),
                        column as int,
                    ),
                decreases self.rows.len() - done,
            {
                assert(self@.rows[done as int].len() == self@.headers.len());
                let cell = byte_length(self.rows[done][column].as_str());
                proof {
                    let upto = self@.rows.take(done + 1);
                    assert(upto.drop_last() =~= self@.rows.take(done as int));
                }
                if cell > width {
                    width = cell;
                }
                done = done + 1;
            }
            proof {
                assert(self@.rows.take(done as int) =~= self@.rows);
            }
            column_widths.push(width);
            column = column + 1;
        }
        column_widths
    }

    /// Appends one line to `out`: each cell padded to the width of its
    /// column and followed by a blank, then a line feed.
    fn push_line(out: &mut String, cells: &Vec<String>, widths: &Vec<usize>)
        requires
            cells@.len() <= widths@.len(),
        ensures
            final(out)@ == old(out)@ + line_text(texts(cells@), measures(widths@)),
    {
        proof {
            reveal_strlit(" ");
            reveal_strlit("\n");
        }
        let ghost wide = measures(widths@);
        let mut column: usize = 0;
        while column < cells.len()
            invariant
                column <= cells@.len() <= widths@.len(),
                wide == measures(widths@),
                out@ == old(out)@ + cells_text(texts(cells@), wide, column as int),
                " "@ == seq![' '],
            decreases cells.len() - column,
        {
            push_padded(out, cells[column].as_str(), widths[column]);
            out.append(" ");
            column = column + 1;
        }
        out.append("\n");
    }

    /// The table as text, ready to be written out: the line of headers, then
    /// one line for each row.
    pub fn print(&self) -> (r: String)
        requires
            self@.wf(),
        ensures
            r@ == self@.text(),
    {
        let column_widths = self.get_column_widths();
        let ghost wide = measures(column_widths@);
        let mut r = String::new();
        Self::push_line(&mut r, &self.headers, &column_widths);
        let mut done: usize = 0;
        while done < self.rows.len()
            invariant
                self@.wf(),
                done <= self.rows.len(),
                column_widths@.len() == self@.headers.len(),
                wide == measures(column_widths@),
                wide == self@.widths(),
                r@ == line_text(self@.headers, wide) + rows_text(self@.rows, wide, done as int),
            decreases self.rows.len() - done,
        {
            assert(self@.rows[done as int].len() == self@.headers.len());
            Self::push_line(&mut r, &self.rows[done], &column_widths);
            done = done + 1;
        }
        r
    }
}

} // verus!
