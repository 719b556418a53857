//! Decoded rows as the views receive them: plain text, column by column.

use vstd::prelude::*;

verus! {

/// One column of one row: the column's name and the value's text, as the
/// reader rendered it.
#[derive(Clone, Debug, PartialEq, Eq)]
pub struct Column {
    pub name: String,
    pub value: String,
}

/// One decoded row: its columns in the order the schema declares them.
#[derive(Clone, Debug, PartialEq, Eq)]
pub struct Row {
    pub columns: Vec<Column>,
}

/// What a `Column` holds, as mathematical text.
pub struct ColumnView {
    pub name: Seq<char>,
    pub value: Seq<char>,
}

/// What a `Row` holds: its columns in order.
pub type RowView = Seq<ColumnView>;

impl View for Column {
    type V = ColumnView;

    open spec fn view(&self) -> ColumnView {
        ColumnView { name: self.name@, value: self.value@ }
    }
}

impl View for Row {
    type V = RowView;

    open spec fn view(&self) -> RowView {
        self.columns@.map_values(|c: Column| c@)
    }
}

/// The views of a sequence of rows, in the same order.
pub open spec fn rows_view(rows: Seq<Row>) -> Seq<RowView> {
    rows.map_values(|r: Row| r@)
}

/// The column names of a row, in column order.
pub open spec fn names(row: RowView) -> Seq<Seq<char>> {
    row.map_values(|c: ColumnView| c.name)
}

/// The value texts of a row, in column order.
pub open spec fn values(row: RowView) -> Seq<Seq<char>> {
    row.map_values(|c: ColumnView| c.value)
}

impl Column {
    /// A column named `name` holding the text `value`.
    pub fn new(name: String, value: String) -> (column: Column)
        ensures
            column@ == (ColumnView { name: name@, value: value@ }),
    {
        Column { name, value }
    }
}

impl Row {
    /// A row of the given columns, in the given order.
    pub fn new(columns: Vec<Column>) -> (row: Row)
        ensures
            row.columns == columns,
    {
        Row { columns }
    }

    /// The number of columns.
    pub fn len(&self) -> (n: usize)
        ensures
            n == self@.len(),
    {
        self.columns.len()
    }
}

} // verus!
