//! Rows as comma-separated lines under one header line.
//!
//! Values are written as they are: a value that holds a comma or a line
//! break is neither quoted nor escaped, so such a line cannot be split back
//! into its values.

use crate::row::{names, values, Row, RowView};
use crate::text::{concat, concat_push, joined, joined_push, line_end, push_char, push_text};
use vstd::prelude::*;

verus! {

/// What stands between two fields of a line.
pub open spec fn csv_separator() -> Seq<char> {
    seq![',']
}

/// The header line of a row, without its line end: the column names in
/// column order, separated by commas.
pub open spec fn csv_header(row: RowView) -> Seq<char> {
    joined(names(row), csv_separator())
}

/// The data line of a row, without its line end: the values in column
/// order, separated by commas.
pub open spec fn csv_record(row: RowView) -> Seq<char> {
    joined(values(row), csv_separator())
}

/// The lines of the CSV text of `rows`: none for no rows; else the header
/// of the first row, then one data line per row, in row order.
pub open spec fn csv_lines(rows: Seq<RowView>) -> Seq<Seq<char>> {
    if rows.len() == 0 {
        Seq::empty()
    } else {
        seq![csv_header(rows[0])] + rows.map_values(|r: RowView| csv_record(r))
    }
}

/// The CSV text of `rows`: each of its lines followed by a line end.
pub open spec fn csv_text(rows: Seq<RowView>) -> Seq<char> {
    concat(csv_lines(rows).map_values(|line: Seq<char>| line + line_end()))
}

/// Where a CSV formatter stands.
#[derive(Clone, Copy, Debug, PartialEq, Eq, Structural)]
pub enum CsvState {
    /// No row has been written: the next one brings the header with it.
    AwaitingHeader,
    /// The header is written: every further row is a data line only.
    Emitting,
}

/// What a formatter in `state` writes for `row`: in `AwaitingHeader` the
/// header line and then the data line, in `Emitting` the data line alone.
pub open spec fn csv_chunk(state: CsvState, row: RowView) -> Seq<char> {
    if state is AwaitingHeader {
        csv_header(row) + line_end() + csv_record(row) + line_end()
    } else {
        csv_record(row) + line_end()
    }
}

/// Where a fresh formatter stands once it has been given `count` rows.
pub open spec fn csv_state_after(count: nat) -> CsvState {
    if count == 0 {
        CsvState::AwaitingHeader
    } else {
        CsvState::Emitting
    }
}

/// Everything a fresh formatter has written once `rows` have been pushed
/// in order.
pub open spec fn csv_stream(rows: Seq<RowView>) -> Seq<char>
    decreases rows.len(),
{
    if rows.len() == 0 {
        Seq::empty()
    } else {
        csv_stream(rows.drop_last()) + csv_chunk(
            csv_state_after((rows.len() - 1) as nat),
            rows.last(),
        )
    }
}

/// Writes rows as CSV, one row at a time.
///
/// The header is taken from the first row that is pushed and written before
/// it; a formatter that is never given a row never writes a header.
#[derive(Clone, Copy, Debug, PartialEq, Eq, Structural)]
pub struct CsvFormatter {
    state: CsvState,
}

impl View for CsvFormatter {
    type V = CsvState;

    closed spec fn view(&self) -> CsvState {
        self.state
    }
}

fn push_names(out: &mut String, row: &Row)
    ensures
        final(out)@ == old(out)@ + csv_header(row@),
{
    let ghost parts = names(row@);
    let mut i: usize = 0;
    while i < row.columns.len()
        invariant
            i <= row.columns@.len(),
            parts == names(row@),
            out@ == old(out)@ + joined(parts.take(i as int), csv_separator()),
        decreases row.columns@.len() - i,
    {
        proof {
            joined_push(parts.take(i as int), csv_separator(), parts[i as int]);
            assert(parts.take(i + 1) == parts.take(i as int).push(parts[i as int]));
            assert(parts[i as int] == row.columns@[i as int].name@);
        }
        if i > 0 {
            push_char(out, ',');
        }
        push_text(out, row.columns[i].name.as_str());
        i = i + 1;
    }
    proof {
        assert(parts.take(i as int) == parts);
    }
}

fn push_values(out: &mut String, row: &Row)
    ensures
        final(out)@ == old(out)@ + csv_record(row@),
{
    let ghost parts = values(row@);
    let mut i: usize = 0;
    while i < row.columns.len()
        invariant
            i <= row.columns@.len(),
            parts == values(row@),
            out@ == old(out)@ + joined(parts.take(i as int), csv_separator()),
        decreases row.columns@.len() - i,
    {
        proof {
            joined_push(parts.take(i as int), csv_separator(), parts[i as int]);
            assert(parts.take(i + 1) == parts.take(i as int).push(parts[i as int]));
            assert(parts[i as int] == row.columns@[i as int].value@);
        }
        if i > 0 {
            push_char(out, ',');
        }
        push_text(out, row.columns[i].value.as_str());
        i = i + 1;
    }
    proof {
        assert(parts.take(i as int) == parts);
    }
}

impl CsvFormatter {
    /// A formatter that has written nothing yet.
    pub fn new() -> (formatter: CsvFormatter)
        ensures
            formatter@ == CsvState::AwaitingHeader,
    {
        CsvFormatter { state: CsvState::AwaitingHeader }
    }

    /// Where the formatter stands.
    pub fn state(&self) -> (state: CsvState)
        ensures
            state == self@,
    {
        self.state
    }

    /// Writes one row and returns the text for it: the header line first if
    /// this is the first row, then the row's values on one line. From then
    /// on the formatter is `Emitting`.
    pub fn push_row(&mut self, row: &Row) -> (out: String)
        ensures
            out@ == csv_chunk(old(self)@, row@),
            final(self)@ == CsvState::Emitting,
    {
        let mut out = String::new();
        match self.state {
            CsvState::AwaitingHeader => {
                push_names(&mut out, row);
                push_char(&mut out, '\n');
            },
            CsvState::Emitting => {},
        }
        push_values(&mut out, row);
        push_char(&mut out, '\n');
        self.state = CsvState::Emitting;
        out
    }
}

/// The text of a formatter's chunks, taken together, is the CSV text of the
/// rows it was given: pushing rows one by one writes the same as formatting
/// them all at once.
pub proof fn csv_stream_is_text(rows: Seq<RowView>)
    ensures
        csv_stream(rows) == csv_text(rows),
    decreases rows.len(),
{
    let ended = |line: Seq<char>| line + line_end();
    if rows.len() == 0 {
        assert(csv_lines(rows).map_values(ended) == Seq::<Seq<char>>::empty());
    } else {
        let before = rows.drop_last();
        let last = rows.last();
        csv_stream_is_text(before);
        let lines = csv_lines(rows);
        if rows.len() == 1 {
            assert(csv_lines(before).map_values(ended) == Seq::<Seq<char>>::empty());
            assert(lines == seq![csv_header(last), csv_record(last)]);
            let one = seq![csv_header(last) + line_end()];
            assert(lines.map_values(ended) == one.push(csv_record(last) + line_end()));
            concat_push(one, csv_record(last) + line_end());
            assert(one == Seq::<Seq<char>>::empty().push(csv_header(last) + line_end()));
            concat_push(Seq::<Seq<char>>::empty(), csv_header(last) + line_end());
        } else {
            assert(before[0] == rows[0]);
            assert(lines == csv_lines(before).push(csv_record(last)));
            assert(lines.map_values(ended) == csv_lines(before).map_values(ended).push(
                csv_record(last) + line_end(),
            ));
            concat_push(csv_lines(before).map_values(ended), csv_record(last) + line_end());
        }
    }
}

/// A view of no rows has no CSV text at all: no header line is written
/// where no row follows it.
pub proof fn csv_of_no_rows_is_empty()
    ensures
        csv_lines(Seq::<RowView>::empty()) == Seq::<Seq<char>>::empty(),
        csv_text(Seq::<RowView>::empty()) == Seq::<char>::empty(),
        csv_stream(Seq::<RowView>::empty()) == Seq::<char>::empty(),
{
    csv_stream_is_text(Seq::<RowView>::empty());
}

/// Where there are rows, the header is the first line and the only one
/// that is no row's data line: it lists the first row's column names in
/// column order, and after it comes one data line per row, in row order.
/// A formatter writes a header only while it awaits one, and never awaits
/// one again.
pub proof fn csv_header_once_and_first(rows: Seq<RowView>)
    requires
        rows.len() > 0,
    ensures
        csv_lines(rows).len() == rows.len() + 1,
        csv_lines(rows)[0] == joined(names(rows[0]), csv_separator()),
        names(rows[0]).len() == rows[0].len(),
        forall|c: int| 0 <= c < rows[0].len() ==> (#[trigger] names(rows[0])[c]) == rows[0][c].name,
        forall|i: int|
            0 <= i < rows.len() ==> (#[trigger] csv_lines(rows)[i + 1]) == csv_record(rows[i]),
        forall|row: RowView| #[trigger]
            csv_chunk(CsvState::Emitting, row) == csv_record(row) + line_end(),
{
}

} // verus!
