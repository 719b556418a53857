//! The row display: a bounded window of rows, written as CSV or JSON.

use crate::csv::{
    csv_chunk, csv_state_after, csv_stream, csv_stream_is_text, csv_text, CsvFormatter, CsvState,
};
use crate::error::ViewError;
use crate::json::{
    json_array, json_chunk, json_state_after, json_stream, json_stream_is_array, json_tail,
    JsonFormatter, JsonState,
};
use crate::limit::{bounded_view, least, RowLimiter};
use crate::options::{display_format, requested_format, requested_limit, row_limit, Format};
use crate::row::{rows_view, Row, RowView};
use crate::text::{line_end, push_char, push_text};
use vstd::prelude::*;

verus! {

/// The text of the display of `rows` in `format`, as it goes to the output:
/// the CSV lines, or the JSON array on one line.
pub open spec fn display_text(format: Format, rows: Seq<RowView>) -> Seq<char> {
    match format {
        Format::Csv => csv_text(rows),
        Format::Json => json_array(rows) + line_end(),
    }
}

/// What a display writes for one more row, given whether it has written a
/// row before.
pub open spec fn display_chunk(format: Format, started: bool, row: RowView) -> Seq<char> {
    match format {
        Format::Csv => csv_chunk(
            if started {
                CsvState::Emitting
            } else {
                CsvState::AwaitingHeader
            },
            row,
        ),
        Format::Json => json_chunk(
            if started {
                JsonState::Emitting
            } else {
                JsonState::AwaitingFirst
            },
            row,
        ),
    }
}

/// What a display writes when it ends: nothing for CSV; for JSON what
/// closes the array, and the line end.
pub open spec fn display_tail(format: Format, started: bool) -> Seq<char> {
    match format {
        Format::Csv => Seq::empty(),
        Format::Json => json_tail(
            if started {
                JsonState::Emitting
            } else {
                JsonState::AwaitingFirst
            },
        ) + line_end(),
    }
}

/// Everything a fresh display has written once `rows` have been pushed in
/// order, before it ends.
pub open spec fn display_stream(format: Format, rows: Seq<RowView>) -> Seq<char> {
    match format {
        Format::Csv => csv_stream(rows),
        Format::Json => json_stream(rows),
    }
}

/// Where a display stands: its format, the number of rows it may still
/// show, and whether it has shown one.
pub struct DisplayView {
    pub format: Format,
    pub remaining: nat,
    pub started: bool,
}

/// All that a display in `state` writes from here on when it is driven over
/// `source`: a row is pulled while the display wants one and the source has
/// one, each is pushed, and then the display is ended.
pub open spec fn driven(state: DisplayView, source: Seq<RowView>) -> Seq<char>
    decreases source.len(),
{
    if state.remaining == 0 || source.len() == 0 {
        display_tail(state.format, state.started)
    } else {
        display_chunk(state.format, state.started, source[0]) + driven(
            DisplayView {
                format: state.format,
                remaining: (state.remaining - 1) as nat,
                started: true,
            },
            source.drop_first(),
        )
    }
}

/// One run of the row display: a limit on the rows and a format for them.
///
/// The display owns no rows and reads none. Whoever holds the reader asks
/// `wants_row` before each pull, pushes each row that came, writes out what
/// `push_row` returns, and at the end writes out what `finish` returns.
#[derive(Clone, Copy, Debug)]
pub struct Display {
    limiter: RowLimiter,
    writer: Writer,
}

/// The formatter of a display, which fixes its format.
#[derive(Clone, Copy, Debug)]
enum Writer {
    Csv(CsvFormatter),
    Json(JsonFormatter),
}

impl View for Display {
    type V = DisplayView;

    closed spec fn view(&self) -> DisplayView {
        match self.writer {
            Writer::Csv(csv) => DisplayView {
                format: Format::Csv,
                remaining: self.limiter@,
                started: csv@ is Emitting,
            },
            Writer::Json(json) => DisplayView {
                format: Format::Json,
                remaining: self.limiter@,
                started: json@ is Emitting,
            },
        }
    }
}

impl Display {
    /// A display of at most `limit` rows in `format` that has shown nothing
    /// yet.
    pub fn new(limit: usize, format: Format) -> (display: Display)
        ensures
            display@ == (DisplayView { format, remaining: limit as nat, started: false }),
    {
        Display {
            limiter: RowLimiter::new(limit),
            writer: match format {
                Format::Csv => Writer::Csv(CsvFormatter::new()),
                Format::Json => Writer::Json(JsonFormatter::new()),
            },
        }
    }

    /// A display for the two optional arguments of an invocation.
    ///
    /// An absent count means ten rows and an absent format means JSON. A
    /// count that is not a non-negative integer, or a format that is neither
    /// `csv` nor `json`, is an `InvalidArgument`; since no display exists
    /// then, no row can have been asked for.
    pub fn start(count: Option<&str>, format: Option<&str>) -> (r: Result<Display, ViewError>)
        ensures
            match (
                requested_limit(
                    match count {
                        Some(s) => Some(s@),
                        None => None,
                    },
                ),
                requested_format(
                    match format {
                        Some(s) => Some(s@),
                        None => None,
                    },
                ),
            ) {
                (Ok(limit), Ok(f)) => r matches Ok(display) && display@ == (DisplayView {
                    format: f,
                    remaining: limit as nat,
                    started: false,
                }),
                _ => r matches Err(e) && e == ViewError::InvalidArgument,
            },
    {
        let limit = match row_limit(count) {
            Ok(n) => n,
            Err(e) => {
                return Err(e);
            },
        };
        let chosen = match display_format(format) {
            Ok(f) => f,
            Err(e) => {
                return Err(e);
            },
        };
        Ok(Display::new(limit, chosen))
    }

    /// The format of this display.
    pub fn format(&self) -> (format: Format)
        ensures
            format == self@.format,
    {
        match self.writer {
            Writer::Csv(_) => Format::Csv,
            Writer::Json(_) => Format::Json,
        }
    }

    /// Whether another row should be pulled: the limit is not yet reached.
    pub fn wants_row(&self) -> (wanted: bool)
        ensures
            wanted == (self@.remaining > 0),
    {
        self.limiter.wants_row()
    }

    /// Shows one row and returns the text for it.
    ///
    /// While the limit is not reached the row is written in the display's
    /// format and counts against the limit. Once it is reached the row is
    /// passed over: nothing is written and the display stays as it was.
    pub fn push_row(&mut self, row: &Row) -> (out: String)
        ensures
            old(self)@.remaining > 0 ==> {
                &&& out@ == display_chunk(old(self)@.format, old(self)@.started, row@)
                &&& final(self)@ == (DisplayView {
                    format: old(self)@.format,
                    remaining: (old(self)@.remaining - 1) as nat,
                    started: true,
                })
            },
            old(self)@.remaining == 0 ==> out@ == Seq::<char>::empty() && final(self)@ == old(
                self,
            )@,
    {
        match self.limiter.offer(Some(row)) {
            Some(shown) => match self.writer {
                Writer::Csv(mut csv) => {
                    let out = csv.push_row(shown);
                    self.writer = Writer::Csv(csv);
                    out
                },
                Writer::Json(mut json) => {
                    let out = json.push_row(shown);
                    self.writer = Writer::Json(json);
                    out
                },
            },
            None => String::new(),
        }
    }

    /// Ends the display and returns the text that completes it: nothing
    /// for CSV; for JSON the closing bracket, after the opening one where no
    /// row was shown, and the line end.
    pub fn finish(self) -> (out: String)
        ensures
            out@ == display_tail(self@.format, self@.started),
    {
        match self.writer {
            Writer::Csv(_) => String::new(),
            Writer::Json(json) => {
                let mut out = json.finish();
                push_char(&mut out, '\n');
                out
            },
        }
    }
}

/// Pushing one more row extends the stream by that row's chunk.
proof fn display_stream_push(format: Format, rows: Seq<RowView>, row: RowView)
    ensures
        display_stream(format, rows.push(row)) == display_stream(format, rows) + display_chunk(
            format,
            rows.len() > 0,
            row,
        ),
{
    let all = rows.push(row);
    assert(all.drop_last() == rows);
    assert(all.last() == row);
    assert(csv_state_after(rows.len()) == if rows.len() > 0 {
        CsvState::Emitting
    } else {
        CsvState::AwaitingHeader
    });
    assert(json_state_after(rows.len()) == if rows.len() > 0 {
        JsonState::Emitting
    } else {
        JsonState::AwaitingFirst
    });
}

/// A stream and the display's ending make the display's text.
proof fn display_stream_ends(format: Format, rows: Seq<RowView>)
    ensures
        display_stream(format, rows) + display_tail(format, rows.len() > 0) == display_text(
            format,
            rows,
        ),
{
    match format {
        Format::Csv => {
            csv_stream_is_text(rows);
            assert(csv_stream(rows) + Seq::<char>::empty() == csv_stream(rows));
        },
        Format::Json => {
            json_stream_is_array(rows);
            let tail = json_tail(json_state_after(rows.len()));
            assert(json_stream(rows) + (tail + line_end()) == (json_stream(rows) + tail)
                + line_end());
        },
    }
}

/// A display that has shown `done` and is driven over `source` writes, all
/// in all, the text of `done` followed by the bounded view of `source`.
proof fn driven_from(format: Format, done: Seq<RowView>, remaining: nat, source: Seq<RowView>)
    ensures
        display_stream(format, done) + driven(
            DisplayView { format, remaining, started: done.len() > 0 },
            source,
        ) == display_text(format, done + bounded_view(source, remaining)),
    decreases source.len(),
{
    let state = DisplayView { format, remaining, started: done.len() > 0 };
    if remaining == 0 || source.len() == 0 {
        assert(bounded_view(source, remaining) == Seq::<RowView>::empty());
        assert(done + bounded_view(source, remaining) == done);
        display_stream_ends(format, done);
    } else {
        let row = source[0];
        let rest = source.drop_first();
        let more = done.push(row);
        display_stream_push(format, done, row);
        driven_from(format, more, (remaining - 1) as nat, rest);
        assert(more + bounded_view(rest, (remaining - 1) as nat) == done + bounded_view(
            source,
            remaining,
        ));
        let next = DisplayView { format, remaining: (remaining - 1) as nat, started: true };
        assert(driven(state, source) == display_chunk(format, state.started, row) + driven(
            next,
            rest,
        ));
        assert(display_stream(format, done) + (display_chunk(format, state.started, row) + driven(
            next,
            rest,
        )) == (display_stream(format, done) + display_chunk(format, state.started, row))
            + driven(next, rest));
    }
}

/// Driving a fresh display over a source writes exactly the text of the
/// source's bounded view: its first `limit` rows, or all of them where it
/// has fewer. What the source holds beyond the view changes nothing, and the
/// separators are those of the rows that were shown, never those of a count
/// made beforehand.
pub proof fn driven_display_is_bounded_text(format: Format, limit: nat, source: Seq<RowView>)
    ensures
        driven(DisplayView { format, remaining: limit, started: false }, source) == display_text(
            format,
            bounded_view(source, limit),
        ),
        bounded_view(source, limit).len() == least(limit, source.len()),
{
    let done = Seq::<RowView>::empty();
    driven_from(format, done, limit, source);
    assert(done + bounded_view(source, limit) == bounded_view(source, limit));
    assert(display_stream(format, done) == Seq::<char>::empty());
    let all = driven(DisplayView { format, remaining: limit, started: false }, source);
    assert(Seq::<char>::empty() + all == all);
}

/// The display of no rows: no output at all in CSV, and the empty array on
/// its line in JSON.
pub proof fn display_of_no_rows()
    ensures
        display_text(Format::Csv, Seq::<RowView>::empty()) == Seq::<char>::empty(),
        display_text(Format::Json, Seq::<RowView>::empty()) == seq!['[', ']', '\n'],
        forall|source: Seq<RowView>|
            bounded_view(source, 0) == Seq::<RowView>::empty(),
{
    crate::csv::csv_of_no_rows_is_empty();
    crate::json::json_of_no_rows_is_empty_array();
    assert(seq!['[', ']'] + line_end() == seq!['[', ']', '\n']);
    assert forall|source: Seq<RowView>| bounded_view(source, 0) == Seq::<RowView>::empty() by {
        assert(bounded_view(source, 0) == Seq::<RowView>::empty());
    }
}

/// The display of the first `limit` rows of `source` in `format`.
///
/// Only the rows of the bounded view are looked at: with a limit of zero
/// none is, and a source shorter than the limit is shown whole.
pub fn display_rows(source: &Vec<Row>, limit: usize, format: Format) -> (out: String)
    ensures
        out@ == display_text(format, bounded_view(rows_view(source@), limit as nat)),
{
    let ghost rows = rows_view(source@);
    let mut display = Display::new(limit, format);
    let mut out = String::new();
    let mut i: usize = 0;
    assert(rows.take(0) == Seq::<RowView>::empty());
    while i < source.len() && display.wants_row()
        invariant
            rows == rows_view(source@),
            i <= source@.len(),
            i <= limit,
            display@ == (DisplayView { format, remaining: (limit - i) as nat, started: i > 0 }),
            out@ == display_stream(format, rows.take(i as int)),
        decreases source@.len() - i,
    {
        let chunk = display.push_row(&source[i]);
        proof {
            display_stream_push(format, rows.take(i as int), rows[i as int]);
            assert(rows.take(i + 1) == rows.take(i as int).push(rows[i as int]));
            assert(rows[i as int] == source@[i as int]@);
        }
        push_text(&mut out, chunk.as_str());
        i = i + 1;
    }
    let tail = display.finish();
    push_text(&mut out, tail.as_str());
    proof {
        assert(i == least(limit as nat, rows.len()));
        assert(rows.take(i as int) == bounded_view(rows, limit as nat));
        display_stream_ends(format, rows.take(i as int));
    }
    out
}

/// The row display for the two optional arguments of an invocation, over a
/// source held in memory.
///
/// The arguments are read before any row is looked at. An absent count
/// means ten rows and an absent format means JSON; a count that is not a
/// non-negative integer, or a format that is neither `csv` nor `json`, is
/// an `InvalidArgument`, whatever the source holds.
pub fn display(source: &Vec<Row>, count: Option<&str>, format: Option<&str>) -> (r: Result<
    String,
    ViewError,
>)
    ensures
        match (
            requested_limit(
                match count {
                    Some(s) => Some(s@),
                    None => None,
                },
            ),
            requested_format(
                match format {
                    Some(s) => Some(s@),
                    None => None,
                },
            ),
        ) {
            (Ok(limit), Ok(f)) => r matches Ok(text) && text@ == display_text(
                f,
                bounded_view(rows_view(source@), limit as nat),
            ),
            _ => r matches Err(e) && e == ViewError::InvalidArgument,
        },
{
    let limit = match row_limit(count) {
        Ok(n) => n,
        Err(e) => {
            return Err(e);
        },
    };
    let chosen = match display_format(format) {
        Ok(f) => f,
        Err(e) => {
            return Err(e);
        },
    };
    Ok(display_rows(source, limit, chosen))
}

} // verus!
