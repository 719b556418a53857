//! The metadata summary and the row count, as lines of text.

use crate::text::{concat, decimal_text, line_end, push_char, push_signed, push_text, push_unsigned};
use vstd::prelude::*;

verus! {

/// What the file's metadata says of the file as a whole.
#[derive(Clone, Debug, PartialEq, Eq)]
pub struct FileSummary {
    /// The application that wrote the file, where the file names one.
    pub created_by: Option<String>,
    /// The number of leaf columns of the schema.
    pub num_columns: usize,
    /// The number of rows the file records. It is the file's word, and a
    /// damaged file may record a negative one.
    pub num_rows: i64,
    /// The number of row groups.
    pub num_row_groups: usize,
}

/// What a `FileSummary` holds, as mathematical values.
pub struct SummaryView {
    pub created_by: Option<Seq<char>>,
    pub num_columns: nat,
    pub num_rows: int,
    pub num_row_groups: nat,
}

impl View for FileSummary {
    type V = SummaryView;

    open spec fn view(&self) -> SummaryView {
        SummaryView {
            created_by: match self.created_by {
                Some(s) => Some(s@),
                None => None,
            },
            num_columns: self.num_columns as nat,
            num_rows: self.num_rows as int,
            num_row_groups: self.num_row_groups as nat,
        }
    }
}

/// A label, a colon and a space, and a number in decimal.
pub open spec fn labelled(label: Seq<char>, n: int) -> Seq<char> {
    label + seq![':', ' '] + decimal_text(n)
}

/// The line that reports a row count, without its line end.
pub open spec fn count_line(num_rows: int) -> Seq<char> {
    labelled("num_rows"@, num_rows)
}

/// The output of the row count: its one line.
pub open spec fn count_text(num_rows: int) -> Seq<char> {
    count_line(num_rows) + line_end()
}

/// The lines of the summary, in their fixed order: the creator where there
/// is one, then the numbers of columns, of rows and of row groups.
pub open spec fn summary_lines(summary: SummaryView) -> Seq<Seq<char>> {
    let numbers = seq![
        labelled("num_columns"@, summary.num_columns as int),
        count_line(summary.num_rows),
        labelled("num_row_groups"@, summary.num_row_groups as int),
    ];
    match summary.created_by {
        Some(creator) => seq![creator] + numbers,
        None => numbers,
    }
}

/// The output of the summary: each of its lines followed by a line end.
pub open spec fn summary_text(summary: SummaryView) -> Seq<char> {
    concat(summary_lines(summary).map_values(|line: Seq<char>| line + line_end()))
}

fn push_label(out: &mut String, label: &str)
    ensures
        final(out)@ == old(out)@ + label@ + seq![':', ' '],
{
    push_text(out, label);
    push_char(out, ':');
    push_char(out, ' ');
    proof {
        assert(out@ == old(out)@ + label@ + seq![':', ' ']);
    }
}

fn push_count_line(out: &mut String, num_rows: i64)
    ensures
        final(out)@ == old(out)@ + (count_line(num_rows as int) + line_end()),
{
    push_label(out, "num_rows");
    push_signed(out, num_rows);
    push_char(out, '\n');
    proof {
        assert(out@ == old(out)@ + (count_line(num_rows as int) + line_end()));
    }
}

fn push_size_line(out: &mut String, label: &str, n: usize)
    ensures
        final(out)@ == old(out)@ + (labelled(label@, n as int) + line_end()),
{
    push_label(out, label);
    push_unsigned(out, n as u64);
    push_char(out, '\n');
    proof {
        assert(out@ == old(out)@ + (labelled(label@, n as int) + line_end()));
    }
}

/// The output of the row count for a file that records `num_rows` rows:
/// the line `num_rows: ` and the number. Nothing but the number of rows
/// goes into it.
pub fn row_count_text(num_rows: i64) -> (out: String)
    ensures
        out@ == count_text(num_rows as int),
{
    let mut out = String::new();
    push_count_line(&mut out, num_rows);
    out
}

/// The output of the metadata summary: the creator on a line of its own
/// where the file names one, then `num_columns`, `num_rows` and
/// `num_row_groups`, each on its line with its number. The summary is only
/// read.
pub fn metadata_text(summary: &FileSummary) -> (out: String)
    ensures
        out@ == summary_text(summary@),
{
    let ghost ended = |line: Seq<char>| line + line_end();
    let ghost numbers = seq![
        labelled("num_columns"@, summary.num_columns as int),
        count_line(summary.num_rows as int),
        labelled("num_row_groups"@, summary.num_row_groups as int),
    ];
    let ghost lead: Seq<Seq<char>> = match summary@.created_by {
        Some(creator) => seq![creator],
        None => Seq::empty(),
    };
    let mut out = String::new();
    match &summary.created_by {
        Some(creator) => {
            push_text(&mut out, creator.as_str());
            push_char(&mut out, '\n');
            assert(out@ == creator@ + line_end());
        },
        None => {},
    }
    proof {
        assert(out@ == concat(lead.map_values(ended))) by {
            if lead.len() == 1 {
                assert(lead.map_values(ended).drop_last() == Seq::<Seq<char>>::empty());
                assert(concat(lead.map_values(ended).drop_last()) == Seq::<char>::empty());
                assert(lead.map_values(ended).last() == lead[0] + line_end());
            }
        }
    }
    push_size_line(&mut out, "num_columns", summary.num_columns);
    push_count_line(&mut out, summary.num_rows);
    push_size_line(&mut out, "num_row_groups", summary.num_row_groups);
    proof {
        let lines = summary_lines(summary@);
        assert(lines == lead + numbers);
        let l0 = lead.map_values(ended);
        let l1 = l0.push(numbers[0] + line_end());
        let l2 = l1.push(numbers[1] + line_end());
        let l3 = l2.push(numbers[2] + line_end());
        crate::text::concat_push(l0, numbers[0] + line_end());
        crate::text::concat_push(l1, numbers[1] + line_end());
        crate::text::concat_push(l2, numbers[2] + line_end());
        assert(lines.map_values(ended) == l3);
    }
    out
}

/// The summary always ends in its three numbers, in the same order, and the
/// creator, where there is one, comes before them: three lines or four.
pub proof fn summary_order(summary: SummaryView)
    ensures
        summary.created_by is None ==> summary_lines(summary).len() == 3,
        summary.created_by is Some ==> summary_lines(summary).len() == 4 && summary_lines(
            summary,
        )[0] == summary.created_by->0,
        ({
            let lines = summary_lines(summary);
            let n = lines.len();
            &&& lines[n - 3] == labelled("num_columns"@, summary.num_columns as int)
            &&& lines[n - 2] == labelled("num_rows"@, summary.num_rows)
            &&& lines[n - 1] == labelled("num_row_groups"@, summary.num_row_groups as int)
        }),
{
}

} // verus!
