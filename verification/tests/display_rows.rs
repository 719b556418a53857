use parquet_viewer::display::{display, display_rows, Display};
use parquet_viewer::error::ViewError;
use parquet_viewer::options::Format;
use parquet_viewer::row::{Column, Row};

fn table_row(cells: &[(&str, &str)]) -> Row {
    Row::new(
        cells
            .iter()
            .map(|(name, value)| Column::new(name.to_string(), value.to_string()))
            .collect(),
    )
}

fn three_rows() -> Vec<Row> {
    vec![
        table_row(&[("a", "1"), ("b", "\"x\"")]),
        table_row(&[("a", "2"), ("b", "\"y\"")]),
        table_row(&[("a", "3"), ("b", "\"z\"")]),
    ]
}

fn numbered(rows: usize) -> Vec<Row> {
    (0..rows).map(|n| table_row(&[("n", &n.to_string())])).collect()
}

fn stream(mut session: Display, source: &[Row]) -> (String, usize) {
    let mut text = String::new();
    let mut pulled = 0;
    let mut rows = source.iter();
    while session.wants_row() {
        match rows.next() {
            Some(row) => {
                pulled += 1;
                text.push_str(&session.push_row(row));
            }
            None => break,
        }
    }
    text.push_str(&session.finish());
    (text, pulled)
}

#[test]
fn three_rows_as_csv() {
    let text = display(&three_rows(), None, Some("csv")).unwrap();
    assert_eq!(text, "a,b\n1,\"x\"\n2,\"y\"\n3,\"z\"\n");
    let lines: Vec<&str> = text.lines().collect();
    assert_eq!(lines.len(), 4);
    assert_eq!(lines[0], "a,b");
}

#[test]
fn count_of_zero_gives_no_csv_output() {
    assert_eq!(display(&three_rows(), Some("0"), Some("csv")), Ok(String::new()));
    assert_eq!(display_rows(&three_rows(), 0, Format::Csv), "");
}

#[test]
fn count_of_zero_gives_the_empty_json_array() {
    assert_eq!(display(&three_rows(), Some("0"), None), Ok("[]\n".to_string()));
    assert_eq!(display_rows(&three_rows(), 0, Format::Json), "[]\n");
}

#[test]
fn no_rows_as_json_is_the_empty_array() {
    assert_eq!(display(&Vec::new(), None, Some("json")), Ok("[]\n".to_string()));
    assert_eq!(display_rows(&Vec::new(), 10, Format::Json), "[]\n");
}

#[test]
fn no_rows_as_csv_is_empty() {
    assert_eq!(display(&Vec::new(), None, Some("csv")), Ok(String::new()));
    assert_eq!(display_rows(&Vec::new(), 10, Format::Csv), "");
}

#[test]
fn three_rows_as_json() {
    let text = display(&three_rows(), None, None).unwrap();
    assert_eq!(
        text,
        "[{\"a\": 1, \"b\": \"x\"},{\"a\": 2, \"b\": \"y\"},{\"a\": 3, \"b\": \"z\"}]\n"
    );
}

#[test]
fn omitted_count_shows_ten_rows() {
    let source = numbered(25);
    let csv = display(&source, None, Some("csv")).unwrap();
    assert_eq!(csv.lines().count(), 11);
    assert_eq!(csv, display_rows(&source, 10, Format::Csv));
    let json = display(&source, None, None).unwrap();
    assert_eq!(json.matches('{').count(), 10);
    assert_eq!(json, display_rows(&source, 10, Format::Json));
}

#[test]
fn the_view_holds_the_smaller_of_count_and_rows() {
    for limit in 0..7usize {
        for rows in 0..7usize {
            let source = numbered(rows);
            let shown = limit.min(rows);
            let csv = display_rows(&source, limit, Format::Csv);
            let expected_lines = if shown == 0 { 0 } else { shown + 1 };
            assert_eq!(csv.lines().count(), expected_lines);
            let json = display_rows(&source, limit, Format::Json);
            assert_eq!(json.matches('{').count(), shown);
            assert_eq!(json.matches(',').count(), shown.saturating_sub(1));
            assert!(json.starts_with('[') && json.ends_with("]\n"));
            assert_eq!(json, display_rows(&source[..shown].to_vec(), shown, Format::Json));
            assert_eq!(csv, display_rows(&source[..shown].to_vec(), shown, Format::Csv));
        }
    }
}

#[test]
fn a_count_above_the_rows_shows_them_all() {
    let text = display(&three_rows(), Some("100"), Some("csv")).unwrap();
    assert_eq!(text, "a,b\n1,\"x\"\n2,\"y\"\n3,\"z\"\n");
}

#[test]
fn a_count_below_the_rows_shows_a_prefix() {
    assert_eq!(display(&three_rows(), Some("2"), Some("csv")).unwrap(), "a,b\n1,\"x\"\n2,\"y\"\n");
    assert_eq!(
        display(&three_rows(), Some("1"), Some("json")).unwrap(),
        "[{\"a\": 1, \"b\": \"x\"}]\n"
    );
}

#[test]
fn non_integer_count_is_refused_whatever_the_rows() {
    assert_eq!(display(&three_rows(), Some("x"), Some("csv")), Err(ViewError::InvalidArgument));
    assert_eq!(display(&Vec::new(), Some("1.0"), None), Err(ViewError::InvalidArgument));
    assert_eq!(display(&three_rows(), Some(""), None), Err(ViewError::InvalidArgument));
}

#[test]
fn unknown_format_is_refused() {
    assert_eq!(display(&three_rows(), None, Some("xml")), Err(ViewError::InvalidArgument));
    assert_eq!(display(&three_rows(), Some("2"), Some("")), Err(ViewError::InvalidArgument));
}

#[test]
fn non_integer_count_is_refused_before_any_row_is_read() {
    assert!(matches!(Display::start(Some("three"), None), Err(ViewError::InvalidArgument)));
    assert!(matches!(Display::start(Some("3"), Some("xml")), Err(ViewError::InvalidArgument)));
    assert!(matches!(Display::start(Some("-1"), Some("csv")), Err(ViewError::InvalidArgument)));
}

#[test]
fn a_started_display_has_the_defaults() {
    let session = Display::start(None, None).unwrap();
    assert_eq!(session.format(), Format::Json);
    assert!(session.wants_row());
    let (text, pulled) = stream(session, &numbered(30));
    assert_eq!(pulled, 10);
    assert_eq!(text, display_rows(&numbered(30), 10, Format::Json));
}

#[test]
fn streaming_writes_what_formatting_at_once_writes() {
    for format in [Format::Csv, Format::Json] {
        for limit in 0..6usize {
            for rows in 0..6usize {
                let source = numbered(rows);
                let (text, pulled) = stream(Display::new(limit, format), &source);
                assert_eq!(text, display_rows(&source, limit, format));
                assert_eq!(pulled, limit.min(rows));
            }
        }
    }
}

#[test]
fn a_display_at_its_limit_passes_rows_over() {
    let mut session = Display::new(1, Format::Csv);
    assert_eq!(session.push_row(&table_row(&[("a", "1")])), "a\n1\n");
    assert!(!session.wants_row());
    assert_eq!(session.push_row(&table_row(&[("a", "2")])), "");
    assert_eq!(session.finish(), "");
    let mut json = Display::new(0, Format::Json);
    assert_eq!(json.push_row(&table_row(&[("a", "1")])), "");
    assert_eq!(json.finish(), "[]\n");
}

#[test]
fn json_ends_with_the_bracket_and_a_line_end() {
    let mut session = Display::new(5, Format::Json);
    assert_eq!(session.push_row(&table_row(&[("a", "1")])), "[{\"a\": 1}");
    assert_eq!(session.push_row(&table_row(&[("a", "2")])), ",{\"a\": 2}");
    assert_eq!(session.finish(), "]\n");
}
