use parquet_viewer::csv::{CsvFormatter, CsvState};
use parquet_viewer::row::{Column, Row};

fn csv_row(cells: &[(&str, &str)]) -> Row {
    Row::new(
        cells
            .iter()
            .map(|(name, value)| Column::new(name.to_string(), value.to_string()))
            .collect(),
    )
}

#[test]
fn a_new_formatter_awaits_the_header() {
    assert_eq!(CsvFormatter::new().state(), CsvState::AwaitingHeader);
}

#[test]
fn the_first_row_brings_the_header() {
    let mut formatter = CsvFormatter::new();
    let text = formatter.push_row(&csv_row(&[("a", "1"), ("b", "x")]));
    assert_eq!(text, "a,b\n1,x\n");
    assert_eq!(formatter.state(), CsvState::Emitting);
}

#[test]
fn later_rows_are_data_lines_only() {
    let mut formatter = CsvFormatter::new();
    formatter.push_row(&csv_row(&[("a", "1"), ("b", "x")]));
    assert_eq!(formatter.push_row(&csv_row(&[("a", "2"), ("b", "y")])), "2,y\n");
    assert_eq!(formatter.push_row(&csv_row(&[("a", "3"), ("b", "z")])), "3,z\n");
    assert_eq!(formatter.state(), CsvState::Emitting);
}

#[test]
fn header_lists_columns_in_declaration_order() {
    let mut formatter = CsvFormatter::new();
    let text = formatter.push_row(&csv_row(&[("zeta", "1"), ("alpha", "2"), ("mid", "3")]));
    assert_eq!(text, "zeta,alpha,mid\n1,2,3\n");
}

#[test]
fn header_appears_once_before_the_first_data_line() {
    let mut formatter = CsvFormatter::new();
    let mut text = String::new();
    for n in 0..5 {
        text.push_str(&formatter.push_row(&csv_row(&[("id", &n.to_string()), ("tag", "t")])));
    }
    let lines: Vec<&str> = text.lines().collect();
    assert_eq!(lines, vec!["id,tag", "0,t", "1,t", "2,t", "3,t", "4,t"]);
    assert_eq!(lines.iter().filter(|line| **line == "id,tag").count(), 1);
}

#[test]
fn a_single_column_has_no_separator() {
    let mut formatter = CsvFormatter::new();
    assert_eq!(formatter.push_row(&csv_row(&[("only", "v")])), "only\nv\n");
}

#[test]
fn a_row_without_columns_is_two_empty_lines_then_one() {
    let mut formatter = CsvFormatter::new();
    assert_eq!(formatter.push_row(&csv_row(&[])), "\n\n");
    assert_eq!(formatter.push_row(&csv_row(&[])), "\n");
}

#[test]
fn values_are_neither_quoted_nor_escaped() {
    let mut formatter = CsvFormatter::new();
    let text = formatter.push_row(&csv_row(&[("a", "x,y"), ("b", "\"q\""), ("c", "")]));
    assert_eq!(text, "a,b,c\nx,y,\"q\",\n");
}
