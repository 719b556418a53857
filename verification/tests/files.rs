use bytes::Bytes;
use parquet::data_type::{ByteArray, ByteArrayType, Int32Type};
use parquet::file::reader::{FileReader, SerializedFileReader};
use parquet::file::writer::SerializedFileWriter;
use parquet::schema::parser::parse_message_type;
use parquet_viewer::command::{route, Command, Verb};
use parquet_viewer::display::Display;
use parquet_viewer::options::Format;
use parquet_viewer::reader::{count_view, schema_view, summary_view};
use parquet_viewer::row::{Column, Row};
use std::sync::Arc;

const TWO_COLUMNS: &str = "message schema { REQUIRED INT32 a; REQUIRED BYTE_ARRAY b (UTF8); }";

/// A file of the two columns `a` and `b`, held in memory, with one row
/// group per slice of rows.
fn file_of(groups: &[&[(i32, &str)]]) -> SerializedFileReader<Bytes> {
    let schema = Arc::new(parse_message_type(TWO_COLUMNS).unwrap());
    let mut buffer: Vec<u8> = Vec::new();
    let mut writer = SerializedFileWriter::new(&mut buffer, schema, Default::default()).unwrap();
    for rows in groups {
        let mut group = writer.next_row_group().unwrap();
        let numbers: Vec<i32> = rows.iter().map(|row| row.0).collect();
        let mut column = group.next_column().unwrap().unwrap();
        column.typed::<Int32Type>().write_batch(&numbers, None, None).unwrap();
        column.close().unwrap();
        let texts: Vec<ByteArray> = rows.iter().map(|row| ByteArray::from(row.1)).collect();
        let mut column = group.next_column().unwrap().unwrap();
        column.typed::<ByteArrayType>().write_batch(&texts, None, None).unwrap();
        column.close().unwrap();
        group.close().unwrap();
    }
    writer.close().unwrap();
    SerializedFileReader::new(Bytes::from(buffer)).unwrap()
}

fn three_row_file() -> SerializedFileReader<Bytes> {
    file_of(&[&[(1, "x"), (2, "y"), (3, "z")]])
}

fn plain(row: &parquet::record::Row) -> Row {
    Row::new(
        row.get_column_iter()
            .map(|(name, field)| Column::new(name.clone(), field.to_string()))
            .collect(),
    )
}

/// Runs a display against a file the way the command line does, and
/// returns the output together with the number of rows that were pulled.
fn shown(reader: &SerializedFileReader<Bytes>, command: Command) -> (String, usize) {
    let (limit, format) = match command {
        Command::Display { limit, format } => (limit, format),
        other => panic!("not a display: {:?}", other),
    };
    let mut display = Display::new(limit, format);
    let mut rows = reader.get_row_iter(None).unwrap();
    let mut text = String::new();
    let mut pulled = 0;
    while display.wants_row() {
        match rows.next() {
            Some(row) => {
                pulled += 1;
                text.push_str(&display.push_row(&plain(&row.unwrap())));
            }
            None => break,
        }
    }
    text.push_str(&display.finish());
    (text, pulled)
}

#[test]
fn display_csv_of_a_three_row_file() {
    let command = route(Some(Verb::Display), true, None, Some("csv")).unwrap();
    let (text, _) = shown(&three_row_file(), command);
    assert_eq!(text, "a,b\n1,\"x\"\n2,\"y\"\n3,\"z\"\n");
    let lines: Vec<&str> = text.lines().collect();
    assert_eq!(lines[0], "a,b");
    assert_eq!(lines.len(), 1 + 3);
}

#[test]
fn display_with_count_zero_of_a_three_row_file() {
    let csv = route(Some(Verb::Display), true, Some("0"), Some("csv")).unwrap();
    assert_eq!(shown(&three_row_file(), csv), (String::new(), 0));
    let json = route(Some(Verb::Display), true, Some("0"), None).unwrap();
    assert_eq!(shown(&three_row_file(), json), ("[]\n".to_string(), 0));
}

#[test]
fn display_json_of_a_file_without_rows() {
    let command = route(Some(Verb::Display), true, None, Some("json")).unwrap();
    assert_eq!(shown(&file_of(&[]), command).0, "[]\n");
    assert_eq!(shown(&file_of(&[&[]]), command).0, "[]\n");
}

#[test]
fn display_csv_of_a_file_without_rows() {
    let command = route(Some(Verb::Display), true, None, Some("csv")).unwrap();
    assert_eq!(shown(&file_of(&[]), command).0, "");
}

#[test]
fn display_json_of_a_three_row_file() {
    let command = route(Some(Verb::Display), true, None, None).unwrap();
    let (text, pulled) = shown(&three_row_file(), command);
    assert_eq!(
        text,
        "[{\"a\": 1, \"b\": \"x\"},{\"a\": 2, \"b\": \"y\"},{\"a\": 3, \"b\": \"z\"}]\n"
    );
    assert_eq!(pulled, 3);
}

#[test]
fn display_stops_pulling_at_the_count() {
    let reader = file_of(&[&[(1, "p"), (2, "q")], &[(3, "r"), (4, "s")], &[(5, "t")]]);
    let command = Command::Display { limit: 3, format: Format::Csv };
    assert_eq!(shown(&reader, command), ("a,b\n1,\"p\"\n2,\"q\"\n3,\"r\"\n".to_string(), 3));
    let all = Command::Display { limit: 50, format: Format::Csv };
    assert_eq!(
        shown(&reader, all),
        ("a,b\n1,\"p\"\n2,\"q\"\n3,\"r\"\n4,\"s\"\n5,\"t\"\n".to_string(), 5)
    );
}

#[test]
fn display_json_escapes_what_a_string_holds() {
    let reader = file_of(&[&[(1, "say \"hi\""), (2, "back\\slash"), (3, "two\nlines")]]);
    let command = Command::Display { limit: 10, format: Format::Json };
    assert_eq!(
        shown(&reader, command).0,
        "[{\"a\": 1, \"b\": \"say \\\"hi\\\"\"},{\"a\": 2, \"b\": \"back\\\\slash\"},{\"a\": 3, \"b\": \"two\\nlines\"}]\n"
    );
}

#[test]
fn count_of_a_written_file() {
    assert_eq!(count_view(three_row_file().metadata()), "num_rows: 3\n");
    assert_eq!(count_view(file_of(&[]).metadata()), "num_rows: 0\n");
    let reader = file_of(&[&[(1, "p"), (2, "q")], &[(3, "r")]]);
    assert_eq!(count_view(reader.metadata()), "num_rows: 3\n");
}

#[test]
fn summary_of_a_written_file() {
    let reader = file_of(&[&[(1, "p"), (2, "q")], &[(3, "r")]]);
    let creator = reader.metadata().file_metadata().created_by().unwrap().to_string();
    assert_eq!(
        summary_view(reader.metadata()),
        format!("{}\nnum_columns: 2\nnum_rows: 3\nnum_row_groups: 2\n", creator)
    );
}

#[test]
fn schema_of_a_written_file() {
    assert_eq!(
        schema_view(three_row_file().metadata()),
        Ok("message schema {\n  REQUIRED INT32 a;\n  REQUIRED BYTE_ARRAY b (UTF8);\n}\n\n"
            .to_string())
    );
}
