use parquet_viewer::command::{route, Command, Verb};
use parquet_viewer::error::ViewError;
use parquet_viewer::options::Format;

#[test]
fn bare_file_selects_the_summary() {
    assert_eq!(route(None, true, None, None), Ok(Command::Summary));
}

#[test]
fn no_verb_and_no_file_selects_nothing() {
    assert_eq!(route(None, false, None, None), Ok(Command::Nothing));
}

#[test]
fn count_verb_selects_the_row_count() {
    assert_eq!(route(Some(Verb::Count), true, None, None), Ok(Command::Count));
}

#[test]
fn schema_verb_selects_the_schema() {
    assert_eq!(route(Some(Verb::Schema), true, None, None), Ok(Command::Schema));
}

#[test]
fn count_ignores_display_only_flags() {
    let plain = route(Some(Verb::Count), true, None, None);
    assert_eq!(route(Some(Verb::Count), true, Some("3"), Some("csv")), plain);
    assert_eq!(route(Some(Verb::Count), true, Some("not a number"), None), plain);
    assert_eq!(route(Some(Verb::Count), true, None, Some("no such format")), plain);
    assert_eq!(plain, Ok(Command::Count));
}

#[test]
fn schema_ignores_display_only_flags() {
    assert_eq!(
        route(Some(Verb::Schema), true, Some("x"), Some("y")),
        Ok(Command::Schema)
    );
}

#[test]
fn display_without_options_shows_ten_rows_as_json() {
    assert_eq!(
        route(Some(Verb::Display), true, None, None),
        Ok(Command::Display { limit: 10, format: Format::Json })
    );
}

#[test]
fn display_takes_its_count_and_format() {
    assert_eq!(
        route(Some(Verb::Display), true, Some("3"), Some("csv")),
        Ok(Command::Display { limit: 3, format: Format::Csv })
    );
    assert_eq!(
        route(Some(Verb::Display), true, Some("0"), None),
        Ok(Command::Display { limit: 0, format: Format::Json })
    );
    assert_eq!(
        route(Some(Verb::Display), true, None, Some("csv")),
        Ok(Command::Display { limit: 10, format: Format::Csv })
    );
}

#[test]
fn display_with_non_integer_count_is_invalid() {
    assert_eq!(
        route(Some(Verb::Display), true, Some("many"), None),
        Err(ViewError::InvalidArgument)
    );
    assert_eq!(
        route(Some(Verb::Display), true, Some("2.0"), Some("csv")),
        Err(ViewError::InvalidArgument)
    );
    assert_eq!(
        route(Some(Verb::Display), true, Some("-3"), Some("json")),
        Err(ViewError::InvalidArgument)
    );
}

#[test]
fn display_with_unknown_format_is_invalid() {
    assert_eq!(
        route(Some(Verb::Display), true, Some("3"), Some("tsv")),
        Err(ViewError::InvalidArgument)
    );
}

#[test]
fn a_verb_without_its_file_is_invalid() {
    assert_eq!(route(Some(Verb::Count), false, None, None), Err(ViewError::InvalidArgument));
    assert_eq!(route(Some(Verb::Schema), false, None, None), Err(ViewError::InvalidArgument));
    assert_eq!(
        route(Some(Verb::Display), false, Some("3"), Some("csv")),
        Err(ViewError::InvalidArgument)
    );
}
