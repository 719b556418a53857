use parquet_viewer::error::{ViewError, FAILURE_STATUS};

#[test]
fn every_failure_ends_in_the_same_status() {
    assert_eq!(FAILURE_STATUS, 1);
    for failure in [
        ViewError::FileOpen,
        ViewError::FormatDecode,
        ViewError::InvalidArgument,
        ViewError::Encoding,
    ] {
        assert_eq!(failure.exit_status(), 1);
    }
}

#[test]
fn every_failure_has_its_sentence() {
    assert_eq!(ViewError::FileOpen.message(), "the file is missing or cannot be read");
    assert_eq!(ViewError::FormatDecode.message(), "the file cannot be decoded");
    assert_eq!(ViewError::InvalidArgument.message(), "an argument is malformed");
    assert_eq!(ViewError::Encoding.message(), "the rendered schema is not text");
}
