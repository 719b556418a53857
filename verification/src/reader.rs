//! The views that read the file's metadata as the reader holds it.
//!
//! The reader is an outside crate. What it hands over is taken through the
//! few trusted items of this file, each result under a name of its own;
//! everything that is made of it afterwards is verified.

use crate::error::ViewError;
use crate::summary::{
    count_line, count_text, metadata_text, row_count_text, summary_lines, summary_text,
    FileSummary, SummaryView,
};
use crate::text::{line_end, push_char};
use parquet::file::metadata::ParquetMetaData;
use parquet::schema::printer::print_schema;
use std::string::FromUtf8Error;
use vstd::prelude::*;
use vstd::utf8::{decode_utf8, valid_utf8};

verus! {

/// The reader's metadata of one file. Nothing of its inside is visible
/// here: it is only handed on.
#[verifier::external_type_specification]
#[verifier::external_body]
pub struct ExParquetMetaData(ParquetMetaData);

/// The standard library's error of a failed conversion from bytes to text.
#[verifier::external_type_specification]
#[verifier::external_body]
pub struct ExFromUtf8Error(FromUtf8Error);

/// Trusted: `String::from_utf8` of the standard library succeeds exactly on
/// well-formed UTF-8, and the text it then returns is the decoding of the
/// bytes it was given.
pub assume_specification[ String::from_utf8 ](vec: Vec<u8>) -> (r: Result<String, FromUtf8Error>)
    ensures
        r is Ok <==> valid_utf8(vec@),
        r matches Ok(text) ==> text@ == decode_utf8(vec@),
;

/// The creator that the metadata records, if it records one: what
/// `FileMetaData::created_by` of the reader hands out.
pub uninterp spec fn recorded_creator(meta: ParquetMetaData) -> Option<Seq<char>>;

/// The number of leaf columns of the schema in the metadata: what
/// `SchemaDescriptor::num_columns` of the reader hands out.
pub uninterp spec fn recorded_columns(meta: ParquetMetaData) -> nat;

/// The number of rows that the metadata records: what
/// `FileMetaData::num_rows` of the reader hands out.
pub uninterp spec fn recorded_rows(meta: ParquetMetaData) -> int;

/// The number of row groups in the metadata: what
/// `ParquetMetaData::num_row_groups` of the reader hands out.
pub uninterp spec fn recorded_row_groups(meta: ParquetMetaData) -> nat;

/// The bytes that `print_schema` of the reader writes for the schema in the
/// metadata.
pub uninterp spec fn rendered_schema(meta: ParquetMetaData) -> Seq<u8>;

/// The four facts of the summary as the metadata records them.
pub open spec fn recorded_summary(meta: ParquetMetaData) -> SummaryView {
    SummaryView {
        created_by: recorded_creator(meta),
        num_columns: recorded_columns(meta),
        num_rows: recorded_rows(meta),
        num_row_groups: recorded_row_groups(meta),
    }
}

/// Reads the four facts of the summary off the reader's metadata.
///
/// Trusted: the getters `created_by`, `num_rows` and `schema_descr` of the
/// reader's `FileMetaData`, `num_columns` of its `SchemaDescriptor` and
/// `num_row_groups` of its `ParquetMetaData` hand out what is stored, so
/// each is a function of the metadata alone. The contract gives each of the
/// four results its name and claims nothing of the values themselves: they
/// are whatever the file recorded.
#[verifier::external_body]
fn file_summary(meta: &ParquetMetaData) -> (summary: FileSummary)
    ensures
        summary@.created_by == recorded_creator(*meta),
        summary@.num_columns == recorded_columns(*meta),
        summary@.num_rows == recorded_rows(*meta),
        summary@.num_row_groups == recorded_row_groups(*meta),
{
    let file = meta.file_metadata();
    FileSummary {
        created_by: file.created_by().map(String::from),
        num_columns: file.schema_descr().num_columns(),
        num_rows: file.num_rows(),
        num_row_groups: meta.num_row_groups(),
    }
}

/// Has the reader render the file's schema, and returns the bytes it wrote.
///
/// Trusted: `print_schema` of the reader writes the schema of the metadata
/// as an indented tree into the buffer it is given, and what it writes
/// depends on that schema alone. The contract gives the bytes their name
/// and claims nothing more of them, not even that they are text.
#[verifier::external_body]
fn render_schema(meta: &ParquetMetaData) -> (bytes: Vec<u8>)
    ensures
        bytes@ == rendered_schema(*meta),
{
    let mut bytes = Vec::new();
    print_schema(&mut bytes, meta.file_metadata().schema());
    bytes
}

/// The output of the schema view for what the renderer wrote: the bytes as
/// text, followed by a line end.
///
/// Bytes that are not well-formed UTF-8 are an `Encoding` failure: they are
/// never replaced or patched.
pub fn schema_output(bytes: Vec<u8>) -> (r: Result<String, ViewError>)
    ensures
        valid_utf8(bytes@) ==> (r matches Ok(text) && text@ == decode_utf8(bytes@) + line_end()),
        !valid_utf8(bytes@) ==> (r matches Err(e) && e == ViewError::Encoding),
{
    match String::from_utf8(bytes) {
        Ok(text) => {
            let mut out = text;
            push_char(&mut out, '\n');
            Ok(out)
        },
        Err(_) => Err(ViewError::Encoding),
    }
}

/// The output of the schema view for the file of `meta`: the reader's
/// rendering of its schema as text, followed by a line end.
///
/// The view succeeds exactly when the rendering is well-formed UTF-8; a
/// rendering that is not is an `Encoding` failure.
pub fn schema_view(meta: &ParquetMetaData) -> (r: Result<String, ViewError>)
    ensures
        valid_utf8(rendered_schema(*meta)) ==> (r matches Ok(text) && text@ == decode_utf8(
            rendered_schema(*meta),
        ) + line_end()),
        !valid_utf8(rendered_schema(*meta)) ==> (r matches Err(e) && e == ViewError::Encoding),
{
    schema_output(render_schema(meta))
}

/// The output of the metadata summary for the file of `meta`: the creator
/// where the metadata records one, then its numbers of columns, of rows and
/// of row groups, each on its line.
pub fn summary_view(meta: &ParquetMetaData) -> (out: String)
    ensures
        out@ == summary_text(recorded_summary(*meta)),
{
    let summary = file_summary(meta);
    assert(summary@ == recorded_summary(*meta));
    metadata_text(&summary)
}

/// The output of the row count for the file of `meta`: the line that
/// reports the number of rows the metadata records, and nothing else of it.
pub fn count_view(meta: &ParquetMetaData) -> (out: String)
    ensures
        out@ == count_text(recorded_rows(*meta)),
{
    let summary = file_summary(meta);
    row_count_text(summary.num_rows)
}

/// The row count and the summary report the same number of rows of one
/// file: the count's one line is the summary's line of rows.
pub proof fn count_is_the_summary_row_line(meta: ParquetMetaData)
    ensures
        count_text(recorded_rows(meta)) == count_line(recorded_summary(meta).num_rows) + line_end(),
        ({
            let lines = summary_lines(recorded_summary(meta));
            lines[lines.len() - 2] == count_line(recorded_rows(meta))
        }),
{
}

} // verus!
