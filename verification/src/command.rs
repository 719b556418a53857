//! Which view an invocation selects.

use crate::error::ViewError;
use crate::options::{display_format, requested_format, requested_limit, row_limit, Format};
use vstd::prelude::*;

verus! {

/// The verbs an invocation can name.
#[derive(Clone, Copy, Debug, PartialEq, Eq, Structural)]
pub enum Verb {
    Count,
    Schema,
    Display,
}

/// What an invocation asks for: one of the four views, or nothing.
#[derive(Clone, Copy, Debug, PartialEq, Eq, Structural)]
pub enum Command {
    /// The number of rows in the file.
    Count,
    /// The schema as an indented tree.
    Schema,
    /// The first `limit` rows, written in `format`.
    Display { limit: usize, format: Format },
    /// The metadata summary: what a bare file path asks for.
    Summary,
    /// Neither a verb nor a file was given: there is nothing to do, and
    /// that is not a failure.
    Nothing,
}

/// The command for an invocation.
///
/// Without a verb, a file selects the summary and no file selects nothing.
/// A verb needs its file. `count` and `schema` take no options and look at
/// none. `display` reads its count, ten by default, and its format, JSON by
/// default, and is refused if either is malformed.
pub open spec fn routed(
    verb: Option<Verb>,
    has_file: bool,
    count: Option<Seq<char>>,
    format: Option<Seq<char>>,
) -> Result<Command, ViewError> {
    match verb {
        None => if has_file {
            Ok(Command::Summary)
        } else {
            Ok(Command::Nothing)
        },
        Some(v) => if !has_file {
            Err(ViewError::InvalidArgument)
        } else {
            match v {
                Verb::Count => Ok(Command::Count),
                Verb::Schema => Ok(Command::Schema),
                Verb::Display => match (requested_limit(count), requested_format(format)) {
                    (Ok(limit), Ok(f)) => Ok(Command::Display { limit, format: f }),
                    _ => Err(ViewError::InvalidArgument),
                },
            }
        },
    }
}

/// Selects the one view that an invocation asks for.
///
/// `verb` is the verb, if one was given; `has_file` says whether a file
/// path was given; `count` and `format` are the values of the display's two
/// options as they were typed, if they were. Nothing is opened and nothing
/// is written here: a malformed option is found before any file is touched.
pub fn route(verb: Option<Verb>, has_file: bool, count: Option<&str>, format: Option<&str>) -> (r:
    Result<Command, ViewError>)
    ensures
        r == routed(
            verb,
            has_file,
            match count {
                Some(s) => Some(s@),
                None => None,
            },
            match format {
                Some(s) => Some(s@),
                None => None,
            },
        ),
{
    match verb {
        None => {
            if has_file {
                Ok(Command::Summary)
            } else {
                Ok(Command::Nothing)
            }
        },
        Some(v) => {
            if !has_file {
                return Err(ViewError::InvalidArgument);
            }
            match v {
                Verb::Count => Ok(Command::Count),
                Verb::Schema => Ok(Command::Schema),
                Verb::Display => {
                    let limit = match row_limit(count) {
                        Ok(n) => n,
                        Err(e) => {
                            return Err(e);
                        },
                    };
                    let chosen = match display_format(format) {
                        Ok(f) => f,
                        Err(e) => {
                            return Err(e);
                        },
                    };
                    Ok(Command::Display { limit, format: chosen })
                },
            }
        },
    }
}

/// The options of the display do not reach the other views: with a file,
/// `count` selects the row count and `schema` the schema whatever was typed
/// for the display's count and format, well formed or not; and a bare file
/// selects the summary.
pub proof fn display_options_reach_only_display(
    count: Option<Seq<char>>,
    format: Option<Seq<char>>,
)
    ensures
        routed(Some(Verb::Count), true, count, format) == Ok::<Command, ViewError>(Command::Count),
        routed(Some(Verb::Schema), true, count, format) == Ok::<Command, ViewError>(
            Command::Schema,
        ),
        routed(None, true, count, format) == Ok::<Command, ViewError>(Command::Summary),
        routed(None, false, count, format) == Ok::<Command, ViewError>(Command::Nothing),
{
}

/// A display without a count shows ten rows, and without a format writes
/// JSON.
pub proof fn display_defaults(count: Option<Seq<char>>, format: Option<Seq<char>>)
    ensures
        requested_limit(None) == Ok::<usize, ViewError>(10),
        requested_format(None) == Ok::<Format, ViewError>(Format::Json),
        routed(Some(Verb::Display), true, None, None) == Ok::<Command, ViewError>(
            Command::Display { limit: 10, format: Format::Json },
        ),
        requested_format(format) matches Ok(f) ==> routed(Some(Verb::Display), true, None, format)
            == Ok::<Command, ViewError>(Command::Display { limit: 10, format: f }),
{
}

/// A display whose count is not a non-negative integer is refused as an
/// invalid argument, whatever its format; so is one whose format is
/// unknown, whatever its count.
pub proof fn malformed_display_is_refused(count: Option<Seq<char>>, format: Option<Seq<char>>)
    ensures
        requested_limit(count) is Err ==> routed(Some(Verb::Display), true, count, format) == Err::<
            Command,
            ViewError,
        >(ViewError::InvalidArgument),
        requested_format(format) is Err ==> routed(Some(Verb::Display), true, count, format)
            == Err::<Command, ViewError>(ViewError::InvalidArgument),
        count matches Some(s) && crate::options::count_of(s) is None ==> requested_limit(count)
            is Err,
{
}

} // verus!
