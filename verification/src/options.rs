//! The two options of the row display: how many rows, and in which format.

use crate::error::ViewError;
use crate::text::{decimal_digits, digit_char};
use vstd::prelude::*;
use vstd::std_specs::iter::IteratorSpec;
use vstd::string::*;

verus! {

/// The number of rows displayed when no count is given.
pub const DEFAULT_ROW_LIMIT: usize = 10;

/// The text forms a window of rows can be written in.
#[derive(Clone, Copy, Debug, PartialEq, Eq, Structural)]
pub enum Format {
    /// A header line, then one line per row, values separated by commas.
    Csv,
    /// One array holding one object per row.
    Json,
}

/// The value of a decimal digit; `None` for any other character.
pub open spec fn digit_value(c: char) -> Option<nat> {
    if c == '0' {
        Some(0)
    } else if c == '1' {
        Some(1)
    } else if c == '2' {
        Some(2)
    } else if c == '3' {
        Some(3)
    } else if c == '4' {
        Some(4)
    } else if c == '5' {
        Some(5)
    } else if c == '6' {
        Some(6)
    } else if c == '7' {
        Some(7)
    } else if c == '8' {
        Some(8)
    } else if c == '9' {
        Some(9)
    } else {
        None
    }
}

/// Whether every character of `s` is a decimal digit.
pub open spec fn all_digits(s: Seq<char>) -> bool {
    forall|i: int| 0 <= i < s.len() ==> (#[trigger] digit_value(s[i])) is Some
}

/// The number that a run of decimal digits writes, most significant digit
/// first. The empty run writes zero.
pub open spec fn digits_value(s: Seq<char>) -> nat
    decreases s.len(),
{
    if s.len() == 0 {
        0
    } else {
        digits_value(s.drop_last()) * 10 + match digit_value(s.last()) {
            Some(d) => d,
            None => 0,
        }
    }
}

/// `s` without its leading plus sign, if it has one.
pub open spec fn unsigned_part(s: Seq<char>) -> Seq<char> {
    if s.len() > 0 && s[0] == '+' {
        s.drop_first()
    } else {
        s
    }
}

/// The non-negative integer that `s` writes: an optional plus sign, then one
/// or more decimal digits and nothing else. `None` for any other text.
pub open spec fn count_of(s: Seq<char>) -> Option<nat> {
    let digits = unsigned_part(s);
    if digits.len() > 0 && all_digits(digits) {
        Some(digits_value(digits))
    } else {
        None
    }
}

/// What `parse_count` returns for the text `s`: the integer it writes when it
/// writes one that fits a `usize`, and `InvalidArgument` otherwise.
pub open spec fn parsed_count(s: Seq<char>) -> Result<usize, ViewError> {
    match count_of(s) {
        Some(n) => if n <= usize::MAX {
            Ok(n as usize)
        } else {
            Err(ViewError::InvalidArgument)
        },
        None => Err(ViewError::InvalidArgument),
    }
}

/// The row limit that an optional count argument asks for: ten when there
/// is none.
pub open spec fn requested_limit(arg: Option<Seq<char>>) -> Result<usize, ViewError> {
    match arg {
        Some(s) => parsed_count(s),
        None => Ok(DEFAULT_ROW_LIMIT),
    }
}

/// The format that `s` names, if any: exactly `csv` or `json`.
pub open spec fn format_of(s: Seq<char>) -> Option<Format> {
    if s == "csv"@ {
        Some(Format::Csv)
    } else if s == "json"@ {
        Some(Format::Json)
    } else {
        None
    }
}

/// The format that an optional format argument asks for: JSON when there is
/// none, and `InvalidArgument` for a name that is neither `csv` nor `json`.
pub open spec fn requested_format(arg: Option<Seq<char>>) -> Result<Format, ViewError> {
    match arg {
        Some(s) => match format_of(s) {
            Some(f) => Ok(f),
            None => Err(ViewError::InvalidArgument),
        },
        None => Ok(Format::Json),
    }
}

/// A run of digits is worth at least as much as any of its prefixes.
proof fn digits_value_grows(s: Seq<char>, j: int)
    requires
        0 <= j <= s.len(),
    ensures
        digits_value(s.take(j)) <= digits_value(s),
    decreases s.len(),
{
    if j == s.len() {
        assert(s.take(j) == s);
    } else {
        digits_value_grows(s.drop_last(), j);
        assert(s.drop_last().take(j) == s.take(j));
    }
}

/// A count written in decimal is read back as the count it was: what is
/// written is digits only, and reading undoes writing, for every natural
/// number.
pub proof fn written_count_reads_back(n: nat)
    ensures
        decimal_digits(n).len() > 0,
        all_digits(decimal_digits(n)),
        digits_value(decimal_digits(n)) == n,
        count_of(decimal_digits(n)) == Some(n),
    decreases n,
{
    let text = decimal_digits(n);
    if n < 10 {
        assert(text.drop_last() == Seq::<char>::empty());
        assert(digits_value(text.drop_last()) == 0);
        assert(text.last() == digit_char(n as int));
        assert(digit_value(digit_char(n as int)) == Some(n));
    } else {
        let before = decimal_digits(n / 10);
        let last = digit_char((n % 10) as int);
        written_count_reads_back(n / 10);
        assert(text.drop_last() == before);
        assert(text.last() == last);
        assert(digit_value(last) == Some((n % 10) as nat));
        assert(digits_value(text) == (n / 10) * 10 + n % 10);
        assert(all_digits(text)) by {
            assert forall|i: int| 0 <= i < text.len() implies (#[trigger] digit_value(
                text[i],
            )) is Some by {
                if i < before.len() {
                    assert(text[i] == before[i]);
                }
            }
        }
    }
    assert(digit_value(text[0]) is Some);
}

fn digit_of_char(c: char) -> (d: Option<usize>)
    ensures
        match digit_value(c) {
            Some(v) => d == Some(v as usize),
            None => d is None,
        },
        d matches Some(v) ==> v < 10,
{
    if c == '0' {
        Some(0)
    } else if c == '1' {
        Some(1)
    } else if c == '2' {
        Some(2)
    } else if c == '3' {
        Some(3)
    } else if c == '4' {
        Some(4)
    } else if c == '5' {
        Some(5)
    } else if c == '6' {
        Some(6)
    } else if c == '7' {
        Some(7)
    } else if c == '8' {
        Some(8)
    } else if c == '9' {
        Some(9)
    } else {
        None
    }
}

/// Reads a row count: an optional plus sign, then decimal digits only.
///
/// Succeeds exactly on the texts that write a non-negative integer no larger
/// than `usize::MAX`, and returns that integer; every other text, the empty
/// one included, is an `InvalidArgument`.
pub fn parse_count(text: &str) -> (r: Result<usize, ViewError>)
    ensures
        r == parsed_count(text@),
{
    let ghost skip: int = if text@.len() > 0 && text@[0] == '+' {
        1
    } else {
        0
    };
    let ghost digits = unsigned_part(text@);
    assert(digits == text@.skip(skip));
    let mut value: usize = 0;
    let mut first = true;
    let mut any_digit = false;
    let ghost mut seen: int = 0;
    let chars = text.chars();
    for c in it: chars
        invariant
            it.seq() == text@,
            seen == it.index(),
            digits == text@.skip(skip),
            digits == unsigned_part(text@),
            skip == (if text@.len() > 0 && text@[0] == '+' {
                1int
            } else {
                0int
            }),
            first == (seen == 0),
            seen == 0 ==> value == 0 && !any_digit,
            seen > 0 ==> {
                &&& seen >= skip
                &&& all_digits(text@.subrange(skip, seen))
                &&& value == digits_value(text@.subrange(skip, seen))
                &&& any_digit == (seen > skip)
            },
    {
        if first && c == '+' {
            first = false;
            assert(text@.subrange(skip, seen + 1) == Seq::<char>::empty());
        } else {
            first = false;
            let ghost before = text@.subrange(skip, seen);
            let ghost now = text@.subrange(skip, seen + 1);
            assert(now.drop_last() == before);
            assert(now.last() == c);
            assert(digits[seen - skip] == c);
            match digit_of_char(c) {
                None => {
                    return Err(ViewError::InvalidArgument);
                },
                Some(d) => {
                    assert(all_digits(now)) by {
                        assert forall|k: int| 0 <= k < now.len() implies (#[trigger] digit_value(
                            now[k],
                        )) is Some by {
                            if k < before.len() {
                                assert(now[k] == before[k]);
                            }
                        }
                    }
                    let scaled = value.checked_mul(10);
                    let next = match scaled {
                        Some(s) => s.checked_add(d),
                        None => None,
                    };
                    match next {
                        None => {
                            proof {
                                assert(digits_value(now) > usize::MAX);
                                assert(digits.take(seen + 1 - skip) == now);
                                digits_value_grows(digits, seen + 1 - skip);
                            }
                            return Err(ViewError::InvalidArgument);
                        },
                        Some(v) => {
                            value = v;
                            any_digit = true;
                        },
                    }
                },
            }
        }
        proof {
            seen = seen + 1;
        }
    }
    proof {
        assert(seen == text@.len());
        if seen > 0 {
            assert(text@.subrange(skip, seen) == digits);
        }
    }
    if any_digit {
        Ok(value)
    } else {
        Err(ViewError::InvalidArgument)
    }
}

/// The row limit for an optional count argument: `DEFAULT_ROW_LIMIT` when
/// the argument is absent, else what `parse_count` makes of it.
pub fn row_limit(arg: Option<&str>) -> (r: Result<usize, ViewError>)
    ensures
        r == requested_limit(
            match arg {
                Some(s) => Some(s@),
                None => None,
            },
        ),
        arg is None ==> r == Ok::<usize, ViewError>(10),
{
    match arg {
        Some(text) => parse_count(text),
        None => Ok(DEFAULT_ROW_LIMIT),
    }
}

/// Whether two texts hold the same characters.
pub fn same_text(a: &str, b: &str) -> (same: bool)
    ensures
        same == (a@ == b@),
{
    let mut xs = a.chars();
    let mut ys = b.chars();
    let ghost mut n: int = 0;
    loop
        invariant
            0 <= n <= a@.len(),
            n <= b@.len(),
            xs.remaining() == a@.skip(n),
            ys.remaining() == b@.skip(n),
            a@.take(n) == b@.take(n),
        decreases a@.len() - n,
    {
        let x = xs.next();
        let y = ys.next();
        match (x, y) {
            (None, None) => {
                proof {
                    assert(a@.take(n) == a@);
                    assert(b@.take(n) == b@);
                }
                return true;
            },
            (Some(p), Some(q)) => {
                assert(p == a@[n]);
                assert(q == b@[n]);
                if p != q {
                    return false;
                }
                proof {
                    assert(a@.skip(n).drop_first() == a@.skip(n + 1));
                    assert(b@.skip(n).drop_first() == b@.skip(n + 1));
                    assert(a@.take(n + 1) == a@.take(n).push(p));
                    assert(b@.take(n + 1) == b@.take(n).push(q));
                    n = n + 1;
                }
            },
            _ => {
                assert(a@.len() != b@.len());
                return false;
            },
        }
    }
}

/// Reads a format name: exactly `csv` or `json`, lower case.
pub fn parse_format(text: &str) -> (r: Result<Format, ViewError>)
    ensures
        r == requested_format(Some(text@)),
{
    if same_text(text, "csv") {
        Ok(Format::Csv)
    } else if same_text(text, "json") {
        Ok(Format::Json)
    } else {
        Err(ViewError::InvalidArgument)
    }
}

/// The format for an optional format argument: JSON when the argument is
/// absent, else what `parse_format` makes of it.
pub fn display_format(arg: Option<&str>) -> (r: Result<Format, ViewError>)
    ensures
        r == requested_format(
            match arg {
                Some(s) => Some(s@),
                None => None,
            },
        ),
{
    match arg {
        Some(text) => parse_format(text),
        None => Ok(Format::Json),
    }
}

} // verus!
