//! Text as sequences of characters: joining parts, and writing integers in
//! decimal.

use vstd::prelude::*;
use vstd::string::*;

verus! {

/// The character that ends every line of output.
pub open spec fn line_end() -> Seq<char> {
    seq!['\n']
}

/// `parts` written one after another with `sep` between neighbours: no
/// separator before the first part and none after the last.
pub open spec fn joined(parts: Seq<Seq<char>>, sep: Seq<char>) -> Seq<char>
    decreases parts.len(),
{
    if parts.len() == 0 {
        Seq::empty()
    } else if parts.len() == 1 {
        parts[0]
    } else {
        joined(parts.drop_last(), sep) + sep + parts.last()
    }
}

/// Every part written in order, nothing between them.
pub open spec fn concat(parts: Seq<Seq<char>>) -> Seq<char>
    decreases parts.len(),
{
    if parts.len() == 0 {
        Seq::empty()
    } else {
        concat(parts.drop_last()) + parts.last()
    }
}

/// Joining one more part: the first part stands alone, every later one is
/// preceded by the separator.
pub proof fn joined_push(parts: Seq<Seq<char>>, sep: Seq<char>, part: Seq<char>)
    ensures
        joined(parts.push(part), sep) == if parts.len() == 0 {
            part
        } else {
            joined(parts, sep) + sep + part
        },
{
    let all = parts.push(part);
    assert(all.drop_last() == parts);
    assert(all.last() == part);
}

/// The number of characters in all of `parts` together.
pub open spec fn total_len(parts: Seq<Seq<char>>) -> nat
    decreases parts.len(),
{
    if parts.len() == 0 {
        0
    } else {
        total_len(parts.drop_last()) + parts.last().len()
    }
}

/// The number of places between neighbours among `count` parts.
pub open spec fn gaps(count: nat) -> nat {
    if count == 0 {
        0
    } else {
        (count - 1) as nat
    }
}

/// A joined text holds its parts and one separator fewer than parts:
/// nothing leads it and nothing trails it.
pub proof fn joined_len(parts: Seq<Seq<char>>, sep: Seq<char>)
    ensures
        joined(parts, sep).len() == total_len(parts) + gaps(parts.len()) * sep.len(),
    decreases parts.len(),
{
    let n = sep.len();
    if parts.len() <= 1 {
        assert(gaps(parts.len()) * n == 0) by (nonlinear_arith)
            requires
                gaps(parts.len()) == 0,
        ;
        if parts.len() == 1 {
            assert(total_len(parts.drop_last()) == 0);
            assert(parts.last() == parts[0]);
        }
    } else {
        let before = parts.drop_last();
        joined_len(before, sep);
        assert(gaps(parts.len()) * n == gaps(before.len()) * n + n) by (nonlinear_arith)
            requires
                gaps(parts.len()) == gaps(before.len()) + 1,
        ;
    }
}

/// A joined text begins as its first part begins and ends as its last part
/// ends, where those parts are not empty.
pub proof fn joined_ends(parts: Seq<Seq<char>>, sep: Seq<char>)
    requires
        parts.len() > 0,
        parts[0].len() > 0,
        parts.last().len() > 0,
    ensures
        joined(parts, sep).len() > 0,
        joined(parts, sep)[0] == parts[0][0],
        joined(parts, sep).last() == parts.last().last(),
{
    first_of_joined(parts, sep);
}

/// A joined text begins as its first part begins.
proof fn first_of_joined(parts: Seq<Seq<char>>, sep: Seq<char>)
    requires
        parts.len() > 0,
        parts[0].len() > 0,
    ensures
        joined(parts, sep).len() > 0,
        joined(parts, sep)[0] == parts[0][0],
    decreases parts.len(),
{
    if parts.len() > 1 {
        first_of_joined(parts.drop_last(), sep);
    }
}

/// Concatenating one more part appends it.
pub proof fn concat_push(parts: Seq<Seq<char>>, part: Seq<char>)
    ensures
        concat(parts.push(part)) == concat(parts) + part,
{
    let all = parts.push(part);
    assert(all.drop_last() == parts);
    assert(all.last() == part);
}

/// The decimal digit for `d`, for `d` from 0 to 9.
pub open spec fn digit_char(d: int) -> char {
    if d == 0 {
        '0'
    } else if d == 1 {
        '1'
    } else if d == 2 {
        '2'
    } else if d == 3 {
        '3'
    } else if d == 4 {
        '4'
    } else if d == 5 {
        '5'
    } else if d == 6 {
        '6'
    } else if d == 7 {
        '7'
    } else if d == 8 {
        '8'
    } else {
        '9'
    }
}

/// The digits of `n` in base ten, most significant first, without leading
/// zeros; zero is the single digit `0`.
pub open spec fn decimal_digits(n: nat) -> Seq<char>
    decreases n,
{
    if n < 10 {
        seq![digit_char(n as int)]
    } else {
        decimal_digits(n / 10).push(digit_char((n % 10) as int))
    }
}

/// `n` in decimal, with a leading minus sign when it is negative.
pub open spec fn decimal_text(n: int) -> Seq<char> {
    if n < 0 {
        seq!['-'] + decimal_digits((-n) as nat)
    } else {
        decimal_digits(n as nat)
    }
}

/// Appends one character to `text`.
///
/// Trusted: this is `String::push` of the standard library, which adds the
/// character at the end and leaves what was there in place.
#[verifier::external_body]
pub(crate) fn push_char(text: &mut String, c: char)
    ensures
        final(text)@ == old(text)@.push(c),
{
    text.push(c);
}

/// Appends a copy of `piece` to `text`.
pub(crate) fn push_text(text: &mut String, piece: &str)
    ensures
        final(text)@ == old(text)@ + piece@,
{
    text.append(piece);
}

fn digit_of(d: u64) -> (c: char)
    requires
        d < 10,
    ensures
        c == digit_char(d as int),
{
    if d == 0 {
        '0'
    } else if d == 1 {
        '1'
    } else if d == 2 {
        '2'
    } else if d == 3 {
        '3'
    } else if d == 4 {
        '4'
    } else if d == 5 {
        '5'
    } else if d == 6 {
        '6'
    } else if d == 7 {
        '7'
    } else if d == 8 {
        '8'
    } else {
        '9'
    }
}

/// The first `upto` items of `low` in the opposite order.
spec fn reversed_tail(low: Seq<char>, upto: int) -> Seq<char>
    decreases upto,
{
    if upto <= 0 {
        Seq::empty()
    } else {
        seq![low[upto - 1]] + reversed_tail(low, upto - 1)
    }
}

proof fn reversed_tail_push(low: Seq<char>, c: char, upto: int)
    requires
        0 <= upto <= low.len(),
    ensures
        reversed_tail(low.push(c), upto) == reversed_tail(low, upto),
    decreases upto,
{
    if upto > 0 {
        reversed_tail_push(low, c, upto - 1);
    }
}

/// Appends `n` in decimal to `text`.
pub(crate) fn push_unsigned(text: &mut String, n: u64)
    ensures
        final(text)@ == old(text)@ + decimal_digits(n as nat),
{
    // Digits come out least significant first; they are kept and then
    // written in the opposite order.
    let mut low: Vec<char> = Vec::new();
    let mut rest: u64 = n;
    while rest >= 10
        invariant
            decimal_digits(n as nat) == decimal_digits(rest as nat) + reversed_tail(
                low@,
                low@.len() as int,
            ),
        decreases rest,
    {
        let c = digit_of(rest % 10);
        proof {
            reversed_tail_push(low@, c, low@.len() as int);
            assert(reversed_tail(low@.push(c), low@.len() as int + 1) == seq![c] + reversed_tail(
                low@,
                low@.len() as int,
            ));
            assert(decimal_digits(rest as nat) == decimal_digits((rest / 10) as nat).push(c));
            assert(decimal_digits((rest / 10) as nat).push(c) + reversed_tail(
                low@,
                low@.len() as int,
            ) == decimal_digits((rest / 10) as nat) + (seq![c] + reversed_tail(
                low@,
                low@.len() as int,
            )));
        }
        low.push(c);
        rest = rest / 10;
    }
    let first = digit_of(rest);
    push_char(text, first);
    let mut i: usize = low.len();
    while i > 0
        invariant
            i <= low@.len(),
            text@ + reversed_tail(low@, i as int) == old(text)@ + decimal_digits(n as nat),
        decreases i,
    {
        let c = low[i - 1];
        proof {
            assert(text@.push(c) + reversed_tail(low@, i - 1) == text@ + (seq![c] + reversed_tail(
                low@,
                i - 1,
            )));
        }
        push_char(text, c);
        i = i - 1;
    }
    proof {
        assert(text@ + reversed_tail(low@, 0) == text@);
    }
}

/// Appends `n` in decimal to `text`, with a minus sign when it is negative.
pub(crate) fn push_signed(text: &mut String, n: i64)
    ensures
        final(text)@ == old(text)@ + decimal_text(n as int),
{
    if n < 0 {
        // The magnitude of the least `i64` does not fit in an `i64`.
        let magnitude: u64 = ((-(n + 1)) as u64) + 1;
        push_char(text, '-');
        push_unsigned(text, magnitude);
        proof {
            assert(old(text)@.push('-') + decimal_digits(magnitude as nat) == old(text)@ + (
            seq!['-'] + decimal_digits(magnitude as nat)));
        }
    } else {
        push_unsigned(text, n as u64);
    }
}

/// `n` written in decimal.
pub fn unsigned_decimal(n: u64) -> (out: String)
    ensures
        out@ == decimal_digits(n as nat),
{
    let mut out = String::new();
    push_unsigned(&mut out, n);
    out
}

/// `n` written in decimal, with a leading minus sign when it is negative.
pub fn signed_decimal(n: i64) -> (out: String)
    ensures
        out@ == decimal_text(n as int),
{
    let mut out = String::new();
    push_signed(&mut out, n);
    out
}

} // verus!
