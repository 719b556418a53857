//! Rows as one JSON array of objects.
//!
//! A column name is written as a JSON string. A value is text the reader
//! has already rendered: a rendering in double quotes is a string and is
//! written as one, its content escaped; any other rendering is written as
//! it is unless it holds a character that JSON reserves, in which case it,
//! too, becomes a string. No reserved character is ever written bare.

use crate::row::{ColumnView, Row, RowView};
use crate::text::{
    gaps, joined, joined_ends, joined_len, joined_push, push_char, push_text, total_len,
};
use vstd::prelude::*;
use vstd::std_specs::iter::IteratorSpec;
use vstd::string::*;

verus! {

/// The hexadecimal digit for `d`, lower case, for `d` from 0 to 15.
pub open spec fn hex_digit(d: int) -> char {
    if d == 0 {
        '0'
    } else if d == 1 {
        '1'
    } else if d == 2 {
        '2'
    } else if d == 3 {
        '3'
    } else if d == 4 {
        '4'
    } else if d == 5 {
        '5'
    } else if d == 6 {
        '6'
    } else if d == 7 {
        '7'
    } else if d == 8 {
        '8'
    } else if d == 9 {
        '9'
    } else if d == 10 {
        'a'
    } else if d == 11 {
        'b'
    } else if d == 12 {
        'c'
    } else if d == 13 {
        'd'
    } else if d == 14 {
        'e'
    } else {
        'f'
    }
}

/// Whether `c` is a control character: one below the space.
pub open spec fn is_control(c: char) -> bool {
    (c as u32) < 0x20
}

/// Whether `c` may not stand bare inside a JSON string: the double quote,
/// the backslash and the control characters.
pub open spec fn is_reserved(c: char) -> bool {
    c == '"' || c == '\\' || is_control(c)
}

/// How `c` is written inside a JSON string: the short escapes where JSON
/// has one, `\u00XX` for the other control characters, and every other
/// character as itself.
pub open spec fn json_escape_char(c: char) -> Seq<char> {
    if c == '"' {
        seq!['\\', '"']
    } else if c == '\\' {
        seq!['\\', '\\']
    } else if c == '\n' {
        seq!['\\', 'n']
    } else if c == '\r' {
        seq!['\\', 'r']
    } else if c == '\t' {
        seq!['\\', 't']
    } else if c == '\u{8}' {
        seq!['\\', 'b']
    } else if c == '\u{c}' {
        seq!['\\', 'f']
    } else if is_control(c) {
        seq!['\\', 'u', '0', '0', hex_digit((c as u32) as int / 16), hex_digit((c as u32) as int % 16)]
    } else {
        seq![c]
    }
}

/// The characters of `s`, each written as `json_escape_char` writes it.
pub open spec fn json_escaped(s: Seq<char>) -> Seq<char>
    decreases s.len(),
{
    if s.len() == 0 {
        Seq::empty()
    } else {
        json_escaped(s.drop_last()) + json_escape_char(s.last())
    }
}

/// `s` as a JSON string: escaped, between double quotes.
pub open spec fn json_string(s: Seq<char>) -> Seq<char> {
    seq!['"'] + json_escaped(s) + seq!['"']
}

/// Whether `s` is a rendering in double quotes: at least the two quotes.
pub open spec fn is_quoted(s: Seq<char>) -> bool {
    s.len() >= 2 && s[0] == '"' && s.last() == '"'
}

/// Whether `s` holds a character that JSON reserves.
pub open spec fn has_reserved(s: Seq<char>) -> bool {
    exists|i: int| 0 <= i < s.len() && #[trigger] is_reserved(s[i])
}

/// How a value's rendering is written: a quoted rendering as the JSON
/// string of what stands between its quotes; any other rendering that holds
/// a reserved character as the JSON string of all of it; any other as it is.
pub open spec fn json_value(text: Seq<char>) -> Seq<char> {
    if is_quoted(text) {
        json_string(text.subrange(1, text.len() - 1))
    } else if has_reserved(text) {
        json_string(text)
    } else {
        text
    }
}

/// One field of an object: the name as a JSON string, a colon and a space,
/// then the value.
pub open spec fn json_field(column: ColumnView) -> Seq<char> {
    json_string(column.name) + seq![':', ' '] + json_value(column.value)
}

/// What stands between two fields of an object.
pub open spec fn field_separator() -> Seq<char> {
    seq![',', ' ']
}

/// What stands between two objects of the array.
pub open spec fn object_separator() -> Seq<char> {
    seq![',']
}

/// The fields of a row, in column order.
pub open spec fn json_fields(row: RowView) -> Seq<Seq<char>> {
    row.map_values(|c: ColumnView| json_field(c))
}

/// One row as a JSON object: its fields in column order, separated, with
/// no separator after the last.
pub open spec fn json_object(row: RowView) -> Seq<char> {
    seq!['{'] + joined(json_fields(row), field_separator()) + seq!['}']
}

/// The objects of `rows`, in row order.
pub open spec fn json_objects(rows: Seq<RowView>) -> Seq<Seq<char>> {
    rows.map_values(|r: RowView| json_object(r))
}

/// The JSON document for `rows`: one array holding one object per row, in
/// row order, separated by commas, with no comma after the last.
pub open spec fn json_array(rows: Seq<RowView>) -> Seq<char> {
    seq!['['] + joined(json_objects(rows), object_separator()) + seq![']']
}

/// Where a JSON formatter stands.
#[derive(Clone, Copy, Debug, PartialEq, Eq, Structural)]
pub enum JsonState {
    /// No row has been written, nor the bracket that opens the array.
    AwaitingFirst,
    /// The array is open and holds at least one object.
    Emitting,
}

/// What a formatter in `state` writes for `row`: the opening bracket before
/// the first object, a comma before every later one, then the object.
pub open spec fn json_chunk(state: JsonState, row: RowView) -> Seq<char> {
    if state is AwaitingFirst {
        seq!['['] + json_object(row)
    } else {
        object_separator() + json_object(row)
    }
}

/// What a formatter in `state` writes to end the document: the closing
/// bracket, after the opening one where no row ever came.
pub open spec fn json_tail(state: JsonState) -> Seq<char> {
    if state is AwaitingFirst {
        seq!['[', ']']
    } else {
        seq![']']
    }
}

/// Where a fresh formatter stands once it has been given `count` rows.
pub open spec fn json_state_after(count: nat) -> JsonState {
    if count == 0 {
        JsonState::AwaitingFirst
    } else {
        JsonState::Emitting
    }
}

/// Everything a fresh formatter has written once `rows` have been pushed
/// in order, before the document is ended.
pub open spec fn json_stream(rows: Seq<RowView>) -> Seq<char>
    decreases rows.len(),
{
    if rows.len() == 0 {
        Seq::empty()
    } else {
        json_stream(rows.drop_last()) + json_chunk(
            json_state_after((rows.len() - 1) as nat),
            rows.last(),
        )
    }
}

/// Escaping one more character appends its escape.
proof fn json_escaped_push(s: Seq<char>, c: char)
    ensures
        json_escaped(s.push(c)) == json_escaped(s) + json_escape_char(c),
{
    let all = s.push(c);
    assert(all.drop_last() == s);
    assert(all.last() == c);
}

fn hex_char(d: u32) -> (c: char)
    requires
        d < 16,
    ensures
        c == hex_digit(d as int),
{
    if d == 0 {
        '0'
    } else if d == 1 {
        '1'
    } else if d == 2 {
        '2'
    } else if d == 3 {
        '3'
    } else if d == 4 {
        '4'
    } else if d == 5 {
        '5'
    } else if d == 6 {
        '6'
    } else if d == 7 {
        '7'
    } else if d == 8 {
        '8'
    } else if d == 9 {
        '9'
    } else if d == 10 {
        'a'
    } else if d == 11 {
        'b'
    } else if d == 12 {
        'c'
    } else if d == 13 {
        'd'
    } else if d == 14 {
        'e'
    } else {
        'f'
    }
}

fn reserved(c: char) -> (r: bool)
    ensures
        r == is_reserved(c),
{
    c == '"' || c == '\\' || (c as u32) < 0x20
}

fn push_escape(out: &mut String, c: char)
    ensures
        final(out)@ == old(out)@ + json_escape_char(c),
{
    let code = c as u32;
    if c == '"' {
        push_char(out, '\\');
        push_char(out, '"');
        assert(out@ == old(out)@ + seq!['\\', '"']);
    } else if c == '\\' {
        push_char(out, '\\');
        push_char(out, '\\');
        assert(out@ == old(out)@ + seq!['\\', '\\']);
    } else if c == '\n' {
        push_char(out, '\\');
        push_char(out, 'n');
        assert(out@ == old(out)@ + seq!['\\', 'n']);
    } else if c == '\r' {
        push_char(out, '\\');
        push_char(out, 'r');
        assert(out@ == old(out)@ + seq!['\\', 'r']);
    } else if c == '\t' {
        push_char(out, '\\');
        push_char(out, 't');
        assert(out@ == old(out)@ + seq!['\\', 't']);
    } else if c == '\u{8}' {
        push_char(out, '\\');
        push_char(out, 'b');
        assert(out@ == old(out)@ + seq!['\\', 'b']);
    } else if c == '\u{c}' {
        push_char(out, '\\');
        push_char(out, 'f');
        assert(out@ == old(out)@ + seq!['\\', 'f']);
    } else if code < 0x20 {
        let high = hex_char(code / 16);
        let low = hex_char(code % 16);
        push_char(out, '\\');
        push_char(out, 'u');
        push_char(out, '0');
        push_char(out, '0');
        push_char(out, high);
        push_char(out, low);
        assert(out@ == old(out)@ + seq!['\\', 'u', '0', '0', high, low]);
    } else {
        push_char(out, c);
        assert(out@ == old(out)@ + seq![c]);
    }
}

/// Appends the escaped characters of `text` from position `from` up to, not
/// including, position `to`.
fn push_escaped_range(out: &mut String, text: &str, from: usize, to: usize)
    requires
        from <= to <= text@.len(),
    ensures
        final(out)@ == old(out)@ + json_escaped(text@.subrange(from as int, to as int)),
{
    let mut chars = text.chars();
    let mut i: usize = 0;
    assert(text@.skip(0) == text@);
    while i < to
        invariant
            from <= to <= text@.len(),
            i <= to,
            chars.remaining() == text@.skip(i as int),
            i <= from ==> out@ == old(out)@,
            i >= from ==> out@ == old(out)@ + json_escaped(
                text@.subrange(from as int, i as int),
            ),
        decreases to - i,
    {
        let next = chars.next();
        proof {
            assert(text@.skip(i as int).drop_first() == text@.skip(i + 1));
            assert(text@.skip(i as int)[0] == text@[i as int]);
        }
        match next {
            Some(c) => {
                if i >= from {
                    proof {
                        json_escaped_push(text@.subrange(from as int, i as int), c);
                        assert(text@.subrange(from as int, i + 1) == text@.subrange(
                            from as int,
                            i as int,
                        ).push(c));
                    }
                    push_escape(out, c);
                } else {
                    proof {
                        if i + 1 == from {
                            assert(text@.subrange(from as int, i + 1) == Seq::<char>::empty());
                        }
                    }
                }
            },
            None => {
                assert(false);
            },
        }
        i = i + 1;
    }
}

/// Appends `text` as a JSON string.
fn push_string(out: &mut String, text: &str)
    ensures
        final(out)@ == old(out)@ + json_string(text@),
{
    let n = text.unicode_len();
    push_char(out, '"');
    push_escaped_range(out, text, 0, n);
    push_char(out, '"');
    proof {
        assert(text@.subrange(0, n as int) == text@);
        assert(out@ == old(out)@ + json_string(text@));
    }
}

/// Appends a value's rendering as `json_value` writes it.
fn push_value(out: &mut String, text: &str)
    ensures
        final(out)@ == old(out)@ + json_value(text@),
{
    let n = text.unicode_len();
    let mut at_start = true;
    let mut first_is_quote = false;
    let mut last_is_quote = false;
    let mut any_reserved = false;
    let ghost mut seen: int = 0;
    assert(!has_reserved(text@.take(0)));
    let chars = text.chars();
    for c in it: chars
        invariant
            it.seq() == text@,
            seen == it.index(),
            at_start == (seen == 0),
            seen > 0 ==> first_is_quote == (text@[0] == '"'),
            seen > 0 ==> last_is_quote == (text@[seen - 1] == '"'),
            any_reserved == has_reserved(text@.take(seen)),
    {
        assert(c == text@[seen]);
        proof {
            let before = text@.take(seen);
            let now = text@.take(seen + 1);
            if has_reserved(before) {
                let k = choose|k: int| 0 <= k < before.len() && is_reserved(before[k]);
                assert(is_reserved(now[k]));
            }
            if is_reserved(c) {
                assert(is_reserved(now[seen]));
            }
            if has_reserved(now) {
                let k = choose|k: int| 0 <= k < now.len() && is_reserved(now[k]);
                if k < seen {
                    assert(is_reserved(before[k]));
                }
            }
        }
        let quote = c == '"';
        if at_start {
            first_is_quote = quote;
            at_start = false;
        }
        last_is_quote = quote;
        if reserved(c) {
            any_reserved = true;
        }
        proof {
            seen = seen + 1;
        }
    }
    proof {
        assert(seen == text@.len());
        assert(text@.take(seen) == text@);
    }
    if n >= 2 && first_is_quote && last_is_quote {
        push_char(out, '"');
        push_escaped_range(out, text, 1, n - 1);
        push_char(out, '"');
        proof {
            assert(out@ == old(out)@ + json_string(text@.subrange(1, text@.len() - 1)));
        }
    } else if any_reserved {
        push_string(out, text);
    } else {
        push_text(out, text);
    }
}

/// Appends one row as a JSON object.
fn push_object(out: &mut String, row: &Row)
    ensures
        final(out)@ == old(out)@ + json_object(row@),
{
    let ghost fields = json_fields(row@);
    push_char(out, '{');
    let mut i: usize = 0;
    while i < row.columns.len()
        invariant
            i <= row.columns@.len(),
            fields == json_fields(row@),
            out@ == old(out)@ + seq!['{'] + joined(fields.take(i as int), field_separator()),
        decreases row.columns@.len() - i,
    {
        let ghost start = out@;
        proof {
            joined_push(fields.take(i as int), field_separator(), fields[i as int]);
            assert(fields.take(i + 1) == fields.take(i as int).push(fields[i as int]));
            assert(fields[i as int] == json_field(row.columns@[i as int]@));
        }
        if i > 0 {
            push_char(out, ',');
            push_char(out, ' ');
            assert(out@ == start + field_separator());
        }
        let ghost separated = out@;
        push_string(out, row.columns[i].name.as_str());
        push_char(out, ':');
        push_char(out, ' ');
        push_value(out, row.columns[i].value.as_str());
        proof {
            assert(out@ == separated + json_field(row.columns@[i as int]@));
        }
        i = i + 1;
    }
    push_char(out, '}');
    proof {
        assert(fields.take(i as int) == fields);
    }
}

/// Writes rows as one JSON array, one row at a time.
///
/// Whether a comma is due is decided by what has already been written, not
/// by a count of rows still to come: the separator goes before every object
/// but the first, so the array is well formed however many rows arrive.
#[derive(Clone, Copy, Debug, PartialEq, Eq, Structural)]
pub struct JsonFormatter {
    state: JsonState,
}

impl View for JsonFormatter {
    type V = JsonState;

    closed spec fn view(&self) -> JsonState {
        self.state
    }
}

impl JsonFormatter {
    /// A formatter that has written nothing yet.
    pub fn new() -> (formatter: JsonFormatter)
        ensures
            formatter@ == JsonState::AwaitingFirst,
    {
        JsonFormatter { state: JsonState::AwaitingFirst }
    }

    /// Where the formatter stands.
    pub fn state(&self) -> (state: JsonState)
        ensures
            state == self@,
    {
        self.state
    }

    /// Writes one row and returns the text for it: the opening bracket if
    /// this is the first row, else a comma, and then the row's object. From
    /// then on the formatter is `Emitting`.
    pub fn push_row(&mut self, row: &Row) -> (out: String)
        ensures
            out@ == json_chunk(old(self)@, row@),
            final(self)@ == JsonState::Emitting,
    {
        let mut out = String::new();
        match self.state {
            JsonState::AwaitingFirst => {
                push_char(&mut out, '[');
            },
            JsonState::Emitting => {
                push_char(&mut out, ',');
            },
        }
        push_object(&mut out, row);
        self.state = JsonState::Emitting;
        out
    }

    /// Ends the document and returns the text that closes it: `]`, or `[]`
    /// where no row was ever written.
    pub fn finish(self) -> (out: String)
        ensures
            out@ == json_tail(self@),
    {
        let mut out = String::new();
        match self.state {
            JsonState::AwaitingFirst => {
                push_char(&mut out, '[');
            },
            JsonState::Emitting => {},
        }
        push_char(&mut out, ']');
        out
    }
}

/// The text of a formatter's chunks and of its ending, taken together, is
/// the JSON document of the rows it was given: the commas of the stream are
/// those of the document, whatever the number of rows turns out to be.
pub proof fn json_stream_is_array(rows: Seq<RowView>)
    ensures
        json_stream(rows) + json_tail(json_state_after(rows.len())) == json_array(rows),
        rows.len() > 0 ==> json_stream(rows) == seq!['['] + joined(
            json_objects(rows),
            object_separator(),
        ),
    decreases rows.len(),
{
    if rows.len() == 0 {
        assert(json_objects(rows) == Seq::<Seq<char>>::empty());
        assert(json_stream(rows) + json_tail(json_state_after(rows.len())) == json_array(rows));
    } else {
        let before = rows.drop_last();
        let last = rows.last();
        json_stream_is_array(before);
        assert(json_objects(rows) == json_objects(before).push(json_object(last)));
        joined_push(json_objects(before), object_separator(), json_object(last));
        if before.len() == 0 {
            assert(json_stream(rows) == seq!['['] + json_object(last));
        } else {
            assert(json_stream(rows) == seq!['['] + joined(json_objects(before), object_separator())
                + object_separator() + json_object(last));
        }
        assert(json_stream(rows) + seq![']'] == json_array(rows));
    }
}

/// The JSON document of no rows is exactly `[]`.
pub proof fn json_of_no_rows_is_empty_array()
    ensures
        json_array(Seq::<RowView>::empty()) == seq!['[', ']'],
        json_array(Seq::<RowView>::empty()) == "[]"@,
        json_tail(JsonState::AwaitingFirst) == json_array(Seq::<RowView>::empty()),
{
    reveal_strlit("[]");
    assert(json_objects(Seq::<RowView>::empty()) == Seq::<Seq<char>>::empty());
    assert(json_array(Seq::<RowView>::empty()) == seq!['[', ']']);
    assert("[]"@ == seq!['[', ']']);
}

/// The JSON document of `rows` holds one object per row and nothing else
/// between its brackets but the commas that part neighbours: as many
/// objects as rows, in row order, one comma fewer than objects, and so no
/// comma after the last object, which the closing bracket follows at once.
pub proof fn json_array_holds_one_object_per_row(rows: Seq<RowView>)
    ensures
        json_objects(rows).len() == rows.len(),
        forall|i: int|
            0 <= i < rows.len() ==> (#[trigger] json_objects(rows)[i]) == json_object(rows[i]),
        json_array(rows) == seq!['['] + joined(json_objects(rows), object_separator()) + seq![
            ']',
        ],
        joined(json_objects(rows), object_separator()).len() == total_len(json_objects(rows))
            + gaps(rows.len()),
        rows.len() > 0 ==> {
            let text = json_array(rows);
            &&& text.len() >= 4
            &&& text[0] == '['
            &&& text[1] == '{'
            &&& text[text.len() - 2] == '}'
            &&& text[text.len() - 1] == ']'
        },
{
    joined_len(json_objects(rows), object_separator());
    assert(gaps(rows.len()) * object_separator().len() == gaps(rows.len())) by (nonlinear_arith)
        requires
            object_separator().len() == 1,
    ;
    if rows.len() > 0 {
        let objects = json_objects(rows);
        object_ends(rows.last());
        object_ends(rows[0]);
        joined_ends(objects, object_separator());
        assert(objects[0] == json_object(rows[0]));
        assert(objects.last() == json_object(rows.last()));
    }
}

/// Whether `t` can stand between the quotes of a JSON string without
/// ending it early: it holds no control character, and each double quote in
/// it follows a backslash.
pub open spec fn safe_in_string(t: Seq<char>) -> bool {
    forall|i: int|
        0 <= i < t.len() ==> {
            &&& !is_control(#[trigger] t[i])
            &&& (t[i] == '"' ==> i > 0 && t[i - 1] == '\\')
        }
}

/// Escaped text is safe inside a JSON string, whatever text it was made
/// of: no control character is left in it, and no double quote stands in
/// it without its backslash.
pub proof fn escaped_is_safe_in_string(s: Seq<char>)
    ensures
        safe_in_string(json_escaped(s)),
    decreases s.len(),
{
    if s.len() > 0 {
        let before = json_escaped(s.drop_last());
        let escape = json_escape_char(s.last());
        let all = json_escaped(s);
        escaped_is_safe_in_string(s.drop_last());
        assert(all == before + escape);
        assert forall|i: int| 0 <= i < all.len() implies {
            &&& !is_control(#[trigger] all[i])
            &&& (all[i] == '"' ==> i > 0 && all[i - 1] == '\\')
        } by {
            if i < before.len() {
                assert(all[i] == before[i]);
                if i > 0 {
                    assert(all[i - 1] == before[i - 1]);
                }
            } else {
                let j = i - before.len();
                assert(all[i] == escape[j]);
                if j > 0 {
                    assert(all[i - 1] == escape[j - 1]);
                }
            }
        }
    }
}

/// A value is written either as its rendering, untouched, which then holds
/// no reserved character, or as a JSON string whose inside is safe: a
/// reserved character never reaches the document bare.
pub proof fn value_is_plain_or_string(text: Seq<char>)
    ensures
        (json_value(text) == text && !has_reserved(text)) || (exists|inner: Seq<char>|
            json_value(text) == seq!['"'] + inner + seq!['"'] && #[trigger] safe_in_string(inner)),
{
    if is_quoted(text) {
        let inner = json_escaped(text.subrange(1, text.len() - 1));
        escaped_is_safe_in_string(text.subrange(1, text.len() - 1));
        assert(json_value(text) == seq!['"'] + inner + seq!['"'] && safe_in_string(inner));
    } else if has_reserved(text) {
        let inner = json_escaped(text);
        escaped_is_safe_in_string(text);
        assert(json_value(text) == seq!['"'] + inner + seq!['"'] && safe_in_string(inner));
    }
}

/// An object starts with an opening brace and ends with a closing one.
proof fn object_ends(row: RowView)
    ensures
        json_object(row).len() >= 2,
        json_object(row)[0] == '{',
        json_object(row).last() == '}',
{
}

} // verus!
