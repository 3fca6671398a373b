//! Serializing string fields as JSON text. The serialized prompt — a JSON
//! object of the record's fields in order — is the text whose token count is
//! budgeted and whose characters are partitioned.

use vstd::prelude::*;
use vstd::string::StrSliceExecFns;
use vstd::string::StringExecFns;

verus! {

/// The lowercase hexadecimal digit for a value below sixteen.
pub open spec fn spec_hex_digit(n: int) -> char {
    if n == 0 {
        '0'
    } else if n == 1 {
        '1'
    } else if n == 2 {
        '2'
    } else if n == 3 {
        '3'
    } else if n == 4 {
        '4'
    } else if n == 5 {
        '5'
    } else if n == 6 {
        '6'
    } else if n == 7 {
        '7'
    } else if n == 8 {
        '8'
    } else if n == 9 {
        '9'
    } else if n == 10 {
        'a'
    } else if n == 11 {
        'b'
    } else if n == 12 {
        'c'
    } else if n == 13 {
        'd'
    } else if n == 14 {
        'e'
    } else {
        'f'
    }
}

/// How one character appears inside a JSON string: quotes and backslashes get
/// a two-character escape, as do the named control characters; the remaining
/// control characters get a six-character hexadecimal escape; every other
/// character stands for itself.
pub open spec fn spec_escape_char(c: char) -> Seq<char> {
    if c == '"' {
        seq!['\\', '"']
    } else if c == '\\' {
        seq!['\\', '\\']
    } else if c == '\u{0008}' {
        seq!['\\', 'b']
    } else if c == '\u{0009}' {
        seq!['\\', 't']
    } else if c == '\u{000a}' {
        seq!['\\', 'n']
    } else if c == '\u{000c}' {
        seq!['\\', 'f']
    } else if c == '\u{000d}' {
        seq!['\\', 'r']
    } else if (c as u32) < 32 {
        seq!['\\', 'u', '0', '0', spec_hex_digit(c as u32 as int / 16), spec_hex_digit(c as u32 as int % 16)]
    } else {
        seq![c]
    }
}

/// A text with each of its characters escaped for JSON, in order.
pub open spec fn spec_escape(s: Seq<char>) -> Seq<char>
    decreases s.len(),
{
    if s.len() == 0 {
        Seq::empty()
    } else {
        spec_escape(s.drop_last()) + spec_escape_char(s.last())
    }
}

/// A JSON string literal: the escaped text between double quotes.
pub open spec fn spec_json_string(s: Seq<char>) -> Seq<char> {
    seq!['"'] + spec_escape(s) + seq!['"']
}

/// One member of a JSON object: the name and the value as JSON strings,
/// separated by a colon.
pub open spec fn spec_member(name: Seq<char>, value: Seq<char>) -> Seq<char> {
    spec_json_string(name) + seq![':'] + spec_json_string(value)
}

/// Relies on String::push: it appends exactly the one character.
#[verifier::external_body]
pub(crate) fn push_char(out: &mut String, c: char)
    ensures
        final (out)@ == old(out)@.push(c),
{
    out.push(c);
}

/// The lowercase hexadecimal digit character for a nibble.
fn hex_digit(n: u8) -> (c: char)
    requires
        n < 16,
    ensures
        c == spec_hex_digit(n as int),
{
    if n == 0 {
        '0'
    } else if n == 1 {
        '1'
    } else if n == 2 {
        '2'
    } else if n == 3 {
        '3'
    } else if n == 4 {
        '4'
    } else if n == 5 {
        '5'
    } else if n == 6 {
        '6'
    } else if n == 7 {
        '7'
    } else if n == 8 {
        '8'
    } else if n == 9 {
        '9'
    } else if n == 10 {
        'a'
    } else if n == 11 {
        'b'
    } else if n == 12 {
        'c'
    } else if n == 13 {
        'd'
    } else if n == 14 {
        'e'
    } else {
        'f'
    }
}

/// Appends the JSON escape of one character.
fn push_escaped_char(out: &mut String, c: char)
    ensures
        final (out)@ == old(out)@ + spec_escape_char(c),
{
    if c == '"' {
        push_char(out, '\\');
        push_char(out, '"');
        assert(old(out)@.push('\\').push('"') =~= old(out)@ + spec_escape_char(c));
    } else if c == '\\' {
        push_char(out, '\\');
        push_char(out, '\\');
        assert(old(out)@.push('\\').push('\\') =~= old(out)@ + spec_escape_char(c));
    } else if c == '\u{0008}' {
        push_char(out, '\\');
        push_char(out, 'b');
        assert(old(out)@.push('\\').push('b') =~= old(out)@ + spec_escape_char(c));
    } else if c == '\u{0009}' {
        push_char(out, '\\');
        push_char(out, 't');
        assert(old(out)@.push('\\').push('t') =~= old(out)@ + spec_escape_char(c));
    } else if c == '\u{000a}' {
        push_char(out, '\\');
        push_char(out, 'n');
        assert(old(out)@.push('\\').push('n') =~= old(out)@ + spec_escape_char(c));
    } else if c == '\u{000c}' {
        push_char(out, '\\');
        push_char(out, 'f');
        assert(old(out)@.push('\\').push('f') =~= old(out)@ + spec_escape_char(c));
    } else if c == '\u{000d}' {
        push_char(out, '\\');
        push_char(out, 'r');
        assert(old(out)@.push('\\').push('r') =~= old(out)@ + spec_escape_char(c));
    } else if (c as u32) < 32 {
        let n: u32 = c as u32;
        push_char(out, '\\');
        push_char(out, 'u');
        push_char(out, '0');
        push_char(out, '0');
        push_char(out, hex_digit((n / 16) as u8));
        push_char(out, hex_digit((n % 16) as u8));
        assert(old(out)@.push('\\').push('u').push('0').push('0').push(
            spec_hex_digit(c as u32 as int / 16),
        ).push(spec_hex_digit(c as u32 as int % 16)) =~= old(out)@ + spec_escape_char(c));
    } else {
        push_char(out, c);
        assert(old(out)@.push(c) =~= old(out)@ + spec_escape_char(c));
    }
}

/// The text as a JSON string literal: quoted, with every character escaped.
pub fn json_string(s: &str) -> (r: String)
    ensures
        r@ == spec_json_string(s@),
{
    let mut out = String::new();
    push_char(&mut out, '"');
    let n: usize = s.unicode_len();
    let mut i: usize = 0;
    proof {
        assert(s@.take(0) =~= Seq::<char>::empty());
        assert(out@ =~= seq!['"'] + spec_escape(s@.take(0)));
    }
    while i < n
        invariant
            i <= n,
            n == s@.len(),
            out@ == seq!['"'] + spec_escape(s@.take(i as int)),
        decreases n - i,
    {
        let c = s.get_char(i);
        push_escaped_char(&mut out, c);
        proof {
            assert(s@.take(i + 1).drop_last() =~= s@.take(i as int));
            assert(s@.take(i + 1).last() == s@[i as int]);
            assert((seq!['"'] + spec_escape(s@.take(i as int))) + spec_escape_char(s@[i as int])
                =~= seq!['"'] + spec_escape(s@.take(i + 1)));
        }
        i = i + 1;
    }
    push_char(&mut out, '"');
    proof {
        assert(s@.take(n as int) =~= s@);
        assert((seq!['"'] + spec_escape(s@)).push('"') =~= spec_json_string(s@));
    }
    out
}

/// Appends one member of a JSON object: the name, a colon, and the value.
pub fn append_member(out: &mut String, name: &str, value: &str)
    ensures
        final (out)@ == old(out)@ + spec_member(name@, value@),
{
    let n = json_string(name);
    out.append(n.as_str());
    push_char(out, ':');
    let v = json_string(value);
    out.append(v.as_str());
    assert(((old(out)@ + spec_json_string(name@)).push(':') + spec_json_string(value@)) =~= old(
        out,
    )@ + spec_member(name@, value@));
}

} // verus!
