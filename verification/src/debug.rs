//! The text that the `Debug` implementations of messages produce: messages
//! as structs or tuples of their fields, repeated fields as lists, maps as
//! `{key: value}`, optional fields as `None` or `Some(..)`, enumeration
//! values by variant name.
use vstd::prelude::*;

use crate::text::{push_str, string_from_chars};

verus! {

/// The decimal digit for a number below ten.
pub open spec fn digit_char(d: nat) -> char {
    if d == 0 {
        '0'
    } else if d == 1 {
        '1'
    } else if d == 2 {
        '2'
    } else if d == 3 {
        '3'
    } else if d == 4 {
        '4'
    } else if d == 5 {
        '5'
    } else if d == 6 {
        '6'
    } else if d == 7 {
        '7'
    } else if d == 8 {
        '8'
    } else {
        '9'
    }
}

/// The decimal digits of `n`, most significant first.
pub open spec fn spec_digits(n: nat) -> Seq<char>
    decreases n,
{
    if n < 10 {
        seq![digit_char(n)]
    } else {
        spec_digits(n / 10) + seq![digit_char(n % 10)]
    }
}

/// An integer in decimal, with a minus sign when negative.
pub open spec fn spec_decimal(v: int) -> Seq<char> {
    if v < 0 {
        seq!['-'] + spec_digits((-v) as nat)
    } else {
        spec_digits(v as nat)
    }
}

/// Appends the decimal digits of `n`.
fn push_digits(out: &mut Vec<char>, n: u64)
    ensures
        final(out)@ == old(out)@ + spec_digits(n as nat),
    decreases n,
{
    if n >= 10 {
        push_digits(out, n / 10);
    }
    let d = n % 10;
    let c = match d {
        0 => '0',
        1 => '1',
        2 => '2',
        3 => '3',
        4 => '4',
        5 => '5',
        6 => '6',
        7 => '7',
        8 => '8',
        9 => '9',
        _ => '9',
    };
    out.push(c);
    assert(final(out)@ =~= old(out)@ + spec_digits(n as nat));
}

/// Appends an integer in decimal.
fn push_decimal(out: &mut Vec<char>, v: i64)
    ensures
        final(out)@ == old(out)@ + spec_decimal(v as int),
{
    if v < 0 {
        out.push('-');
        let magnitude: u64 = (0i128 - v as i128) as u64;
        push_digits(out, magnitude);
        assert(final(out)@ =~= old(out)@ + spec_decimal(v as int));
    } else {
        push_digits(out, v as u64);
    }
}

/// The `Debug` text of an integer: its decimal digits.
pub fn fmt_decimal(v: i64) -> (r: String)
    ensures
        r@ == spec_decimal(v as int),
{
    let mut out: Vec<char> = Vec::new();
    push_decimal(&mut out, v);
    assert(out@ =~= spec_decimal(v as int));
    string_from_chars(&out)
}

/// The `Debug` text of an unsigned integer: its decimal digits.
pub fn fmt_unsigned(v: u64) -> (r: String)
    ensures
        r@ == spec_digits(v as nat),
{
    let mut out: Vec<char> = Vec::new();
    push_digits(&mut out, v);
    assert(out@ =~= spec_digits(v as nat));
    string_from_chars(&out)
}

/// The lowercase hexadecimal digit for a number below sixteen.
pub open spec fn hex_char(d: nat) -> char {
    if d < 10 {
        digit_char(d)
    } else if d == 10 {
        'a'
    } else if d == 11 {
        'b'
    } else if d == 12 {
        'c'
    } else if d == 13 {
        'd'
    } else if d == 14 {
        'e'
    } else {
        'f'
    }
}

/// An ASCII control character, other than the ones with a short escape.
pub open spec fn is_ascii_control(c: char) -> bool {
    (c as u32) < 0x20 || (c as u32) == 0x7f
}

/// How `Debug` writes a character inside a quoted string: quotes,
/// backslashes, NUL, newlines, carriage returns and tabs behind a
/// backslash; other ASCII control characters as `\u{..}` with their code in
/// lowercase hexadecimal; all other characters as they are.
pub open spec fn spec_escape_char(c: char) -> Seq<char> {
    if c == '"' {
        seq!['\\', '"']
    } else if c == '\\' {
        seq!['\\', '\\']
    } else if c == '\0' {
        seq!['\\', '0']
    } else if c == '\n' {
        seq!['\\', 'n']
    } else if c == '\r' {
        seq!['\\', 'r']
    } else if c == '\t' {
        seq!['\\', 't']
    } else if is_ascii_control(c) {
        let v = c as u32 as nat;
        seq!['\\', 'u', '{'] + (if v < 16 {
            seq![hex_char(v)]
        } else {
            seq![hex_char(v / 16), hex_char(v % 16)]
        }) + seq!['}']
    } else {
        seq![c]
    }
}

/// Appends the lowercase hexadecimal digit for a number below sixteen.
fn push_hex(out: &mut Vec<char>, d: u32)
    requires
        d < 16,
    ensures
        final(out)@ == old(out)@.push(hex_char(d as nat)),
{
    let c = match d {
        0 => '0',
        1 => '1',
        2 => '2',
        3 => '3',
        4 => '4',
        5 => '5',
        6 => '6',
        7 => '7',
        8 => '8',
        9 => '9',
        10 => 'a',
        11 => 'b',
        12 => 'c',
        13 => 'd',
        14 => 'e',
        _ => 'f',
    };
    out.push(c);
}

/// Appends how `Debug` writes `c` inside a quoted string.
fn push_escaped(out: &mut Vec<char>, c: char)
    ensures
        final(out)@ == old(out)@ + spec_escape_char(c),
{
    if c == '"' {
        out.push('\\');
        out.push('"');
    } else if c == '\\' {
        out.push('\\');
        out.push('\\');
    } else if c == '\0' {
        out.push('\\');
        out.push('0');
    } else if c == '\n' {
        out.push('\\');
        out.push('n');
    } else if c == '\r' {
        out.push('\\');
        out.push('r');
    } else if c == '\t' {
        out.push('\\');
        out.push('t');
    } else if (c as u32) < 0x20 || (c as u32) == 0x7f {
        let v = c as u32;
        out.push('\\');
        out.push('u');
        out.push('{');
        if v < 16 {
            push_hex(out, v);
        } else {
            push_hex(out, v / 16);
            push_hex(out, v % 16);
        }
        out.push('}');
    } else {
        out.push(c);
    }
    assert(final(out)@ =~= old(out)@ + spec_escape_char(c));
}

/// The escaped characters of a string.
pub open spec fn spec_escape(s: Seq<char>) -> Seq<char>
    decreases s.len(),
{
    if s.len() == 0 {
        Seq::empty()
    } else {
        spec_escape(s.drop_last()) + spec_escape_char(s.last())
    }
}

/// The `Debug` text of a string: the string in double quotes, escaped.
/// Characters beyond ASCII are written as they are; the `Debug` of `str`
/// also escapes the unprintable and combining ones among them.
pub fn debug_str(s: &str) -> (r: String)
    ensures
        r@ == seq!['"'] + spec_escape(s@) + seq!['"'],
{
    broadcast use vstd::string::axiom_spec_iter;

    let mut out: Vec<char> = Vec::new();
    out.push('"');
    assert(s@.len() == 0 ==> s@ =~= s@.take(0));
    for c in it: s.chars()
        invariant
            out@ == seq!['"'] + spec_escape(it.seq().take(it.index())),
            it.seq() == s@,
            it.index() == s@.len() ==> out@ == seq!['"'] + spec_escape(s@),
    {
        push_escaped(&mut out, c);
        assert(it.seq().take(it.index() + 1).drop_last() =~= it.seq().take(it.index()));
        assert(out@ =~= seq!['"'] + spec_escape(it.seq().take(it.index() + 1)));
        assert(s@.take(s@.len() as int) =~= s@);
    }
    out.push('"');
    string_from_chars(&out)
}

/// Parts separated by a comma and a space.
pub open spec fn spec_join(parts: Seq<Seq<char>>) -> Seq<char>
    decreases parts.len(),
{
    if parts.len() == 0 {
        Seq::empty()
    } else if parts.len() == 1 {
        parts[0]
    } else {
        spec_join(parts.drop_last()) + seq![',', ' '] + parts.last()
    }
}

/// The characters of each string.
pub open spec fn texts(parts: Seq<String>) -> Seq<Seq<char>> {
    Seq::new(parts.len(), |i: int| parts[i]@)
}

/// Joining one more part adds a separator, unless it is the first.
proof fn lemma_join_step(parts: Seq<Seq<char>>, i: int)
    requires
        0 <= i < parts.len(),
    ensures
        spec_join(parts.take(i + 1)) == spec_join(parts.take(i)) + (if i == 0 {
            Seq::<char>::empty()
        } else {
            seq![',', ' ']
        }) + parts[i],
{
    assert(parts.take(i + 1).drop_last() =~= parts.take(i));
    if i == 0 {
        assert(spec_join(parts.take(0)) =~= Seq::<char>::empty());
        assert(spec_join(parts.take(1)) =~= Seq::<char>::empty() + Seq::<char>::empty() + parts[0]);
    }
}

/// Appends the strings separated by a comma and a space.
pub(crate) fn push_joined(out: &mut Vec<char>, parts: &[String])
    ensures
        final(out)@ == old(out)@ + spec_join(texts(parts@)),
{
    let ghost start = out@;
    let ghost views = texts(parts@);
    let mut i: usize = 0;
    while i < parts.len()
        invariant
            i <= parts@.len(),
            views == texts(parts@),
            start == old(out)@,
            out@ == start + spec_join(views.take(i as int)),
        decreases parts@.len() - i,
    {
        proof {
            lemma_join_step(views, i as int);
        }
        if i > 0 {
            out.push(',');
            out.push(' ');
        }
        push_str(out, parts[i].as_str());
        assert(out@ =~= start + spec_join(views.take(i + 1)));
        i = i + 1;
    }
    assert(views.take(parts@.len() as int) =~= views);
}

/// The `Debug` text of a tuple struct: its name alone without fields,
/// otherwise its name and its fields in parentheses.
pub fn debug_tuple(name: &str, fields: &[String]) -> (r: String)
    ensures
        fields@.len() == 0 ==> r@ == name@,
        fields@.len() > 0 ==> r@ == name@ + seq!['('] + spec_join(texts(fields@)) + seq![')'],
{
    let mut out: Vec<char> = Vec::new();
    push_str(&mut out, name);
    if fields.len() == 0 {
        assert(out@ =~= name@);
        return string_from_chars(&out);
    }
    out.push('(');
    push_joined(&mut out, fields);
    out.push(')');
    assert(out@ =~= name@ + seq!['('] + spec_join(texts(fields@)) + seq![')']);
    string_from_chars(&out)
}

/// The text of each named field: the name, a colon and a space, the value.
pub open spec fn field_texts(fields: Seq<(&str, String)>) -> Seq<Seq<char>> {
    Seq::new(fields.len(), |i: int| fields[i].0@ + seq![':', ' '] + fields[i].1@)
}

/// The `Debug` text of a struct: its name alone without fields, otherwise
/// its name and its named fields in braces.
pub fn debug_struct(name: &str, fields: &[(&str, String)]) -> (r: String)
    ensures
        fields@.len() == 0 ==> r@ == name@,
        fields@.len() > 0 ==> r@ == name@ + seq![' ', '{', ' '] + spec_join(field_texts(fields@))
            + seq![' ', '}'],
{
    let mut out: Vec<char> = Vec::new();
    push_str(&mut out, name);
    if fields.len() == 0 {
        assert(out@ =~= name@);
        return string_from_chars(&out);
    }
    out.push(' ');
    out.push('{');
    out.push(' ');
    let ghost start = out@;
    let ghost views = field_texts(fields@);
    let mut i: usize = 0;
    while i < fields.len()
        invariant
            i <= fields@.len(),
            views == field_texts(fields@),
            out@ == start + spec_join(views.take(i as int)),
        decreases fields@.len() - i,
    {
        proof {
            lemma_join_step(views, i as int);
        }
        if i > 0 {
            out.push(',');
            out.push(' ');
        }
        let field = &fields[i];
        push_str(&mut out, field.0);
        out.push(':');
        out.push(' ');
        push_str(&mut out, field.1.as_str());
        assert(out@ =~= start + spec_join(views.take(i + 1)));
        i = i + 1;
    }
    assert(views.take(fields@.len() as int) =~= views);
    out.push(' ');
    out.push('}');
    assert(out@ =~= name@ + seq![' ', '{', ' '] + spec_join(field_texts(fields@)) + seq![' ', '}']);
    string_from_chars(&out)
}

/// The `Debug` text of a repeated field: its items in brackets.
pub fn debug_list(items: &[String]) -> (r: String)
    ensures
        r@ == seq!['['] + spec_join(texts(items@)) + seq![']'],
{
    let mut out: Vec<char> = Vec::new();
    out.push('[');
    push_joined(&mut out, items);
    out.push(']');
    assert(out@ =~= seq!['['] + spec_join(texts(items@)) + seq![']']);
    string_from_chars(&out)
}

/// The text of each map entry: the key, a colon and a space, the value.
pub open spec fn entry_texts(entries: Seq<(String, String)>) -> Seq<Seq<char>> {
    Seq::new(entries.len(), |i: int| entries[i].0@ + seq![':', ' '] + entries[i].1@)
}

/// The `Debug` text of a map field: its entries in braces.
pub fn debug_map(entries: &[(String, String)]) -> (r: String)
    ensures
        r@ == seq!['{'] + spec_join(entry_texts(entries@)) + seq!['}'],
{
    let mut out: Vec<char> = Vec::new();
    out.push('{');
    let ghost start = out@;
    let ghost views = entry_texts(entries@);
    let mut i: usize = 0;
    while i < entries.len()
        invariant
            i <= entries@.len(),
            views == entry_texts(entries@),
            out@ == start + spec_join(views.take(i as int)),
        decreases entries@.len() - i,
    {
        proof {
            lemma_join_step(views, i as int);
        }
        if i > 0 {
            out.push(',');
            out.push(' ');
        }
        let entry = &entries[i];
        push_str(&mut out, entry.0.as_str());
        out.push(':');
        out.push(' ');
        push_str(&mut out, entry.1.as_str());
        assert(out@ =~= start + spec_join(views.take(i + 1)));
        i = i + 1;
    }
    assert(views.take(entries@.len() as int) =~= views);
    out.push('}');
    assert(out@ =~= seq!['{'] + spec_join(entry_texts(entries@)) + seq!['}']);
    string_from_chars(&out)
}

/// The `Debug` text of an optional field: `None`, or the value in
/// `Some(..)`.
pub fn debug_option(value: Option<&str>) -> (r: String)
    ensures
        value is None ==> r@ == seq!['N', 'o', 'n', 'e'],
        value matches Some(v) ==> r@ == seq!['S', 'o', 'm', 'e', '('] + v@ + seq![')'],
{
    let mut out: Vec<char> = Vec::new();
    match value {
        None => {
            out.push('N');
            out.push('o');
            out.push('n');
            out.push('e');
            assert(out@ =~= seq!['N', 'o', 'n', 'e']);
        },
        Some(v) => {
            out.push('S');
            out.push('o');
            out.push('m');
            out.push('e');
            out.push('(');
            push_str(&mut out, v);
            out.push(')');
            assert(out@ =~= seq!['S', 'o', 'm', 'e', '('] + v@ + seq![')']);
        },
    }
    string_from_chars(&out)
}

/// The decimal text of each byte.
pub open spec fn byte_texts(bytes: Seq<u8>) -> Seq<Seq<char>> {
    Seq::new(bytes.len(), |i: int| spec_decimal(bytes[i] as int))
}

/// The `Debug` text of a bytes field: the bytes in decimal, in brackets.
pub fn debug_bytes(bytes: &[u8]) -> (r: String)
    ensures
        r@ == seq!['['] + spec_join(byte_texts(bytes@)) + seq![']'],
{
    let mut out: Vec<char> = Vec::new();
    out.push('[');
    let ghost start = out@;
    let ghost views = byte_texts(bytes@);
    let mut i: usize = 0;
    while i < bytes.len()
        invariant
            i <= bytes@.len(),
            views == byte_texts(bytes@),
            out@ == start + spec_join(views.take(i as int)),
        decreases bytes@.len() - i,
    {
        proof {
            lemma_join_step(views, i as int);
        }
        if i > 0 {
            out.push(',');
            out.push(' ');
        }
        push_decimal(&mut out, bytes[i] as i64);
        assert(out@ =~= start + spec_join(views.take(i + 1)));
        i = i + 1;
    }
    assert(views.take(bytes@.len() as int) =~= views);
    out.push(']');
    assert(out@ =~= seq!['['] + spec_join(byte_texts(bytes@)) + seq![']']);
    string_from_chars(&out)
}

} // verus!
