//! Executable text building blocks for the codec: pushing single
//! characters, turning a `&str` into its characters, writing names and
//! escaped strings, and the small character tables.

use vstd::prelude::*;
use vstd::string::StrSliceExecFns;
use vstd::string::StringExecFns;
use vstd::utf8::is_scalar;
use crate::codec::{
    digit_char, enc_string, esc_char, esc_str, hex_char, hex_val, is_plain_char,
    lemma_esc_plain,
};

verus! {

/// Relies on `String::push`: appends exactly the given character.
#[verifier::external_body]
pub(crate) fn push_char(s: &mut String, c: char)
    ensures
        final(s)@ == old(s)@ + seq![c],
{
    s.push(c);
}

/// Relies on `char::from_u32`: its documentation promises `Some`, holding
/// the character with that code, exactly for Unicode scalar values, which
/// the precondition restricts to.
#[verifier::external_body]
pub(crate) fn char_of_code(u: u32) -> (c: char)
    requires
        is_scalar(u),
    ensures
        c as u32 == u,
{
    char::from_u32(u).expect("a Unicode scalar value")
}

/// The characters of a string slice, in order.
pub fn str_chars(s: &str) -> (v: Vec<char>)
    ensures
        v@ == s@,
{
    let n = s.unicode_len();
    let mut v: Vec<char> = Vec::new();
    for i in 0..n
        invariant
            n == s@.len(),
            v@ == s@.take(i as int),
    {
        v.push(s.get_char(i));
        assert(v@ =~= s@.take(i + 1));
    }
    assert(v@ =~= s@);
    v
}

/// The code of a character.
pub(crate) fn char_code(c: char) -> (u: u32)
    ensures
        u == c as u32,
{
    c as u32
}

/// The decimal digit character for a coordinate.
pub(crate) fn digit_char_exec(d: u8) -> (c: char)
    requires
        d < 10,
    ensures
        c == digit_char(d as int),
{
    match d {
        0 => '0',
        1 => '1',
        2 => '2',
        3 => '3',
        4 => '4',
        5 => '5',
        6 => '6',
        7 => '7',
        8 => '8',
        _ => '9',
    }
}

/// The lower-case hex digit character for a value below 16.
pub(crate) fn hex_char_exec(n: u32) -> (c: char)
    requires
        n < 16,
    ensures
        c == hex_char(n as int),
{
    match n {
        0 => '0',
        1 => '1',
        2 => '2',
        3 => '3',
        4 => '4',
        5 => '5',
        6 => '6',
        7 => '7',
        8 => '8',
        9 => '9',
        10 => 'a',
        11 => 'b',
        12 => 'c',
        13 => 'd',
        14 => 'e',
        _ => 'f',
    }
}

/// The value of a hex digit character, or 16 for any other character.
pub(crate) fn hex_val_exec(c: char) -> (n: u32)
    ensures
        n == hex_val(c),
{
    if c == '0' { 0 } else if c == '1' { 1 } else if c == '2' { 2 } else if c == '3' { 3 }
    else if c == '4' { 4 } else if c == '5' { 5 } else if c == '6' { 6 } else if c == '7' { 7 }
    else if c == '8' { 8 } else if c == '9' { 9 }
    else if c == 'a' || c == 'A' { 10 } else if c == 'b' || c == 'B' { 11 }
    else if c == 'c' || c == 'C' { 12 } else if c == 'd' || c == 'D' { 13 }
    else if c == 'e' || c == 'E' { 14 } else if c == 'f' || c == 'F' { 15 }
    else { 16 }
}

/// Appending one character to a text appends its escape to the written
/// form.
pub proof fn lemma_esc_snoc(t: Seq<char>, c: char)
    ensures
        esc_str(t.push(c)) == esc_str(t) + esc_char(c),
    decreases t.len(),
{
    if t.len() == 0 {
        assert(t.push(c).drop_first() =~= Seq::<char>::empty());
        assert(t.push(c)[0] == c);
        assert(esc_str(Seq::<char>::empty()) == Seq::<char>::empty());
        assert(esc_str(t.push(c)) == esc_char(c) + Seq::<char>::empty());
        assert(esc_char(c) + Seq::<char>::empty() =~= esc_char(c));
        assert(esc_str(t) + esc_char(c) =~= esc_char(c));
    } else {
        assert(t.push(c).drop_first() =~= t.drop_first().push(c));
        lemma_esc_snoc(t.drop_first(), c);
        assert(esc_str(t.push(c)) == esc_char(t[0]) + (esc_str(t.drop_first()) + esc_char(c)));
        assert(esc_char(t[0]) + (esc_str(t.drop_first()) + esc_char(c)) =~= (esc_char(t[0])
            + esc_str(t.drop_first())) + esc_char(c));
    }
}

/// Appends a quoted name (a text of plain characters, which needs no
/// escapes).
pub(crate) fn append_name(out: &mut String, name: &str)
    requires
        forall|i: int| 0 <= i < name@.len() ==> is_plain_char(#[trigger] name@[i]),
    ensures
        final(out)@ == old(out)@ + enc_string(name@),
{
    push_char(out, '"');
    out.append(name);
    push_char(out, '"');
    proof {
        lemma_esc_plain(name@);
        assert(final(out)@ =~= old(out)@ + enc_string(name@));
    }
}

/// Appends a field key: the quoted name and a colon.
pub(crate) fn append_key(out: &mut String, name: &str)
    requires
        forall|i: int| 0 <= i < name@.len() ==> is_plain_char(#[trigger] name@[i]),
    ensures
        final(out)@ == old(out)@ + (enc_string(name@) + seq![':']),
{
    append_name(out, name);
    push_char(out, ':');
    assert(final(out)@ =~= old(out)@ + (enc_string(name@) + seq![':']));
}

/// Appends one JSON string, escaping as the wire format demands.
pub(crate) fn append_jstring(out: &mut String, t: &str)
    ensures
        final(out)@ == old(out)@ + enc_string(t@),
{
    let ghost base = out@;
    push_char(out, '"');
    assert(out@ =~= base + seq!['"'] + esc_str(t@.take(0)));
    let n = t.unicode_len();
    for i in 0..n
        invariant
            n == t@.len(),
            out@ == base + seq!['"'] + esc_str(t@.take(i as int)),
    {
        let c = t.get_char(i);
        let code = char_code(c);
        if c == '"' {
            push_char(out, '\\');
            push_char(out, '"');
        } else if c == '\\' {
            push_char(out, '\\');
            push_char(out, '\\');
        } else if code < 0x20 {
            push_char(out, '\\');
            push_char(out, 'u');
            push_char(out, '0');
            push_char(out, '0');
            push_char(out, hex_char_exec(code / 16));
            push_char(out, hex_char_exec(code % 16));
        } else {
            push_char(out, c);
        }
        proof {
            lemma_esc_snoc(t@.take(i as int), t@[i as int]);
            assert(t@.take(i + 1) =~= t@.take(i as int).push(t@[i as int]));
            assert(out@ =~= base + seq!['"'] + esc_str(t@.take(i + 1)));
        }
    }
    push_char(out, '"');
    proof {
        assert(t@.take(n as int) =~= t@);
        assert(out@ =~= base + enc_string(t@));
    }
}

} // verus!
