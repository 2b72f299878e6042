//! The character-level building blocks of the wire encoding.
//!
//! Every protocol message travels as exactly one JSON value in canonical
//! compact form (no whitespace).  This module defines, at the
//! specification level, the encoding of the primitive pieces of that
//! grammar — strings with their escapes, enum names, board digits — the
//! matching parsers, and the lemmas showing that parsing undoes encoding.
//! The parsers are total functions, so a parse consumes a well-defined
//! prefix of the input and leaves the rest: the framing of the stream
//! into messages falls out of that.

use vstd::prelude::*;
use vstd::utf8::is_scalar;
use vstd::utf8::char_u32_cast;
use crate::logic::Player;
use crate::protocol::{Joever, WirePiece};

verus! {

// ---------------------------------------------------------------------
// Characters
// ---------------------------------------------------------------------

/// A character that stands for itself inside a JSON string.
pub open spec fn is_plain_char(c: char) -> bool {
    c != '"' && c != '\\' && (c as u32) >= 0x20
}

/// The lower-case hex digit for a value below 16.
pub open spec fn hex_char(n: int) -> char {
    if n == 0 { '0' } else if n == 1 { '1' } else if n == 2 { '2' } else if n == 3 { '3' }
    else if n == 4 { '4' } else if n == 5 { '5' } else if n == 6 { '6' } else if n == 7 { '7' }
    else if n == 8 { '8' } else if n == 9 { '9' } else if n == 10 { 'a' } else if n == 11 { 'b' }
    else if n == 12 { 'c' } else if n == 13 { 'd' } else if n == 14 { 'e' } else { 'f' }
}

/// The value of a hex digit, or 16 for any other character.
pub open spec fn hex_val(c: char) -> int {
    if c == '0' { 0 } else if c == '1' { 1 } else if c == '2' { 2 } else if c == '3' { 3 }
    else if c == '4' { 4 } else if c == '5' { 5 } else if c == '6' { 6 } else if c == '7' { 7 }
    else if c == '8' { 8 } else if c == '9' { 9 }
    else if c == 'a' || c == 'A' { 10 } else if c == 'b' || c == 'B' { 11 }
    else if c == 'c' || c == 'C' { 12 } else if c == 'd' || c == 'D' { 13 }
    else if c == 'e' || c == 'E' { 14 } else if c == 'f' || c == 'F' { 15 }
    else { 16 }
}

pub open spec fn is_hex_char(c: char) -> bool {
    hex_val(c) < 16
}

/// The decimal digit for a value below 10.  Board coordinates are below
/// 8, so every number in a message is one such character.
pub open spec fn digit_char(n: int) -> char {
    if n == 0 { '0' } else if n == 1 { '1' } else if n == 2 { '2' } else if n == 3 { '3' }
    else if n == 4 { '4' } else if n == 5 { '5' } else if n == 6 { '6' } else if n == 7 { '7' }
    else if n == 8 { '8' } else { '9' }
}

// ---------------------------------------------------------------------
// JSON strings
// ---------------------------------------------------------------------

/// How one character is written inside a JSON string: quotes and
/// backslashes get a backslash escape, control characters a `\u00..`
/// escape, everything else stands for itself.
pub open spec fn esc_char(c: char) -> Seq<char> {
    if c == '"' {
        seq!['\\', '"']
    } else if c == '\\' {
        seq!['\\', '\\']
    } else if (c as u32) < 0x20 {
        seq!['\\', 'u', '0', '0', hex_char((c as u32) as int / 16), hex_char((c as u32) as int % 16)]
    } else {
        seq![c]
    }
}

/// A text written with all its escapes.
pub open spec fn esc_str(t: Seq<char>) -> Seq<char>
    decreases t.len(),
{
    if t.len() == 0 {
        Seq::empty()
    } else {
        esc_char(t[0]) + esc_str(t.drop_first())
    }
}

/// A complete JSON string: the escaped text between two quotes.
pub open spec fn enc_string(t: Seq<char>) -> Seq<char> {
    seq!['"'] + esc_str(t) + seq!['"']
}

/// Consumes `c` from the front of the input.
pub open spec fn parse_char(s: Seq<char>, c: char) -> Option<Seq<char>> {
    if s.len() > 0 && s[0] == c {
        Some(s.drop_first())
    } else {
        None
    }
}

/// Prepends a character to the text of a string-parse result.
pub open spec fn cons_char(c: char, r: Option<(Seq<char>, Seq<char>)>) -> Option<
    (Seq<char>, Seq<char>),
> {
    match r {
        Some((t, rest)) => Some((seq![c] + t, rest)),
        None => None,
    }
}

/// Parses the body of a JSON string up to and including the closing
/// quote, undoing escapes; returns the text and the rest of the input.
/// Accepts the escapes of standard JSON: the two-character ones and
/// `\u` followed by four hex digits naming a Unicode scalar.  Rejects
/// raw control characters and lone surrogate escapes.
pub open spec fn parse_string_body(s: Seq<char>) -> Option<(Seq<char>, Seq<char>)>
    decreases s.len(),
{
    if s.len() == 0 {
        None
    } else if s[0] == '"' {
        Some((Seq::empty(), s.drop_first()))
    } else if s[0] == '\\' {
        if s.len() < 2 {
            None
        } else {
            let e = s[1];
            if e == '"' || e == '\\' || e == '/' {
                cons_char(e, parse_string_body(s.skip(2)))
            } else if e == 'n' {
                cons_char('\n', parse_string_body(s.skip(2)))
            } else if e == 't' {
                cons_char('\t', parse_string_body(s.skip(2)))
            } else if e == 'r' {
                cons_char('\r', parse_string_body(s.skip(2)))
            } else if e == 'b' {
                cons_char('\u{8}', parse_string_body(s.skip(2)))
            } else if e == 'f' {
                cons_char('\u{c}', parse_string_body(s.skip(2)))
            } else if e == 'u' {
                if s.len() >= 6 && is_hex_char(s[2]) && is_hex_char(s[3]) && is_hex_char(s[4])
                    && is_hex_char(s[5]) {
                    let v = ((hex_val(s[2]) * 16 + hex_val(s[3])) * 16 + hex_val(s[4])) * 16
                        + hex_val(s[5]);
                    if is_scalar(v as u32) {
                        cons_char((v as u32) as char, parse_string_body(s.skip(6)))
                    } else {
                        None
                    }
                } else {
                    None
                }
            } else {
                None
            }
        }
    } else if (s[0] as u32) < 0x20 {
        None
    } else {
        cons_char(s[0], parse_string_body(s.drop_first()))
    }
}

/// Parses one complete JSON string, quotes included.
pub open spec fn parse_string(s: Seq<char>) -> Option<(Seq<char>, Seq<char>)> {
    match parse_char(s, '"') {
        Some(r) => parse_string_body(r),
        None => None,
    }
}

/// Parsing undoes escaping: the body parser, fed an escaped text, the
/// closing quote and anything after it, returns exactly that text and
/// leaves exactly what came after.
pub proof fn lemma_string_body_round_trip(t: Seq<char>, rest: Seq<char>)
    ensures
        parse_string_body(esc_str(t) + seq!['"'] + rest) == Some((t, rest)),
    decreases t.len(),
{
    let s = esc_str(t) + seq!['"'] + rest;
    if t.len() == 0 {
        assert(s =~= seq!['"'] + rest);
        assert(s[0] == '"');
        assert(s.drop_first() =~= rest);
        assert(t =~= Seq::<char>::empty());
    } else {
        let c = t[0];
        let tail = esc_str(t.drop_first()) + seq!['"'] + rest;
        assert(esc_str(t) == esc_char(c) + esc_str(t.drop_first()));
        assert(s =~= esc_char(c) + tail);
        lemma_string_body_round_trip(t.drop_first(), rest);
        if c == '"' {
            assert(s[0] == '\\' && s[1] == '"');
            assert(s.skip(2) =~= tail);
            assert(seq![c] + t.drop_first() =~= t);
        } else if c == '\\' {
            assert(s[0] == '\\' && s[1] == '\\');
            assert(s.skip(2) =~= tail);
            assert(seq![c] + t.drop_first() =~= t);
        } else if (c as u32) < 0x20 {
            let v = (c as u32) as int;
            assert(s[0] == '\\' && s[1] == 'u' && s[2] == '0' && s[3] == '0' && s[4] == hex_char(
                v / 16,
            ) && s[5] == hex_char(v % 16));
            assert(s.len() >= 6);
            assert(s.skip(6) =~= tail);
            assert(0 <= v < 0x20);
            assert(0 <= v / 16 < 2 && 0 <= v % 16 < 16);
            assert(hex_val(hex_char(v / 16)) == v / 16);
            assert(hex_val(hex_char(v % 16)) == v % 16);
            assert(hex_val(s[2]) == 0 && hex_val(s[3]) == 0);
            let w = ((hex_val(s[2]) * 16 + hex_val(s[3])) * 16 + hex_val(s[4])) * 16 + hex_val(
                s[5],
            );
            assert(w == (v / 16) * 16 + v % 16);
            assert(w == v) by {
                vstd::arithmetic::div_mod::lemma_fundamental_div_mod(v, 16);
            }
            assert(is_scalar(w as u32));
            char_u32_cast(c, w as u32);
            assert((w as u32) as char == c);
            assert(seq![c] + t.drop_first() =~= t);
        } else {
            assert(s[0] == c);
            assert(s[0] != '"' && s[0] != '\\' && (s[0] as u32) >= 0x20);
            assert(s.drop_first() =~= tail);
            assert(seq![c] + t.drop_first() =~= t);
        }
    }
}

/// Parsing undoes encoding for whole JSON strings, whatever follows them
/// on the stream.
pub proof fn lemma_string_round_trip(t: Seq<char>, rest: Seq<char>)
    ensures
        parse_string(enc_string(t) + rest) == Some((t, rest)),
{
    let s = enc_string(t) + rest;
    assert(s[0] == '"');
    assert(s.drop_first() =~= esc_str(t) + seq!['"'] + rest);
    lemma_string_body_round_trip(t, rest);
}

/// A text of plain characters needs no escapes: it is written as itself.
pub proof fn lemma_esc_plain(t: Seq<char>)
    requires
        forall|i: int| 0 <= i < t.len() ==> is_plain_char(#[trigger] t[i]),
    ensures
        esc_str(t) == t,
    decreases t.len(),
{
    if t.len() == 0 {
        assert(esc_str(t) =~= t);
    } else {
        lemma_esc_plain(t.drop_first());
        assert(esc_char(t[0]) == seq![t[0]]);
        assert(esc_str(t) =~= t);
    }
}

// ---------------------------------------------------------------------
// Enum names
// ---------------------------------------------------------------------

/// The wire name of a board cell.  The empty cell is written `"None"`,
/// as the protocol defines it.
pub open spec fn piece_name(p: WirePiece) -> Seq<char> {
    match p {
        WirePiece::Empty => seq!['N', 'o', 'n', 'e'],
        WirePiece::WhitePawn => seq!['W', 'h', 'i', 't', 'e', 'P', 'a', 'w', 'n'],
        WirePiece::WhiteRook => seq!['W', 'h', 'i', 't', 'e', 'R', 'o', 'o', 'k'],
        WirePiece::WhiteKnight => seq!['W', 'h', 'i', 't', 'e', 'K', 'n', 'i', 'g', 'h', 't'],
        WirePiece::WhiteBishop => seq!['W', 'h', 'i', 't', 'e', 'B', 'i', 's', 'h', 'o', 'p'],
        WirePiece::WhiteQueen => seq!['W', 'h', 'i', 't', 'e', 'Q', 'u', 'e', 'e', 'n'],
        WirePiece::WhiteKing => seq!['W', 'h', 'i', 't', 'e', 'K', 'i', 'n', 'g'],
        WirePiece::BlackPawn => seq!['B', 'l', 'a', 'c', 'k', 'P', 'a', 'w', 'n'],
        WirePiece::BlackRook => seq!['B', 'l', 'a', 'c', 'k', 'R', 'o', 'o', 'k'],
        WirePiece::BlackKnight => seq!['B', 'l', 'a', 'c', 'k', 'K', 'n', 'i', 'g', 'h', 't'],
        WirePiece::BlackBishop => seq!['B', 'l', 'a', 'c', 'k', 'B', 'i', 's', 'h', 'o', 'p'],
        WirePiece::BlackQueen => seq!['B', 'l', 'a', 'c', 'k', 'Q', 'u', 'e', 'e', 'n'],
        WirePiece::BlackKing => seq!['B', 'l', 'a', 'c', 'k', 'K', 'i', 'n', 'g'],
    }
}

/// The cell whose wire name is `n`, if any.
pub open spec fn piece_of_name(n: Seq<char>) -> Option<WirePiece> {
    if n == piece_name(WirePiece::Empty) { Some(WirePiece::Empty) }
    else if n == piece_name(WirePiece::WhitePawn) { Some(WirePiece::WhitePawn) }
    else if n == piece_name(WirePiece::WhiteRook) { Some(WirePiece::WhiteRook) }
    else if n == piece_name(WirePiece::WhiteKnight) { Some(WirePiece::WhiteKnight) }
    else if n == piece_name(WirePiece::WhiteBishop) { Some(WirePiece::WhiteBishop) }
    else if n == piece_name(WirePiece::WhiteQueen) { Some(WirePiece::WhiteQueen) }
    else if n == piece_name(WirePiece::WhiteKing) { Some(WirePiece::WhiteKing) }
    else if n == piece_name(WirePiece::BlackPawn) { Some(WirePiece::BlackPawn) }
    else if n == piece_name(WirePiece::BlackRook) { Some(WirePiece::BlackRook) }
    else if n == piece_name(WirePiece::BlackKnight) { Some(WirePiece::BlackKnight) }
    else if n == piece_name(WirePiece::BlackBishop) { Some(WirePiece::BlackBishop) }
    else if n == piece_name(WirePiece::BlackQueen) { Some(WirePiece::BlackQueen) }
    else if n == piece_name(WirePiece::BlackKing) { Some(WirePiece::BlackKing) }
    else { None }
}

/// The wire name of an outcome.
pub open spec fn joever_name(j: Joever) -> Seq<char> {
    match j {
        Joever::Ongoing => seq!['O', 'n', 'g', 'o', 'i', 'n', 'g'],
        Joever::White => seq!['W', 'h', 'i', 't', 'e'],
        Joever::Black => seq!['B', 'l', 'a', 'c', 'k'],
        Joever::Draw => seq!['D', 'r', 'a', 'w'],
        Joever::Indeterminate => seq![
            'I', 'n', 'd', 'e', 't', 'e', 'r', 'm', 'i', 'n', 'a', 't', 'e',
        ],
    }
}

/// The outcome whose wire name is `n`, if any.
pub open spec fn joever_of_name(n: Seq<char>) -> Option<Joever> {
    if n == joever_name(Joever::Ongoing) { Some(Joever::Ongoing) }
    else if n == joever_name(Joever::White) { Some(Joever::White) }
    else if n == joever_name(Joever::Black) { Some(Joever::Black) }
    else if n == joever_name(Joever::Draw) { Some(Joever::Draw) }
    else if n == joever_name(Joever::Indeterminate) { Some(Joever::Indeterminate) }
    else { None }
}

/// The wire name of a color.
pub open spec fn color_name(c: Player) -> Seq<char> {
    match c {
        Player::White => seq!['W', 'h', 'i', 't', 'e'],
        Player::Black => seq!['B', 'l', 'a', 'c', 'k'],
    }
}

/// The color whose wire name is `n`, if any.
pub open spec fn color_of_name(n: Seq<char>) -> Option<Player> {
    if n == color_name(Player::White) { Some(Player::White) }
    else if n == color_name(Player::Black) { Some(Player::Black) }
    else { None }
}

/// Every wire name consists of plain characters and maps back to the
/// value it names.
pub proof fn lemma_piece_name(p: WirePiece)
    ensures
        forall|i: int| 0 <= i < piece_name(p).len() ==> is_plain_char(#[trigger] piece_name(p)[i]),
        piece_of_name(piece_name(p)) == Some(p),
{
}

/// See `lemma_piece_name`: the same, for outcome names.
pub proof fn lemma_joever_name(j: Joever)
    ensures
        forall|i: int| 0 <= i < joever_name(j).len() ==> is_plain_char(
            #[trigger] joever_name(j)[i],
        ),
        joever_of_name(joever_name(j)) == Some(j),
{
}

/// See `lemma_piece_name`: the same, for color names.
pub proof fn lemma_color_name(c: Player)
    ensures
        forall|i: int| 0 <= i < color_name(c).len() ==> is_plain_char(#[trigger] color_name(c)[i]),
        color_of_name(color_name(c)) == Some(c),
{
}

/// A name travels as the JSON string of its characters; parsing it back
/// yields the name.
pub proof fn lemma_name_round_trip(n: Seq<char>, rest: Seq<char>)
    requires
        forall|i: int| 0 <= i < n.len() ==> is_plain_char(#[trigger] n[i]),
    ensures
        enc_string(n) == seq!['"'] + n + seq!['"'],
        parse_string(enc_string(n) + rest) == Some((n, rest)),
{
    lemma_esc_plain(n);
    lemma_string_round_trip(n, rest);
}

// ---------------------------------------------------------------------
// Digits
// ---------------------------------------------------------------------

/// Consumes one digit `0`..`7`: the only numbers in a message are board
/// coordinates, which lie below 8.
pub open spec fn parse_coord(s: Seq<char>) -> Option<(u8, Seq<char>)> {
    if s.len() > 0 && 48 <= (s[0] as u32) && (s[0] as u32) <= 55 {
        Some((((s[0] as u32) - 48) as u8, s.drop_first()))
    } else {
        None
    }
}

/// Parsing undoes encoding for board coordinates.
pub proof fn lemma_coord_round_trip(d: u8, rest: Seq<char>)
    requires
        d < 8,
    ensures
        parse_coord(seq![digit_char(d as int)] + rest) == Some((d, rest)),
{
    let s = seq![digit_char(d as int)] + rest;
    assert(s[0] == digit_char(d as int));
    assert(48 <= (s[0] as u32) <= 55);
    assert(((s[0] as u32) - 48) as u8 == d);
    assert(s.drop_first() =~= rest);
}

} // verus!
