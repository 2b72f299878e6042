//! The message-level wire grammar.
//!
//! Each protocol message is one JSON object in canonical compact form:
//! fields in a fixed order, no whitespace, enum values as their names in
//! strings, numbers as single digits (all numbers in a message are board
//! coordinates, which lie below 8).  This module defines the encoding of
//! every message as a specification function, the matching parser, and
//! the round-trip lemmas: parsing an encoded message, whatever follows it
//! on the stream, yields the message back and leaves exactly what
//! followed.

use vstd::prelude::*;
use crate::codec::{
    digit_char, enc_string, is_plain_char, parse_char, parse_coord, parse_string,
    color_name, color_of_name, joever_name, joever_of_name, piece_name, piece_of_name,
    lemma_color_name, lemma_coord_round_trip, lemma_joever_name, lemma_name_round_trip,
    lemma_piece_name,
};
use crate::logic::Player;
use crate::protocol::{
    board_wf, ClientToServer, ClientToServerHandshake, Joever, Move, StcAbs, StchAbs, WirePiece,
};

verus! {

// ---------------------------------------------------------------------
// Field and tag names
// ---------------------------------------------------------------------

pub open spec fn n_start_x() -> Seq<char> {
    seq!['s', 't', 'a', 'r', 't', '_', 'x']
}

pub open spec fn n_start_y() -> Seq<char> {
    seq!['s', 't', 'a', 'r', 't', '_', 'y']
}

pub open spec fn n_end_x() -> Seq<char> {
    seq!['e', 'n', 'd', '_', 'x']
}

pub open spec fn n_end_y() -> Seq<char> {
    seq!['e', 'n', 'd', '_', 'y']
}

pub open spec fn n_promotion() -> Seq<char> {
    seq!['p', 'r', 'o', 'm', 'o', 't', 'i', 'o', 'n']
}

pub open spec fn n_board() -> Seq<char> {
    seq!['b', 'o', 'a', 'r', 'd']
}

pub open spec fn n_joever() -> Seq<char> {
    seq!['j', 'o', 'e', 'v', 'e', 'r']
}

pub open spec fn n_move_made() -> Seq<char> {
    seq!['m', 'o', 'v', 'e', '_', 'm', 'a', 'd', 'e']
}

pub open spec fn n_message() -> Seq<char> {
    seq!['m', 'e', 's', 's', 'a', 'g', 'e']
}

pub open spec fn n_server_color() -> Seq<char> {
    seq!['s', 'e', 'r', 'v', 'e', 'r', '_', 'c', 'o', 'l', 'o', 'r']
}

pub open spec fn n_moves() -> Seq<char> {
    seq!['m', 'o', 'v', 'e', 's']
}

pub open spec fn n_tag_move() -> Seq<char> {
    seq!['M', 'o', 'v', 'e']
}

pub open spec fn n_tag_state() -> Seq<char> {
    seq!['S', 't', 'a', 't', 'e']
}

pub open spec fn n_tag_error() -> Seq<char> {
    seq!['E', 'r', 'r', 'o', 'r']
}

pub open spec fn plain_name(n: Seq<char>) -> bool {
    forall|i: int| 0 <= i < n.len() ==> is_plain_char(#[trigger] n[i])
}

/// Every field and tag name consists of plain characters: written as a
/// JSON string, it needs no escapes.
pub proof fn lemma_names_plain()
    ensures
        plain_name(n_start_x()),
        plain_name(n_start_y()),
        plain_name(n_end_x()),
        plain_name(n_end_y()),
        plain_name(n_promotion()),
        plain_name(n_board()),
        plain_name(n_joever()),
        plain_name(n_move_made()),
        plain_name(n_message()),
        plain_name(n_server_color()),
        plain_name(n_moves()),
        plain_name(n_tag_move()),
        plain_name(n_tag_state()),
        plain_name(n_tag_error()),
{
}

/// Concatenation is associative.  The encoders build their output as a
/// left-nested chain of chunks while the parsers consume it chunk by
/// chunk from the front; this lemma rotates one chunk at a time.
pub proof fn lemma_chain(a: Seq<char>, b: Seq<char>, c: Seq<char>)
    ensures
        (a + b) + c == a + (b + c),
{
    assert((a + b) + c =~= a + (b + c));
}

/// `lemma_chain`, applied to a whole ten-chunk message at once.
pub proof fn lemma_chain10(
    a1: Seq<char>,
    a2: Seq<char>,
    a3: Seq<char>,
    a4: Seq<char>,
    a5: Seq<char>,
    a6: Seq<char>,
    a7: Seq<char>,
    a8: Seq<char>,
    a9: Seq<char>,
    a10: Seq<char>,
    rest: Seq<char>,
)
    ensures
        a1 + a2 + a3 + a4 + a5 + a6 + a7 + a8 + a9 + a10 + rest == a1 + (a2 + (a3 + (a4 + (a5 + (
        a6 + (a7 + (a8 + (a9 + (a10 + rest))))))))),
{
    lemma_chain(a1 + a2 + a3 + a4 + a5 + a6 + a7 + a8 + a9, a10, rest);
    lemma_chain(a1 + a2 + a3 + a4 + a5 + a6 + a7 + a8, a9, a10 + rest);
    lemma_chain(a1 + a2 + a3 + a4 + a5 + a6 + a7, a8, a9 + (a10 + rest));
    lemma_chain(a1 + a2 + a3 + a4 + a5 + a6, a7, a8 + (a9 + (a10 + rest)));
    lemma_chain(a1 + a2 + a3 + a4 + a5, a6, a7 + (a8 + (a9 + (a10 + rest))));
    lemma_chain(a1 + a2 + a3 + a4, a5, a6 + (a7 + (a8 + (a9 + (a10 + rest)))));
    lemma_chain(a1 + a2 + a3, a4, a5 + (a6 + (a7 + (a8 + (a9 + (a10 + rest))))));
    lemma_chain(a1 + a2, a3, a4 + (a5 + (a6 + (a7 + (a8 + (a9 + (a10 + rest)))))));
    lemma_chain(a1, a2, a3 + (a4 + (a5 + (a6 + (a7 + (a8 + (a9 + (a10 + rest))))))));
}

/// `lemma_chain`, applied to a whole thirteen-chunk message at once.
pub proof fn lemma_chain13(
    a1: Seq<char>,
    a2: Seq<char>,
    a3: Seq<char>,
    a4: Seq<char>,
    a5: Seq<char>,
    a6: Seq<char>,
    a7: Seq<char>,
    a8: Seq<char>,
    a9: Seq<char>,
    a10: Seq<char>,
    a11: Seq<char>,
    a12: Seq<char>,
    a13: Seq<char>,
    rest: Seq<char>,
)
    ensures
        a1 + a2 + a3 + a4 + a5 + a6 + a7 + a8 + a9 + a10 + a11 + a12 + a13 + rest == a1 + (a2 + (
        a3 + (a4 + (a5 + (a6 + (a7 + (a8 + (a9 + (a10 + (a11 + (a12 + (a13 + rest)))))))))))),
{
    let u11 = a13 + rest;
    let u10 = a12 + u11;
    let u9 = a11 + u10;
    let u8 = a10 + u9;
    let u7 = a9 + u8;
    let u6 = a8 + u7;
    let u5 = a7 + u6;
    let u4 = a6 + u5;
    let u3 = a5 + u4;
    let u2 = a4 + u3;
    let u1 = a3 + u2;
    lemma_chain(a1 + a2 + a3 + a4 + a5 + a6 + a7 + a8 + a9 + a10 + a11 + a12, a13, rest);
    lemma_chain(a1 + a2 + a3 + a4 + a5 + a6 + a7 + a8 + a9 + a10 + a11, a12, u11);
    lemma_chain(a1 + a2 + a3 + a4 + a5 + a6 + a7 + a8 + a9 + a10, a11, u10);
    lemma_chain(a1 + a2 + a3 + a4 + a5 + a6 + a7 + a8 + a9, a10, u9);
    lemma_chain(a1 + a2 + a3 + a4 + a5 + a6 + a7 + a8, a9, u8);
    lemma_chain(a1 + a2 + a3 + a4 + a5 + a6 + a7, a8, u7);
    lemma_chain(a1 + a2 + a3 + a4 + a5 + a6, a7, u6);
    lemma_chain(a1 + a2 + a3 + a4 + a5, a6, u5);
    lemma_chain(a1 + a2 + a3 + a4, a5, u4);
    lemma_chain(a1 + a2 + a3, a4, u3);
    lemma_chain(a1 + a2, a3, u2);
    lemma_chain(a1, a2, u1);
}

/// Reading one known character off the front of a stream.
pub proof fn lemma_uncons(c: char, t: Seq<char>)
    ensures
        (seq![c] + t).len() == t.len() + 1,
        (seq![c] + t)[0] == c,
        (seq![c] + t).drop_first() == t,
        parse_char(seq![c] + t, c) == Some(t),
{
    assert((seq![c] + t).drop_first() =~= t);
}

// ---------------------------------------------------------------------
// Keys and atoms
// ---------------------------------------------------------------------

/// A field key as it is written: the quoted name and a colon.
pub open spec fn key(name: Seq<char>) -> Seq<char> {
    enc_string(name) + seq![':']
}

/// Consumes a field key with exactly the given name.
pub open spec fn parse_key(s: Seq<char>, name: Seq<char>) -> Option<Seq<char>> {
    match parse_string(s) {
        Some((n, r)) => if n == name {
            parse_char(r, ':')
        } else {
            None
        },
        None => None,
    }
}

pub proof fn lemma_key_round_trip(name: Seq<char>, rest: Seq<char>)
    requires
        plain_name(name),
    ensures
        parse_key(key(name) + rest, name) == Some(rest),
{
    let tail = seq![':'] + rest;
    assert(key(name) + rest =~= enc_string(name) + tail);
    lemma_name_round_trip(name, tail);
    assert(tail[0] == ':');
    assert(tail.drop_first() =~= rest);
}

/// A board cell is written as the JSON string of its wire name.
pub open spec fn enc_piece(p: WirePiece) -> Seq<char> {
    enc_string(piece_name(p))
}

pub open spec fn parse_piece(s: Seq<char>) -> Option<(WirePiece, Seq<char>)> {
    match parse_string(s) {
        Some((n, r)) => match piece_of_name(n) {
            Some(p) => Some((p, r)),
            None => None,
        },
        None => None,
    }
}

pub proof fn lemma_piece_round_trip(p: WirePiece, rest: Seq<char>)
    ensures
        parse_piece(enc_piece(p) + rest) == Some((p, rest)),
{
    lemma_piece_name(p);
    lemma_name_round_trip(piece_name(p), rest);
}

/// An outcome is written as the JSON string of its wire name.
pub open spec fn enc_joever(j: Joever) -> Seq<char> {
    enc_string(joever_name(j))
}

pub open spec fn parse_joever(s: Seq<char>) -> Option<(Joever, Seq<char>)> {
    match parse_string(s) {
        Some((n, r)) => match joever_of_name(n) {
            Some(j) => Some((j, r)),
            None => None,
        },
        None => None,
    }
}

pub proof fn lemma_joever_round_trip(j: Joever, rest: Seq<char>)
    ensures
        parse_joever(enc_joever(j) + rest) == Some((j, rest)),
{
    lemma_joever_name(j);
    lemma_name_round_trip(joever_name(j), rest);
}

/// A color is written as the JSON string of its wire name.
pub open spec fn enc_color(c: Player) -> Seq<char> {
    enc_string(color_name(c))
}

pub open spec fn parse_color(s: Seq<char>) -> Option<(Player, Seq<char>)> {
    match parse_string(s) {
        Some((n, r)) => match color_of_name(n) {
            Some(c) => Some((c, r)),
            None => None,
        },
        None => None,
    }
}

pub proof fn lemma_color_round_trip(c: Player, rest: Seq<char>)
    ensures
        parse_color(enc_color(c) + rest) == Some((c, rest)),
{
    lemma_color_name(c);
    lemma_name_round_trip(color_name(c), rest);
}

// ---------------------------------------------------------------------
// Moves
// ---------------------------------------------------------------------

/// A later coordinate field: comma, key, digit.
pub open spec fn enc_sep_coord(name: Seq<char>, d: u8) -> Seq<char> {
    seq![','] + key(name) + seq![digit_char(d as int)]
}

pub open spec fn parse_sep_coord(s: Seq<char>, name: Seq<char>) -> Option<(u8, Seq<char>)> {
    match parse_char(s, ',') {
        Some(r) => match parse_key(r, name) {
            Some(r2) => parse_coord(r2),
            None => None,
        },
        None => None,
    }
}

pub proof fn lemma_sep_coord_round_trip(name: Seq<char>, d: u8, rest: Seq<char>)
    requires
        plain_name(name),
        d < 8,
    ensures
        parse_sep_coord(enc_sep_coord(name, d) + rest, name) == Some((d, rest)),
{
    let s = enc_sep_coord(name, d) + rest;
    let t1 = key(name) + (seq![digit_char(d as int)] + rest);
    assert(s[0] == ',');
    assert(s.drop_first() =~= t1);
    lemma_key_round_trip(name, seq![digit_char(d as int)] + rest);
    lemma_coord_round_trip(d, rest);
}

/// A move is written as an object with its four coordinates and the
/// promotion cell, in declaration order.
pub open spec fn enc_move(m: Move) -> Seq<char> {
    seq!['{'] + key(n_start_x()) + seq![digit_char(m.start_x as int)] + enc_sep_coord(
        n_start_y(),
        m.start_y,
    ) + enc_sep_coord(n_end_x(), m.end_x) + enc_sep_coord(n_end_y(), m.end_y) + seq![','] + key(
        n_promotion(),
    ) + enc_piece(m.promotion) + seq!['}']
}

pub open spec fn parse_move(s: Seq<char>) -> Option<(Move, Seq<char>)> {
    match parse_char(s, '{') {
        Some(s1) => match parse_key(s1, n_start_x()) {
            Some(s2) => match parse_coord(s2) {
                Some((sx, s3)) => match parse_sep_coord(s3, n_start_y()) {
                    Some((sy, s4)) => match parse_sep_coord(s4, n_end_x()) {
                        Some((ex, s5)) => match parse_sep_coord(s5, n_end_y()) {
                            Some((ey, s6)) => match parse_char(s6, ',') {
                                Some(s7) => match parse_key(s7, n_promotion()) {
                                    Some(s8) => match parse_piece(s8) {
                                        Some((p, s9)) => match parse_char(s9, '}') {
                                            Some(s10) => Some(
                                                (
                                                    Move {
                                                        start_x: sx,
                                                        start_y: sy,
                                                        end_x: ex,
                                                        end_y: ey,
                                                        promotion: p,
                                                    },
                                                    s10,
                                                ),
                                            ),
                                            None => None,
                                        },
                                        None => None,
                                    },
                                    None => None,
                                },
                                None => None,
                            },
                            None => None,
                        },
                        None => None,
                    },
                    None => None,
                },
                None => None,
            },
            None => None,
        },
        None => None,
    }
}

#[verifier::rlimit(60)]
pub proof fn lemma_move_round_trip(m: Move, rest: Seq<char>)
    requires
        m.wf(),
    ensures
        parse_move(enc_move(m) + rest) == Some((m, rest)),
{
    let s = enc_move(m) + rest;
    let a2 = key(n_start_x());
    let a3 = seq![digit_char(m.start_x as int)];
    let a4 = enc_sep_coord(n_start_y(), m.start_y);
    let a5 = enc_sep_coord(n_end_x(), m.end_x);
    let a6 = enc_sep_coord(n_end_y(), m.end_y);
    let a7 = seq![','];
    let a8 = key(n_promotion());
    let a9 = enc_piece(m.promotion);
    let a10 = seq!['}'];
    assert(enc_move(m) == seq!['{'] + a2 + a3 + a4 + a5 + a6 + a7 + a8 + a9 + a10);
    let u8 = a10 + rest;
    let u7 = a9 + u8;
    let u6 = a8 + u7;
    let u5 = a7 + u6;
    let u4 = a6 + u5;
    let u3 = a5 + u4;
    let u2 = a4 + u3;
    let u1 = a3 + u2;
    let u0 = a2 + u1;
    lemma_chain10(seq!['{'], a2, a3, a4, a5, a6, a7, a8, a9, a10, rest);
    assert(s == seq!['{'] + u0);
    lemma_uncons('{', u0);
    assert(parse_char(s, '{') == Some(u0));
    lemma_key_round_trip(n_start_x(), u1);
    lemma_coord_round_trip(m.start_x, u2);
    lemma_sep_coord_round_trip(n_start_y(), m.start_y, u3);
    lemma_sep_coord_round_trip(n_end_x(), m.end_x, u4);
    lemma_sep_coord_round_trip(n_end_y(), m.end_y, u5);
    lemma_uncons(',', u6);
    lemma_key_round_trip(n_promotion(), u7);
    lemma_piece_round_trip(m.promotion, u8);
    lemma_uncons('}', rest);
}

// ---------------------------------------------------------------------
// Boards
// ---------------------------------------------------------------------

/// The cells of one row, comma-separated.
pub open spec fn enc_cells(row: Seq<WirePiece>) -> Seq<char>
    decreases row.len(),
{
    if row.len() == 0 {
        Seq::empty()
    } else if row.len() == 1 {
        enc_piece(row[0])
    } else {
        enc_piece(row[0]) + seq![','] + enc_cells(row.drop_first())
    }
}

/// One row: the cells between brackets.
pub open spec fn enc_row(row: Seq<WirePiece>) -> Seq<char> {
    seq!['['] + enc_cells(row) + seq![']']
}

/// The rows of a board, comma-separated.
pub open spec fn enc_board_rows(rows: Seq<Seq<WirePiece>>) -> Seq<char>
    decreases rows.len(),
{
    if rows.len() == 0 {
        Seq::empty()
    } else if rows.len() == 1 {
        enc_row(rows[0])
    } else {
        enc_row(rows[0]) + seq![','] + enc_board_rows(rows.drop_first())
    }
}

/// A board: all 8 rows between brackets, always the full 64 cells.
pub open spec fn enc_board(b: Seq<Seq<WirePiece>>) -> Seq<char> {
    seq!['['] + enc_board_rows(b) + seq![']']
}

/// Consumes exactly `k` comma-separated cells, `k` at least 1.
pub open spec fn parse_cells(s: Seq<char>, k: int) -> Option<(Seq<WirePiece>, Seq<char>)>
    decreases k,
{
    if k <= 0 {
        None
    } else if k == 1 {
        match parse_piece(s) {
            Some((p, r)) => Some((seq![p], r)),
            None => None,
        }
    } else {
        match parse_piece(s) {
            Some((p, r)) => match parse_char(r, ',') {
                Some(r2) => match parse_cells(r2, k - 1) {
                    Some((ps, r3)) => Some((seq![p] + ps, r3)),
                    None => None,
                },
                None => None,
            },
            None => None,
        }
    }
}

pub open spec fn parse_row(s: Seq<char>) -> Option<(Seq<WirePiece>, Seq<char>)> {
    match parse_char(s, '[') {
        Some(r) => match parse_cells(r, 8) {
            Some((ps, r2)) => match parse_char(r2, ']') {
                Some(r3) => Some((ps, r3)),
                None => None,
            },
            None => None,
        },
        None => None,
    }
}

/// Consumes exactly `k` comma-separated rows, `k` at least 1.
pub open spec fn parse_board_rows(s: Seq<char>, k: int) -> Option<(Seq<Seq<WirePiece>>, Seq<char>)>
    decreases k,
{
    if k <= 0 {
        None
    } else if k == 1 {
        match parse_row(s) {
            Some((row, r)) => Some((seq![row], r)),
            None => None,
        }
    } else {
        match parse_row(s) {
            Some((row, r)) => match parse_char(r, ',') {
                Some(r2) => match parse_board_rows(r2, k - 1) {
                    Some((rows, r3)) => Some((seq![row] + rows, r3)),
                    None => None,
                },
                None => None,
            },
            None => None,
        }
    }
}

pub open spec fn parse_board(s: Seq<char>) -> Option<(Seq<Seq<WirePiece>>, Seq<char>)> {
    match parse_char(s, '[') {
        Some(r) => match parse_board_rows(r, 8) {
            Some((rows, r2)) => match parse_char(r2, ']') {
                Some(r3) => Some((rows, r3)),
                None => None,
            },
            None => None,
        },
        None => None,
    }
}

pub proof fn lemma_cells_round_trip(row: Seq<WirePiece>, rest: Seq<char>)
    requires
        row.len() >= 1,
    ensures
        parse_cells(enc_cells(row) + rest, row.len() as int) == Some((row, rest)),
    decreases row.len(),
{
    if row.len() == 1 {
        lemma_piece_round_trip(row[0], rest);
        assert(seq![row[0]] =~= row);
    } else {
        let tail = seq![','] + (enc_cells(row.drop_first()) + rest);
        assert(enc_cells(row) + rest =~= enc_piece(row[0]) + tail);
        lemma_piece_round_trip(row[0], tail);
        assert(tail[0] == ',');
        assert(tail.drop_first() =~= enc_cells(row.drop_first()) + rest);
        lemma_cells_round_trip(row.drop_first(), rest);
        assert(seq![row[0]] + row.drop_first() =~= row);
    }
}

pub proof fn lemma_row_round_trip(row: Seq<WirePiece>, rest: Seq<char>)
    requires
        row.len() == 8,
    ensures
        parse_row(enc_row(row) + rest) == Some((row, rest)),
{
    let s = enc_row(row) + rest;
    let t1 = enc_cells(row) + (seq![']'] + rest);
    assert(s[0] == '[');
    assert(s.drop_first() =~= t1);
    lemma_cells_round_trip(row, seq![']'] + rest);
    assert((seq![']'] + rest)[0] == ']');
    assert((seq![']'] + rest).drop_first() =~= rest);
}

pub proof fn lemma_board_rows_round_trip(rows: Seq<Seq<WirePiece>>, rest: Seq<char>)
    requires
        rows.len() >= 1,
        forall|i: int| 0 <= i < rows.len() ==> (#[trigger] rows[i]).len() == 8,
    ensures
        parse_board_rows(enc_board_rows(rows) + rest, rows.len() as int) == Some((rows, rest)),
    decreases rows.len(),
{
    if rows.len() == 1 {
        lemma_row_round_trip(rows[0], rest);
        assert(seq![rows[0]] =~= rows);
    } else {
        let tail = seq![','] + (enc_board_rows(rows.drop_first()) + rest);
        assert(enc_board_rows(rows) + rest =~= enc_row(rows[0]) + tail);
        lemma_row_round_trip(rows[0], tail);
        assert(tail[0] == ',');
        assert(tail.drop_first() =~= enc_board_rows(rows.drop_first()) + rest);
        lemma_board_rows_round_trip(rows.drop_first(), rest);
        assert(seq![rows[0]] + rows.drop_first() =~= rows);
    }
}

pub proof fn lemma_board_round_trip(b: Seq<Seq<WirePiece>>, rest: Seq<char>)
    requires
        board_wf(b),
    ensures
        parse_board(enc_board(b) + rest) == Some((b, rest)),
{
    let s = enc_board(b) + rest;
    let t1 = enc_board_rows(b) + (seq![']'] + rest);
    assert(s[0] == '[');
    assert(s.drop_first() =~= t1);
    lemma_board_rows_round_trip(b, seq![']'] + rest);
    assert((seq![']'] + rest)[0] == ']');
    assert((seq![']'] + rest).drop_first() =~= rest);
}

// ---------------------------------------------------------------------
// Move lists
// ---------------------------------------------------------------------

/// The later elements of a move list: each preceded by a comma.
pub open spec fn enc_moves_tail(ms: Seq<Move>) -> Seq<char>
    decreases ms.len(),
{
    if ms.len() == 0 {
        Seq::empty()
    } else {
        seq![','] + enc_move(ms[0]) + enc_moves_tail(ms.drop_first())
    }
}

/// A possibly-empty move list between brackets.
pub open spec fn enc_moves(ms: Seq<Move>) -> Seq<char> {
    if ms.len() == 0 {
        seq!['[', ']']
    } else {
        seq!['['] + enc_move(ms[0]) + enc_moves_tail(ms.drop_first()) + seq![']']
    }
}

/// After one element: either the closing bracket, or a comma and another
/// element.  The recursion is bounded by the input length; a parse step
/// always consumes at least one character, so the length test never
/// rejects a real parse.
pub open spec fn parse_moves_tail(s: Seq<char>) -> Option<(Seq<Move>, Seq<char>)>
    decreases s.len(),
{
    match parse_char(s, ']') {
        Some(r) => Some((Seq::empty(), r)),
        None => match parse_char(s, ',') {
            Some(r) => match parse_move(r) {
                Some((m, r2)) => if r2.len() < s.len() {
                    match parse_moves_tail(r2) {
                        Some((ms, r3)) => Some((seq![m] + ms, r3)),
                        None => None,
                    }
                } else {
                    None
                },
                None => None,
            },
            None => None,
        },
    }
}

pub open spec fn parse_moves(s: Seq<char>) -> Option<(Seq<Move>, Seq<char>)> {
    match parse_char(s, '[') {
        Some(r) => match parse_char(r, ']') {
            Some(r2) => Some((Seq::empty(), r2)),
            None => match parse_move(r) {
                Some((m, r2)) => if r2.len() < r.len() {
                    match parse_moves_tail(r2) {
                        Some((ms, r3)) => Some((seq![m] + ms, r3)),
                        None => None,
                    }
                } else {
                    None
                },
                None => None,
            },
        },
        None => None,
    }
}

#[verifier::rlimit(60)]
pub proof fn lemma_moves_tail_round_trip(ms: Seq<Move>, rest: Seq<char>)
    requires
        forall|i: int| 0 <= i < ms.len() ==> (#[trigger] ms[i]).wf(),
    ensures
        parse_moves_tail(enc_moves_tail(ms) + seq![']'] + rest) == Some((ms, rest)),
    decreases ms.len(),
{
    let s = enc_moves_tail(ms) + seq![']'] + rest;
    if ms.len() == 0 {
        assert(s =~= seq![']'] + rest);
        lemma_uncons(']', rest);
        assert(ms =~= Seq::<Move>::empty());
    } else {
        let a2 = enc_move(ms[0]);
        let a3 = enc_moves_tail(ms.drop_first());
        assert(enc_moves_tail(ms) == seq![','] + a2 + a3);
        let u2 = a3 + (seq![']'] + rest);
        let u1 = a2 + u2;
        lemma_chain(seq![','] + a2 + a3, seq![']'], rest);
        lemma_chain(seq![','] + a2, a3, seq![']'] + rest);
        lemma_chain(seq![','], a2, u2);
        assert(s == seq![','] + u1);
        lemma_uncons(',', u1);
        assert(parse_char(s, ',') == Some(u1));
        assert(parse_char(s, ']') is None);
        lemma_chain(a3, seq![']'], rest);
        lemma_move_round_trip(ms[0], u2);
        assert(u1 == enc_move(ms[0]) + u2);
        assert(u2.len() < s.len());
        lemma_moves_tail_round_trip(ms.drop_first(), rest);
        assert(u2 == enc_moves_tail(ms.drop_first()) + seq![']'] + rest);
        assert(seq![ms[0]] + ms.drop_first() =~= ms);
    }
}

#[verifier::rlimit(100)]
pub proof fn lemma_moves_round_trip(ms: Seq<Move>, rest: Seq<char>)
    requires
        forall|i: int| 0 <= i < ms.len() ==> (#[trigger] ms[i]).wf(),
    ensures
        parse_moves(enc_moves(ms) + rest) == Some((ms, rest)),
{
    let s = enc_moves(ms) + rest;
    if ms.len() == 0 {
        assert(s =~= seq!['['] + (seq![']'] + rest));
        lemma_uncons('[', seq![']'] + rest);
        lemma_uncons(']', rest);
        assert(ms =~= Seq::<Move>::empty());
    } else {
        let a2 = enc_move(ms[0]);
        let a3 = enc_moves_tail(ms.drop_first());
        let a4 = seq![']'];
        assert(enc_moves(ms) == seq!['['] + a2 + a3 + a4);
        let t3 = a4 + rest;
        let t2 = a3 + t3;
        let t1 = a2 + t2;
        lemma_chain(seq!['['] + a2 + a3, a4, rest);
        lemma_chain(seq!['['] + a2, a3, t3);
        lemma_chain(seq!['['], a2, t2);
        lemma_uncons('[', t1);
        assert(parse_char(s, '[') == Some(t1));
        assert(a2.len() > 0 && a2[0] == '{');
        assert(t1[0] == '{');
        assert(parse_char(t1, ']') is None);
        lemma_move_round_trip(ms[0], t2);
        assert(t1 == enc_move(ms[0]) + t2);
        assert(t2.len() < t1.len());
        lemma_chain(a3, a4, rest);
        lemma_moves_tail_round_trip(ms.drop_first(), rest);
        assert(t2 == enc_moves_tail(ms.drop_first()) + seq![']'] + rest);
        assert(seq![ms[0]] + ms.drop_first() =~= ms);
    }
}

// ---------------------------------------------------------------------
// Messages
// ---------------------------------------------------------------------

/// A client-to-server message: the tagged move object.
pub open spec fn enc_cts(v: ClientToServer) -> Seq<char> {
    match v {
        ClientToServer::Move(m) => seq!['{'] + key(n_tag_move()) + enc_move(m) + seq!['}'],
    }
}

pub open spec fn parse_cts(s: Seq<char>) -> Option<(ClientToServer, Seq<char>)> {
    match parse_char(s, '{') {
        Some(s1) => match parse_key(s1, n_tag_move()) {
            Some(s2) => match parse_move(s2) {
                Some((m, s3)) => match parse_char(s3, '}') {
                    Some(s4) => Some((ClientToServer::Move(m), s4)),
                    None => None,
                },
                None => None,
            },
            None => None,
        },
        None => None,
    }
}

#[verifier::rlimit(100)]
pub proof fn lemma_cts_round_trip(v: ClientToServer, rest: Seq<char>)
    requires
        v.wf(),
    ensures
        parse_cts(enc_cts(v) + rest) == Some((v, rest)),
{
    let m = v->Move_0;
    let s = enc_cts(v) + rest;
    let t2 = enc_move(m) + (seq!['}'] + rest);
    let t1 = key(n_tag_move()) + t2;
    assert(s[0] == '{');
    assert(s.drop_first() =~= t1);
    lemma_key_round_trip(n_tag_move(), t2);
    lemma_move_round_trip(m, seq!['}'] + rest);
    assert((seq!['}'] + rest)[0] == '}');
    assert((seq!['}'] + rest).drop_first() =~= rest);
}

/// A server-to-client message: the tagged `State` or `Error` object.
pub open spec fn enc_stc(v: StcAbs) -> Seq<char> {
    match v {
        StcAbs::State { board, joever, move_made } => seq!['{'] + key(n_tag_state()) + seq!['{']
            + key(n_board()) + enc_board(board) + seq![','] + key(n_joever()) + enc_joever(joever)
            + seq![','] + key(n_move_made()) + enc_move(move_made) + seq!['}'] + seq!['}'],
        StcAbs::Error { board, message } => seq!['{'] + key(n_tag_error()) + seq!['{'] + key(
            n_board(),
        ) + enc_board(board) + seq![','] + key(n_message()) + enc_string(message) + seq!['}']
            + seq!['}'],
    }
}

pub open spec fn parse_stc_state_body(s: Seq<char>) -> Option<(StcAbs, Seq<char>)> {
    match parse_char(s, '{') {
        Some(s1) => match parse_key(s1, n_board()) {
            Some(s2) => match parse_board(s2) {
                Some((b, s3)) => match parse_char(s3, ',') {
                    Some(s4) => match parse_key(s4, n_joever()) {
                        Some(s5) => match parse_joever(s5) {
                            Some((j, s6)) => match parse_char(s6, ',') {
                                Some(s7) => match parse_key(s7, n_move_made()) {
                                    Some(s8) => match parse_move(s8) {
                                        Some((m, s9)) => match parse_char(s9, '}') {
                                            Some(s10) => match parse_char(s10, '}') {
                                                Some(s11) => Some(
                                                    (
                                                        StcAbs::State {
                                                            board: b,
                                                            joever: j,
                                                            move_made: m,
                                                        },
                                                        s11,
                                                    ),
                                                ),
                                                None => None,
                                            },
                                            None => None,
                                        },
                                        None => None,
                                    },
                                    None => None,
                                },
                                None => None,
                            },
                            None => None,
                        },
                        None => None,
                    },
                    None => None,
                },
                None => None,
            },
            None => None,
        },
        None => None,
    }
}

pub open spec fn parse_stc_error_body(s: Seq<char>) -> Option<(StcAbs, Seq<char>)> {
    match parse_char(s, '{') {
        Some(s1) => match parse_key(s1, n_board()) {
            Some(s2) => match parse_board(s2) {
                Some((b, s3)) => match parse_char(s3, ',') {
                    Some(s4) => match parse_key(s4, n_message()) {
                        Some(s5) => match parse_string(s5) {
                            Some((t, s6)) => match parse_char(s6, '}') {
                                Some(s7) => match parse_char(s7, '}') {
                                    Some(s8) => Some(
                                        (StcAbs::Error { board: b, message: t }, s8),
                                    ),
                                    None => None,
                                },
                                None => None,
                            },
                            None => None,
                        },
                        None => None,
                    },
                    None => None,
                },
                None => None,
            },
            None => None,
        },
        None => None,
    }
}

pub open spec fn parse_stc(s: Seq<char>) -> Option<(StcAbs, Seq<char>)> {
    match parse_char(s, '{') {
        Some(s1) => match parse_string(s1) {
            Some((tag, s2)) => if tag == n_tag_state() {
                match parse_char(s2, ':') {
                    Some(s3) => parse_stc_state_body(s3),
                    None => None,
                }
            } else if tag == n_tag_error() {
                match parse_char(s2, ':') {
                    Some(s3) => parse_stc_error_body(s3),
                    None => None,
                }
            } else {
                None
            },
            None => None,
        },
        None => None,
    }
}

#[verifier::rlimit(100)]
pub proof fn lemma_stc_state_round_trip(board: Seq<Seq<WirePiece>>, joever: Joever, move_made: Move, rest: Seq<char>)
    requires
        board_wf(board),
        move_made.wf(),
    ensures
        parse_stc(enc_stc(StcAbs::State { board, joever, move_made }) + rest) == Some(
            (StcAbs::State { board, joever, move_made }, rest),
        ),
{
    let v = StcAbs::State { board, joever, move_made };
    let s = enc_stc(v) + rest;
    {
        {
            let a2 = key(n_tag_state());
            let a3 = seq!['{'];
            let a4 = key(n_board());
            let a5 = enc_board(board);
            let a6 = seq![','];
            let a7 = key(n_joever());
            let a8 = enc_joever(joever);
            let a9 = seq![','];
            let a10 = key(n_move_made());
            let a11 = enc_move(move_made);
            let a12 = seq!['}'];
            let a13 = seq!['}'];
            assert(enc_stc(v) == seq!['{'] + a2 + a3 + a4 + a5 + a6 + a7 + a8 + a9 + a10 + a11
                + a12 + a13);
            let u11 = a13 + rest;
            let u10 = a12 + u11;
            let u9 = a11 + u10;
            let u8 = a10 + u9;
            let u7 = a9 + u8;
            let u6 = a8 + u7;
            let u5 = a7 + u6;
            let u4 = a6 + u5;
            let u3 = a5 + u4;
            let u2 = a4 + u3;
            let u1 = a3 + u2;
            let u0 = a2 + u1;
            lemma_chain13(
                seq!['{'], a2, a3, a4, a5, a6, a7, a8, a9, a10, a11, a12, a13, rest,
            );
            assert(s == seq!['{'] + u0);
            lemma_uncons('{', u0);
            assert(parse_char(s, '{') == Some(u0));
            lemma_chain(enc_string(n_tag_state()), seq![':'], u1);
            assert(u0 == enc_string(n_tag_state()) + (seq![':'] + u1));
            lemma_name_round_trip(n_tag_state(), seq![':'] + u1);
            lemma_uncons(':', u1);
            lemma_uncons('{', u2);
            lemma_key_round_trip(n_board(), u3);
            lemma_board_round_trip(board, u4);
            lemma_uncons(',', u5);
            lemma_key_round_trip(n_joever(), u6);
            lemma_joever_round_trip(joever, u7);
            lemma_uncons(',', u8);
            lemma_key_round_trip(n_move_made(), u9);
            lemma_move_round_trip(move_made, u10);
            lemma_uncons('}', u11);
            lemma_uncons('}', rest);
        }
    }
}

#[verifier::rlimit(100)]
pub proof fn lemma_stc_error_round_trip(board: Seq<Seq<WirePiece>>, message: Seq<char>, rest: Seq<char>)
    requires
        board_wf(board),
    ensures
        parse_stc(enc_stc(StcAbs::Error { board, message }) + rest) == Some(
            (StcAbs::Error { board, message }, rest),
        ),
{
    let v = StcAbs::Error { board, message };
    let s = enc_stc(v) + rest;
    {
        {
            let a2 = key(n_tag_error());
            let a3 = seq!['{'];
            let a4 = key(n_board());
            let a5 = enc_board(board);
            let a6 = seq![','];
            let a7 = key(n_message());
            let a8 = enc_string(message);
            let a9 = seq!['}'];
            let a10 = seq!['}'];
            assert(enc_stc(v) == seq!['{'] + a2 + a3 + a4 + a5 + a6 + a7 + a8 + a9 + a10);
            let u8 = a10 + rest;
            let u7 = a9 + u8;
            let u6 = a8 + u7;
            let u5 = a7 + u6;
            let u4 = a6 + u5;
            let u3 = a5 + u4;
            let u2 = a4 + u3;
            let u1 = a3 + u2;
            let u0 = a2 + u1;
            lemma_chain10(seq!['{'], a2, a3, a4, a5, a6, a7, a8, a9, a10, rest);
            assert(s == seq!['{'] + u0);
            lemma_uncons('{', u0);
            assert(parse_char(s, '{') == Some(u0));
            lemma_chain(enc_string(n_tag_error()), seq![':'], u1);
            assert(u0 == enc_string(n_tag_error()) + (seq![':'] + u1));
            lemma_name_round_trip(n_tag_error(), seq![':'] + u1);
            assert(n_tag_error() != n_tag_state()) by {
                assert(n_tag_error()[0] != n_tag_state()[0]);
            }
            lemma_uncons(':', u1);
            lemma_uncons('{', u2);
            lemma_key_round_trip(n_board(), u3);
            lemma_board_round_trip(board, u4);
            lemma_uncons(',', u5);
            lemma_key_round_trip(n_message(), u6);
            crate::codec::lemma_string_round_trip(message, u7);
            lemma_uncons('}', u8);
            lemma_uncons('}', rest);
        }
    }
}

pub proof fn lemma_stc_round_trip(v: StcAbs, rest: Seq<char>)
    requires
        v.wf(),
    ensures
        parse_stc(enc_stc(v) + rest) == Some((v, rest)),
{
    match v {
        StcAbs::State { board, joever, move_made } => {
            lemma_stc_state_round_trip(board, joever, move_made, rest);
        },
        StcAbs::Error { board, message } => {
            lemma_stc_error_round_trip(board, message, rest);
        },
    }
}

/// The connecting peer's handshake: the color the accepting peer shall
/// play.
pub open spec fn enc_ctsh(v: ClientToServerHandshake) -> Seq<char> {
    seq!['{'] + key(n_server_color()) + enc_color(v.server_color) + seq!['}']
}

pub open spec fn parse_ctsh(s: Seq<char>) -> Option<(ClientToServerHandshake, Seq<char>)> {
    match parse_char(s, '{') {
        Some(s1) => match parse_key(s1, n_server_color()) {
            Some(s2) => match parse_color(s2) {
                Some((c, s3)) => match parse_char(s3, '}') {
                    Some(s4) => Some((ClientToServerHandshake { server_color: c }, s4)),
                    None => None,
                },
                None => None,
            },
            None => None,
        },
        None => None,
    }
}

pub proof fn lemma_ctsh_round_trip(v: ClientToServerHandshake, rest: Seq<char>)
    ensures
        parse_ctsh(enc_ctsh(v) + rest) == Some((v, rest)),
{
    let s = enc_ctsh(v) + rest;
    let t2 = enc_color(v.server_color) + (seq!['}'] + rest);
    let t1 = key(n_server_color()) + t2;
    assert(s[0] == '{');
    assert(s.drop_first() =~= t1);
    lemma_key_round_trip(n_server_color(), t2);
    lemma_color_round_trip(v.server_color, seq!['}'] + rest);
    assert((seq!['}'] + rest)[0] == '}');
    assert((seq!['}'] + rest).drop_first() =~= rest);
}

/// The accepting peer's handshake: initial board, (unused) move list and
/// the outcome, always ongoing at session start.
pub open spec fn enc_stch(v: StchAbs) -> Seq<char> {
    seq!['{'] + key(n_board()) + enc_board(v.board) + seq![','] + key(n_moves()) + enc_moves(
        v.moves,
    ) + seq![','] + key(n_joever()) + enc_joever(v.joever) + seq!['}']
}

pub open spec fn parse_stch(s: Seq<char>) -> Option<(StchAbs, Seq<char>)> {
    match parse_char(s, '{') {
        Some(s1) => match parse_key(s1, n_board()) {
            Some(s2) => match parse_board(s2) {
                Some((b, s3)) => match parse_char(s3, ',') {
                    Some(s4) => match parse_key(s4, n_moves()) {
                        Some(s5) => match parse_moves(s5) {
                            Some((ms, s6)) => match parse_char(s6, ',') {
                                Some(s7) => match parse_key(s7, n_joever()) {
                                    Some(s8) => match parse_joever(s8) {
                                        Some((j, s9)) => match parse_char(s9, '}') {
                                            Some(s10) => Some(
                                                (
                                                    StchAbs { board: b, moves: ms, joever: j },
                                                    s10,
                                                ),
                                            ),
                                            None => None,
                                        },
                                        None => None,
                                    },
                                    None => None,
                                },
                                None => None,
                            },
                            None => None,
                        },
                        None => None,
                    },
                    None => None,
                },
                None => None,
            },
            None => None,
        },
        None => None,
    }
}

#[verifier::rlimit(100)]
pub proof fn lemma_stch_round_trip(v: StchAbs, rest: Seq<char>)
    requires
        v.wf(),
    ensures
        parse_stch(enc_stch(v) + rest) == Some((v, rest)),
{
    let s = enc_stch(v) + rest;
    let a2 = key(n_board());
    let a3 = enc_board(v.board);
    let a4 = seq![','];
    let a5 = key(n_moves());
    let a6 = enc_moves(v.moves);
    let a7 = seq![','];
    let a8 = key(n_joever());
    let a9 = enc_joever(v.joever);
    let a10 = seq!['}'];
    assert(enc_stch(v) == seq!['{'] + a2 + a3 + a4 + a5 + a6 + a7 + a8 + a9 + a10);
    let u8 = a10 + rest;
    let u7 = a9 + u8;
    let u6 = a8 + u7;
    let u5 = a7 + u6;
    let u4 = a6 + u5;
    let u3 = a5 + u4;
    let u2 = a4 + u3;
    let u1 = a3 + u2;
    let u0 = a2 + u1;
    lemma_chain10(seq!['{'], a2, a3, a4, a5, a6, a7, a8, a9, a10, rest);
    assert(s == seq!['{'] + u0);
    lemma_uncons('{', u0);
    assert(parse_char(s, '{') == Some(u0));
    lemma_key_round_trip(n_board(), u1);
    lemma_board_round_trip(v.board, u2);
    lemma_uncons(',', u3);
    lemma_key_round_trip(n_moves(), u4);
    lemma_moves_round_trip(v.moves, u5);
    lemma_uncons(',', u6);
    lemma_key_round_trip(n_joever(), u7);
    lemma_joever_round_trip(v.joever, u8);
    lemma_uncons('}', rest);
}

} // verus!
