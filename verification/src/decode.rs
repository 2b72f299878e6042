//! The executable parsers: cursor-based readers over the characters of
//! one received text, each proved to behave exactly as the specification
//! parsers of `wire` and `codec`.

use vstd::prelude::*;
use vstd::string::StrSliceExecFns;
use vstd::utf8::{char_u32_cast, is_scalar};
use crate::codec::{
    cons_char, parse_char, parse_coord, parse_string, parse_string_body, piece_of_name,
    joever_of_name, color_of_name, piece_name, joever_name, color_name,
};
use crate::logic::Player;
use crate::protocol::{
    Board, ClientToServer, ClientToServerHandshake, Joever, Move, ServerToClient,
    ServerToClientHandshake, WirePiece,
};
use crate::text::{char_code, char_of_code, hex_val_exec, push_char};
use crate::wire::{
    parse_board, parse_board_rows, parse_cells, parse_color, parse_cts, parse_ctsh, parse_joever,
    parse_key, parse_move, parse_moves, parse_moves_tail, parse_piece, parse_row, parse_sep_coord,
    parse_stc, parse_stc_error_body, parse_stc_state_body, parse_stch, n_tag_error, n_tag_state,
};

verus! {

/// Skipping twice is skipping once further along.
proof fn lemma_skip2(v: Seq<char>, pos: int, k: int)
    requires
        0 <= pos,
        0 <= k,
        pos + k <= v.len(),
    ensures
        v.skip(pos).skip(k) == v.skip(pos + k),
{
    assert(v.skip(pos).skip(k) =~= v.skip(pos + k));
}

/// Consumes one expected character.
fn p_char(v: &Vec<char>, pos: usize, c: char) -> (r: Option<usize>)
    requires
        pos <= v@.len(),
    ensures
        match r {
            Some(p) => pos < p <= v@.len() && parse_char(v@.skip(pos as int), c) == Some(
                v@.skip(p as int),
            ),
            None => parse_char(v@.skip(pos as int), c) is None,
        },
{
    if pos < v.len() && v[pos] == c {
        proof {
            assert(v@.skip(pos as int)[0] == v@[pos as int]);
            assert(v@.skip(pos as int).drop_first() =~= v@.skip(pos as int + 1));
        }
        Some(pos + 1)
    } else {
        proof {
            if pos < v@.len() {
                assert(v@.skip(pos as int)[0] == v@[pos as int]);
            }
        }
        None
    }
}

/// Character-for-character equality of two string slices.
fn str_eq(a: &str, b: &str) -> (r: bool)
    ensures
        r == (a@ == b@),
{
    let na = a.unicode_len();
    let nb = b.unicode_len();
    if na != nb {
        return false;
    }
    for i in 0..na
        invariant
            na == a@.len() == b@.len(),
            forall|k: int| 0 <= k < i ==> a@[k] == b@[k],
    {
        if a.get_char(i) != b.get_char(i) {
            return false;
        }
    }
    proof {
        assert(a@ =~= b@);
    }
    true
}

/// One step of unescaping: the decoded character and the advance are
/// composed with the rest of the parse.
proof fn lemma_body_step(full: Seq<char>, start: int, pos: int, adv: int, prior: Seq<char>, c: char)
    requires
        parse_string_body(full.skip(pos)) == cons_char(c, parse_string_body(full.skip(pos + adv))),
        match parse_string_body(full.skip(pos)) {
            Some((t2, rest)) => parse_string_body(full.skip(start)) == Some((prior + t2, rest)),
            None => parse_string_body(full.skip(start)) is None,
        },
    ensures
        match parse_string_body(full.skip(pos + adv)) {
            Some((t2, rest)) => parse_string_body(full.skip(start)) == Some(
                (prior + seq![c] + t2, rest),
            ),
            None => parse_string_body(full.skip(start)) is None,
        },
{
    match parse_string_body(full.skip(pos + adv)) {
        Some((t2, rest)) => {
            assert(prior + (seq![c] + t2) =~= prior + seq![c] + t2);
        },
        None => {},
    }
}

/// Reads a string body (after the opening quote) up to and including the
/// closing quote, undoing escapes.
#[verifier::rlimit(100)]
fn p_string_body(v: &Vec<char>, start: usize) -> (r: Option<(String, usize)>)
    requires
        start <= v@.len(),
    ensures
        match r {
            Some((t, p)) => start < p <= v@.len() && parse_string_body(v@.skip(start as int))
                == Some((t@, v@.skip(p as int))),
            None => parse_string_body(v@.skip(start as int)) is None,
        },
{
    let mut pos = start;
    let mut out = String::new();
    loop
        invariant
            start <= pos <= v@.len(),
            match parse_string_body(v@.skip(pos as int)) {
                Some((t2, rest)) => parse_string_body(v@.skip(start as int)) == Some(
                    (out@ + t2, rest),
                ),
                None => parse_string_body(v@.skip(start as int)) is None,
            },
        decreases v@.len() - pos,
    {
        let ghost s = v@.skip(pos as int);
        if pos == v.len() {
            proof {
                assert(s.len() == 0);
            }
            return None;
        }
        let c = v[pos];
        proof {
            assert(s[0] == v@[pos as int]);
        }
        let ghost prior = out@;
        if c == '"' {
            proof {
                lemma_skip2(v@, pos as int, 1);
                assert(s.drop_first() == v@.skip(pos as int + 1));
                assert(out@ + Seq::<char>::empty() =~= out@);
            }
            return Some((out, pos + 1));
        } else if c == '\\' {
            if pos + 1 == v.len() {
                proof {
                    assert(s.len() == 1);
                }
                return None;
            }
            let e = v[pos + 1];
            proof {
                assert(s[1] == v@[pos as int + 1]);
            }
            if e == '"' || e == '\\' || e == '/' {
                push_char(&mut out, e);
                proof {
                    lemma_skip2(v@, pos as int, 2);
                    lemma_body_step(v@, start as int, pos as int, 2, prior, e);
                }
                pos = pos + 2;
            } else if e == 'n' {
                push_char(&mut out, '\n');
                proof {
                    lemma_skip2(v@, pos as int, 2);
                    lemma_body_step(v@, start as int, pos as int, 2, prior, '\n');
                }
                pos = pos + 2;
            } else if e == 't' {
                push_char(&mut out, '\t');
                proof {
                    lemma_skip2(v@, pos as int, 2);
                    lemma_body_step(v@, start as int, pos as int, 2, prior, '\t');
                }
                pos = pos + 2;
            } else if e == 'r' {
                push_char(&mut out, '\r');
                proof {
                    lemma_skip2(v@, pos as int, 2);
                    lemma_body_step(v@, start as int, pos as int, 2, prior, '\r');
                }
                pos = pos + 2;
            } else if e == 'b' {
                push_char(&mut out, '\u{8}');
                proof {
                    lemma_skip2(v@, pos as int, 2);
                    lemma_body_step(v@, start as int, pos as int, 2, prior, '\u{8}');
                }
                pos = pos + 2;
            } else if e == 'f' {
                push_char(&mut out, '\u{c}');
                proof {
                    lemma_skip2(v@, pos as int, 2);
                    lemma_body_step(v@, start as int, pos as int, 2, prior, '\u{c}');
                }
                pos = pos + 2;
            } else if e == 'u' {
                if v.len() - pos < 6 {
                    proof {
                        assert(s.len() < 6);
                    }
                    return None;
                }
                let h2 = hex_val_exec(v[pos + 2]);
                let h3 = hex_val_exec(v[pos + 3]);
                let h4 = hex_val_exec(v[pos + 4]);
                let h5 = hex_val_exec(v[pos + 5]);
                proof {
                    assert(s[2] == v@[pos as int + 2]);
                    assert(s[3] == v@[pos as int + 3]);
                    assert(s[4] == v@[pos as int + 4]);
                    assert(s[5] == v@[pos as int + 5]);
                }
                if h2 >= 16 || h3 >= 16 || h4 >= 16 || h5 >= 16 {
                    return None;
                }
                let val: u32 = ((h2 * 16 + h3) * 16 + h4) * 16 + h5;
                if 0xD800 <= val && val <= 0xDFFF {
                    proof {
                        assert(!is_scalar(val));
                    }
                    return None;
                }
                proof {
                    assert(is_scalar(val));
                }
                let dc = char_of_code(val);
                push_char(&mut out, dc);
                proof {
                    char_u32_cast(dc, val);
                    lemma_skip2(v@, pos as int, 6);
                    assert(parse_string_body(s) == cons_char(dc, parse_string_body(
                        v@.skip(pos as int + 6),
                    )));
                    lemma_body_step(v@, start as int, pos as int, 6, prior, dc);
                }
                pos = pos + 6;
            } else {
                return None;
            }
        } else if char_code(c) < 0x20 {
            return None;
        } else {
            push_char(&mut out, c);
            proof {
                lemma_skip2(v@, pos as int, 1);
                assert(s.drop_first() == v@.skip(pos as int + 1));
                lemma_body_step(v@, start as int, pos as int, 1, prior, c);
            }
            pos = pos + 1;
        }
    }
}

/// Reads one complete JSON string, quotes included.
fn p_string(v: &Vec<char>, pos: usize) -> (r: Option<(String, usize)>)
    requires
        pos <= v@.len(),
    ensures
        match r {
            Some((t, p)) => pos < p <= v@.len() && parse_string(v@.skip(pos as int)) == Some(
                (t@, v@.skip(p as int)),
            ),
            None => parse_string(v@.skip(pos as int)) is None,
        },
{
    match p_char(v, pos, '"') {
        Some(p1) => p_string_body(v, p1),
        None => None,
    }
}

/// Reads one board coordinate: a single digit below 8.
fn p_coord(v: &Vec<char>, pos: usize) -> (r: Option<(u8, usize)>)
    requires
        pos <= v@.len(),
    ensures
        match r {
            Some((d, p)) => pos < p <= v@.len() && d < 8 && parse_coord(v@.skip(pos as int))
                == Some((d, v@.skip(p as int))),
            None => parse_coord(v@.skip(pos as int)) is None,
        },
{
    if pos == v.len() {
        return None;
    }
    let code = char_code(v[pos]);
    proof {
        assert(v@.skip(pos as int)[0] == v@[pos as int]);
    }
    if 48 <= code && code <= 55 {
        proof {
            assert(v@.skip(pos as int).drop_first() =~= v@.skip(pos as int + 1));
        }
        Some(((code - 48) as u8, pos + 1))
    } else {
        None
    }
}

/// The board cell a wire name stands for, if any.
fn piece_from_name(n: &str) -> (r: Option<WirePiece>)
    ensures
        r == piece_of_name(n@),
{
    proof {
        reveal_strlit("None");
        reveal_strlit("WhitePawn");
        reveal_strlit("WhiteRook");
        reveal_strlit("WhiteKnight");
        reveal_strlit("WhiteBishop");
        reveal_strlit("WhiteQueen");
        reveal_strlit("WhiteKing");
        reveal_strlit("BlackPawn");
        reveal_strlit("BlackRook");
        reveal_strlit("BlackKnight");
        reveal_strlit("BlackBishop");
        reveal_strlit("BlackQueen");
        reveal_strlit("BlackKing");
        assert("None"@ =~= piece_name(WirePiece::Empty));
        assert("WhitePawn"@ =~= piece_name(WirePiece::WhitePawn));
        assert("WhiteRook"@ =~= piece_name(WirePiece::WhiteRook));
        assert("WhiteKnight"@ =~= piece_name(WirePiece::WhiteKnight));
        assert("WhiteBishop"@ =~= piece_name(WirePiece::WhiteBishop));
        assert("WhiteQueen"@ =~= piece_name(WirePiece::WhiteQueen));
        assert("WhiteKing"@ =~= piece_name(WirePiece::WhiteKing));
        assert("BlackPawn"@ =~= piece_name(WirePiece::BlackPawn));
        assert("BlackRook"@ =~= piece_name(WirePiece::BlackRook));
        assert("BlackKnight"@ =~= piece_name(WirePiece::BlackKnight));
        assert("BlackBishop"@ =~= piece_name(WirePiece::BlackBishop));
        assert("BlackQueen"@ =~= piece_name(WirePiece::BlackQueen));
        assert("BlackKing"@ =~= piece_name(WirePiece::BlackKing));
    }
    if str_eq(n, "None") {
        Some(WirePiece::Empty)
    } else if str_eq(n, "WhitePawn") {
        Some(WirePiece::WhitePawn)
    } else if str_eq(n, "WhiteRook") {
        Some(WirePiece::WhiteRook)
    } else if str_eq(n, "WhiteKnight") {
        Some(WirePiece::WhiteKnight)
    } else if str_eq(n, "WhiteBishop") {
        Some(WirePiece::WhiteBishop)
    } else if str_eq(n, "WhiteQueen") {
        Some(WirePiece::WhiteQueen)
    } else if str_eq(n, "WhiteKing") {
        Some(WirePiece::WhiteKing)
    } else if str_eq(n, "BlackPawn") {
        Some(WirePiece::BlackPawn)
    } else if str_eq(n, "BlackRook") {
        Some(WirePiece::BlackRook)
    } else if str_eq(n, "BlackKnight") {
        Some(WirePiece::BlackKnight)
    } else if str_eq(n, "BlackBishop") {
        Some(WirePiece::BlackBishop)
    } else if str_eq(n, "BlackQueen") {
        Some(WirePiece::BlackQueen)
    } else if str_eq(n, "BlackKing") {
        Some(WirePiece::BlackKing)
    } else {
        None
    }
}

/// The outcome a wire name stands for, if any.
fn joever_from_name(n: &str) -> (r: Option<Joever>)
    ensures
        r == joever_of_name(n@),
{
    proof {
        reveal_strlit("Ongoing");
        reveal_strlit("White");
        reveal_strlit("Black");
        reveal_strlit("Draw");
        reveal_strlit("Indeterminate");
        assert("Ongoing"@ =~= joever_name(Joever::Ongoing));
        assert("White"@ =~= joever_name(Joever::White));
        assert("Black"@ =~= joever_name(Joever::Black));
        assert("Draw"@ =~= joever_name(Joever::Draw));
        assert("Indeterminate"@ =~= joever_name(Joever::Indeterminate));
    }
    if str_eq(n, "Ongoing") {
        Some(Joever::Ongoing)
    } else if str_eq(n, "White") {
        Some(Joever::White)
    } else if str_eq(n, "Black") {
        Some(Joever::Black)
    } else if str_eq(n, "Draw") {
        Some(Joever::Draw)
    } else if str_eq(n, "Indeterminate") {
        Some(Joever::Indeterminate)
    } else {
        None
    }
}

/// The color a wire name stands for, if any.
fn color_from_name(n: &str) -> (r: Option<Player>)
    ensures
        r == color_of_name(n@),
{
    proof {
        reveal_strlit("White");
        reveal_strlit("Black");
        assert("White"@ =~= color_name(Player::White));
        assert("Black"@ =~= color_name(Player::Black));
    }
    if str_eq(n, "White") {
        Some(Player::White)
    } else if str_eq(n, "Black") {
        Some(Player::Black)
    } else {
        None
    }
}

/// Reads a board cell name.
fn p_piece(v: &Vec<char>, pos: usize) -> (r: Option<(WirePiece, usize)>)
    requires
        pos <= v@.len(),
    ensures
        match r {
            Some((pc, p)) => pos < p <= v@.len() && parse_piece(v@.skip(pos as int)) == Some(
                (pc, v@.skip(p as int)),
            ),
            None => parse_piece(v@.skip(pos as int)) is None,
        },
{
    match p_string(v, pos) {
        Some((t, p)) => match piece_from_name(t.as_str()) {
            Some(pc) => Some((pc, p)),
            None => None,
        },
        None => None,
    }
}

/// Reads an outcome name.
fn p_joever(v: &Vec<char>, pos: usize) -> (r: Option<(Joever, usize)>)
    requires
        pos <= v@.len(),
    ensures
        match r {
            Some((j, p)) => pos < p <= v@.len() && parse_joever(v@.skip(pos as int)) == Some(
                (j, v@.skip(p as int)),
            ),
            None => parse_joever(v@.skip(pos as int)) is None,
        },
{
    match p_string(v, pos) {
        Some((t, p)) => match joever_from_name(t.as_str()) {
            Some(j) => Some((j, p)),
            None => None,
        },
        None => None,
    }
}

/// Reads a color name.
fn p_color(v: &Vec<char>, pos: usize) -> (r: Option<(Player, usize)>)
    requires
        pos <= v@.len(),
    ensures
        match r {
            Some((c, p)) => pos < p <= v@.len() && parse_color(v@.skip(pos as int)) == Some(
                (c, v@.skip(p as int)),
            ),
            None => parse_color(v@.skip(pos as int)) is None,
        },
{
    match p_string(v, pos) {
        Some((t, p)) => match color_from_name(t.as_str()) {
            Some(c) => Some((c, p)),
            None => None,
        },
        None => None,
    }
}

/// Reads a field key with the given name.
fn p_key(v: &Vec<char>, pos: usize, name: &str) -> (r: Option<usize>)
    requires
        pos <= v@.len(),
    ensures
        match r {
            Some(p) => pos < p <= v@.len() && parse_key(v@.skip(pos as int), name@) == Some(
                v@.skip(p as int),
            ),
            None => parse_key(v@.skip(pos as int), name@) is None,
        },
{
    match p_string(v, pos) {
        Some((t, p1)) => if str_eq(t.as_str(), name) {
            p_char(v, p1, ':')
        } else {
            None
        },
        None => None,
    }
}

/// Reads a comma, a coordinate key and its digit.
fn p_sep_coord(v: &Vec<char>, pos: usize, name: &str) -> (r: Option<(u8, usize)>)
    requires
        pos <= v@.len(),
    ensures
        match r {
            Some((d, p)) => pos < p <= v@.len() && d < 8 && parse_sep_coord(
                v@.skip(pos as int),
                name@,
            ) == Some((d, v@.skip(p as int))),
            None => parse_sep_coord(v@.skip(pos as int), name@) is None,
        },
{
    match p_char(v, pos, ',') {
        Some(p1) => match p_key(v, p1, name) {
            Some(p2) => p_coord(v, p2),
            None => None,
        },
        None => None,
    }
}

/// Reads one move object.
pub(crate) fn p_move(v: &Vec<char>, pos: usize) -> (r: Option<(Move, usize)>)
    requires
        pos <= v@.len(),
    ensures
        match r {
            Some((m, p)) => pos < p <= v@.len() && m.wf() && parse_move(v@.skip(pos as int))
                == Some((m, v@.skip(p as int))),
            None => parse_move(v@.skip(pos as int)) is None,
        },
{
    proof {
        reveal_strlit("start_x");
        reveal_strlit("start_y");
        reveal_strlit("end_x");
        reveal_strlit("end_y");
        reveal_strlit("promotion");
        assert("start_x"@ =~= crate::wire::n_start_x());
        assert("start_y"@ =~= crate::wire::n_start_y());
        assert("end_x"@ =~= crate::wire::n_end_x());
        assert("end_y"@ =~= crate::wire::n_end_y());
        assert("promotion"@ =~= crate::wire::n_promotion());
    }
    let p1 = match p_char(v, pos, '{') {
        Some(p) => p,
        None => {
            return None;
        },
    };
    let p2 = match p_key(v, p1, "start_x") {
        Some(p) => p,
        None => {
            return None;
        },
    };
    let (sx, p3) = match p_coord(v, p2) {
        Some(x) => x,
        None => {
            return None;
        },
    };
    let (sy, p4) = match p_sep_coord(v, p3, "start_y") {
        Some(x) => x,
        None => {
            return None;
        },
    };
    let (ex, p5) = match p_sep_coord(v, p4, "end_x") {
        Some(x) => x,
        None => {
            return None;
        },
    };
    let (ey, p6) = match p_sep_coord(v, p5, "end_y") {
        Some(x) => x,
        None => {
            return None;
        },
    };
    let p7 = match p_char(v, p6, ',') {
        Some(p) => p,
        None => {
            return None;
        },
    };
    let p8 = match p_key(v, p7, "promotion") {
        Some(p) => p,
        None => {
            return None;
        },
    };
    let (pc, p9) = match p_piece(v, p8) {
        Some(x) => x,
        None => {
            return None;
        },
    };
    let p10 = match p_char(v, p9, '}') {
        Some(p) => p,
        None => {
            return None;
        },
    };
    Some((Move { start_x: sx, start_y: sy, end_x: ex, end_y: ey, promotion: pc }, p10))
}

/// Reads exactly `k` comma-separated cells.
fn p_cells(v: &Vec<char>, pos: usize, k: usize) -> (r: Option<(Vec<WirePiece>, usize)>)
    requires
        pos <= v@.len(),
        1 <= k,
    ensures
        match r {
            Some((ps, p)) => pos < p <= v@.len() && ps@.len() == k && parse_cells(
                v@.skip(pos as int),
                k as int,
            ) == Some((ps@, v@.skip(p as int))),
            None => parse_cells(v@.skip(pos as int), k as int) is None,
        },
    decreases k,
{
    if k == 1 {
        match p_piece(v, pos) {
            Some((pc, p)) => {
                let mut ps: Vec<WirePiece> = Vec::new();
                ps.push(pc);
                proof {
                    assert(ps@ =~= seq![pc]);
                }
                Some((ps, p))
            },
            None => None,
        }
    } else {
        let (pc, p1) = match p_piece(v, pos) {
            Some(x) => x,
            None => {
                return None;
            },
        };
        let p2 = match p_char(v, p1, ',') {
            Some(p) => p,
            None => {
                return None;
            },
        };
        match p_cells(v, p2, k - 1) {
            Some((ps, p3)) => {
                let ghost tail = ps@;
                let mut ps = ps;
                ps.insert(0, pc);
                proof {
                    assert(ps@ =~= seq![pc] + tail);
                }
                Some((ps, p3))
            },
            None => None,
        }
    }
}

/// Reads one row of eight cells between brackets.
fn p_row(v: &Vec<char>, pos: usize) -> (r: Option<(Vec<WirePiece>, usize)>)
    requires
        pos <= v@.len(),
    ensures
        match r {
            Some((ps, p)) => pos < p <= v@.len() && ps@.len() == 8 && parse_row(v@.skip(pos as int))
                == Some((ps@, v@.skip(p as int))),
            None => parse_row(v@.skip(pos as int)) is None,
        },
{
    let p1 = match p_char(v, pos, '[') {
        Some(p) => p,
        None => {
            return None;
        },
    };
    let (ps, p2) = match p_cells(v, p1, 8) {
        Some(x) => x,
        None => {
            return None;
        },
    };
    match p_char(v, p2, ']') {
        Some(p3) => Some((ps, p3)),
        None => None,
    }
}

/// Reads exactly `k` comma-separated rows.
fn p_board_rows(v: &Vec<char>, pos: usize, k: usize) -> (r: Option<(Vec<Vec<WirePiece>>, usize)>)
    requires
        pos <= v@.len(),
        1 <= k,
    ensures
        match r {
            Some((rows, p)) => pos < p <= v@.len() && rows@.len() == k && (forall|i: int|
                0 <= i < k ==> (#[trigger] rows@[i])@.len() == 8) && parse_board_rows(
                v@.skip(pos as int),
                k as int,
            ) == Some((rows@.map_values(|r2: Vec<WirePiece>| r2@), v@.skip(p as int))),
            None => parse_board_rows(v@.skip(pos as int), k as int) is None,
        },
    decreases k,
{
    if k == 1 {
        match p_row(v, pos) {
            Some((row, p)) => {
                let mut rows: Vec<Vec<WirePiece>> = Vec::new();
                let ghost rowv = row@;
                rows.push(row);
                proof {
                    assert(rows@.map_values(|r2: Vec<WirePiece>| r2@) =~= seq![rowv]);
                }
                Some((rows, p))
            },
            None => None,
        }
    } else {
        let (row, p1) = match p_row(v, pos) {
            Some(x) => x,
            None => {
                return None;
            },
        };
        let p2 = match p_char(v, p1, ',') {
            Some(p) => p,
            None => {
                return None;
            },
        };
        match p_board_rows(v, p2, k - 1) {
            Some((rows, p3)) => {
                let ghost tail = rows@.map_values(|r2: Vec<WirePiece>| r2@);
                let ghost rowv = row@;
                let mut rows = rows;
                rows.insert(0, row);
                proof {
                    assert(rows@.map_values(|r2: Vec<WirePiece>| r2@) =~= seq![rowv] + tail);
                }
                Some((rows, p3))
            },
            None => None,
        }
    }
}

/// Reads one complete board: all 64 cells.
fn p_board(v: &Vec<char>, pos: usize) -> (r: Option<(Board, usize)>)
    requires
        pos <= v@.len(),
    ensures
        match r {
            Some((b, p)) => pos < p <= v@.len() && b.wf() && parse_board(v@.skip(pos as int))
                == Some((b@, v@.skip(p as int))),
            None => parse_board(v@.skip(pos as int)) is None,
        },
{
    let p1 = match p_char(v, pos, '[') {
        Some(p) => p,
        None => {
            return None;
        },
    };
    let (rows, p2) = match p_board_rows(v, p1, 8) {
        Some(x) => x,
        None => {
            return None;
        },
    };
    match p_char(v, p2, ']') {
        Some(p3) => {
            let b = Board { rows };
            proof {
                assert(forall|i: int| 0 <= i < 8 ==> (#[trigger] b@[i]).len() == 8);
            }
            Some((b, p3))
        },
        None => None,
    }
}

/// After one list element: the closing bracket, or a comma and another
/// element.
fn p_moves_tail(v: &Vec<char>, pos: usize) -> (r: Option<(Vec<Move>, usize)>)
    requires
        pos <= v@.len(),
    ensures
        match r {
            Some((ms, p)) => pos < p <= v@.len() && (forall|i: int|
                0 <= i < ms@.len() ==> (#[trigger] ms@[i]).wf()) && parse_moves_tail(
                v@.skip(pos as int),
            ) == Some((ms@, v@.skip(p as int))),
            None => parse_moves_tail(v@.skip(pos as int)) is None,
        },
    decreases v@.len() - pos,
{
    match p_char(v, pos, ']') {
        Some(p) => {
            let ms: Vec<Move> = Vec::new();
            proof {
                assert(ms@ =~= Seq::<Move>::empty());
            }
            Some((ms, p))
        },
        None => {
            let p1 = match p_char(v, pos, ',') {
                Some(p) => p,
                None => {
                    return None;
                },
            };
            let (m, p2) = match p_move(v, p1) {
                Some(x) => x,
                None => {
                    return None;
                },
            };
            proof {
                assert(v@.skip(p2 as int).len() < v@.skip(pos as int).len());
            }
            match p_moves_tail(v, p2) {
                Some((ms, p3)) => {
                    let ghost tail = ms@;
                    let mut ms = ms;
                    ms.insert(0, m);
                    proof {
                        assert(ms@ =~= seq![m] + tail);
                    }
                    Some((ms, p3))
                },
                None => None,
            }
        },
    }
}

/// Reads a possibly-empty move list between brackets.
fn p_moves(v: &Vec<char>, pos: usize) -> (r: Option<(Vec<Move>, usize)>)
    requires
        pos <= v@.len(),
    ensures
        match r {
            Some((ms, p)) => pos < p <= v@.len() && (forall|i: int|
                0 <= i < ms@.len() ==> (#[trigger] ms@[i]).wf()) && parse_moves(
                v@.skip(pos as int),
            ) == Some((ms@, v@.skip(p as int))),
            None => parse_moves(v@.skip(pos as int)) is None,
        },
{
    let p1 = match p_char(v, pos, '[') {
        Some(p) => p,
        None => {
            return None;
        },
    };
    match p_char(v, p1, ']') {
        Some(p2) => {
            let ms: Vec<Move> = Vec::new();
            proof {
                assert(ms@ =~= Seq::<Move>::empty());
            }
            Some((ms, p2))
        },
        None => {
            let (m, p2) = match p_move(v, p1) {
                Some(x) => x,
                None => {
                    return None;
                },
            };
            proof {
                assert(v@.skip(p2 as int).len() < v@.skip(p1 as int).len());
            }
            match p_moves_tail(v, p2) {
                Some((ms, p3)) => {
                    let ghost tail = ms@;
                    let mut ms = ms;
                    ms.insert(0, m);
                    proof {
                        assert(ms@ =~= seq![m] + tail);
                    }
                    Some((ms, p3))
                },
                None => None,
            }
        },
    }
}

/// Reads one client-to-server message.
pub(crate) fn p_cts(v: &Vec<char>, pos: usize) -> (r: Option<(ClientToServer, usize)>)
    requires
        pos <= v@.len(),
    ensures
        match r {
            Some((m, p)) => pos < p <= v@.len() && m.wf() && parse_cts(v@.skip(pos as int))
                == Some((m, v@.skip(p as int))),
            None => parse_cts(v@.skip(pos as int)) is None,
        },
{
    proof {
        reveal_strlit("Move");
        assert("Move"@ =~= crate::wire::n_tag_move());
    }
    let p1 = match p_char(v, pos, '{') {
        Some(p) => p,
        None => {
            return None;
        },
    };
    let p2 = match p_key(v, p1, "Move") {
        Some(p) => p,
        None => {
            return None;
        },
    };
    let (m, p3) = match p_move(v, p2) {
        Some(x) => x,
        None => {
            return None;
        },
    };
    match p_char(v, p3, '}') {
        Some(p4) => Some((ClientToServer::Move(m), p4)),
        None => None,
    }
}

/// Reads the body of a `State` reply, after its tag and colon.
fn p_stc_state_body(v: &Vec<char>, pos: usize) -> (r: Option<(ServerToClient, usize)>)
    requires
        pos <= v@.len(),
    ensures
        match r {
            Some((m, p)) => pos < p <= v@.len() && m.wf() && parse_stc_state_body(
                v@.skip(pos as int),
            ) == Some((m@, v@.skip(p as int))),
            None => parse_stc_state_body(v@.skip(pos as int)) is None,
        },
{
    proof {
        reveal_strlit("board");
        reveal_strlit("joever");
        reveal_strlit("move_made");
        assert("board"@ =~= crate::wire::n_board());
        assert("joever"@ =~= crate::wire::n_joever());
        assert("move_made"@ =~= crate::wire::n_move_made());
    }
    let p1 = match p_char(v, pos, '{') {
        Some(p) => p,
        None => {
            return None;
        },
    };
    let p2 = match p_key(v, p1, "board") {
        Some(p) => p,
        None => {
            return None;
        },
    };
    let (b, p3) = match p_board(v, p2) {
        Some(x) => x,
        None => {
            return None;
        },
    };
    let p4 = match p_char(v, p3, ',') {
        Some(p) => p,
        None => {
            return None;
        },
    };
    let p5 = match p_key(v, p4, "joever") {
        Some(p) => p,
        None => {
            return None;
        },
    };
    let (j, p6) = match p_joever(v, p5) {
        Some(x) => x,
        None => {
            return None;
        },
    };
    let p7 = match p_char(v, p6, ',') {
        Some(p) => p,
        None => {
            return None;
        },
    };
    let p8 = match p_key(v, p7, "move_made") {
        Some(p) => p,
        None => {
            return None;
        },
    };
    let (m, p9) = match p_move(v, p8) {
        Some(x) => x,
        None => {
            return None;
        },
    };
    let p10 = match p_char(v, p9, '}') {
        Some(p) => p,
        None => {
            return None;
        },
    };
    match p_char(v, p10, '}') {
        Some(p11) => Some((ServerToClient::State { board: b, joever: j, move_made: m }, p11)),
        None => None,
    }
}

/// Reads the body of an `Error` reply, after its tag and colon.
fn p_stc_error_body(v: &Vec<char>, pos: usize) -> (r: Option<(ServerToClient, usize)>)
    requires
        pos <= v@.len(),
    ensures
        match r {
            Some((m, p)) => pos < p <= v@.len() && m.wf() && parse_stc_error_body(
                v@.skip(pos as int),
            ) == Some((m@, v@.skip(p as int))),
            None => parse_stc_error_body(v@.skip(pos as int)) is None,
        },
{
    proof {
        reveal_strlit("board");
        reveal_strlit("message");
        assert("board"@ =~= crate::wire::n_board());
        assert("message"@ =~= crate::wire::n_message());
    }
    let p1 = match p_char(v, pos, '{') {
        Some(p) => p,
        None => {
            return None;
        },
    };
    let p2 = match p_key(v, p1, "board") {
        Some(p) => p,
        None => {
            return None;
        },
    };
    let (b, p3) = match p_board(v, p2) {
        Some(x) => x,
        None => {
            return None;
        },
    };
    let p4 = match p_char(v, p3, ',') {
        Some(p) => p,
        None => {
            return None;
        },
    };
    let p5 = match p_key(v, p4, "message") {
        Some(p) => p,
        None => {
            return None;
        },
    };
    let (t, p6) = match p_string(v, p5) {
        Some(x) => x,
        None => {
            return None;
        },
    };
    let p7 = match p_char(v, p6, '}') {
        Some(p) => p,
        None => {
            return None;
        },
    };
    match p_char(v, p7, '}') {
        Some(p8) => Some((ServerToClient::Error { board: b, message: t }, p8)),
        None => None,
    }
}

/// Reads one server-to-client message, dispatching on its tag.
pub(crate) fn p_stc(v: &Vec<char>, pos: usize) -> (r: Option<(ServerToClient, usize)>)
    requires
        pos <= v@.len(),
    ensures
        match r {
            Some((m, p)) => pos < p <= v@.len() && m.wf() && parse_stc(v@.skip(pos as int))
                == Some((m@, v@.skip(p as int))),
            None => parse_stc(v@.skip(pos as int)) is None,
        },
{
    proof {
        reveal_strlit("State");
        reveal_strlit("Error");
        assert("State"@ =~= n_tag_state());
        assert("Error"@ =~= n_tag_error());
    }
    let p1 = match p_char(v, pos, '{') {
        Some(p) => p,
        None => {
            return None;
        },
    };
    let (tag, p2) = match p_string(v, p1) {
        Some(x) => x,
        None => {
            return None;
        },
    };
    if str_eq(tag.as_str(), "State") {
        match p_char(v, p2, ':') {
            Some(p3) => p_stc_state_body(v, p3),
            None => None,
        }
    } else if str_eq(tag.as_str(), "Error") {
        match p_char(v, p2, ':') {
            Some(p3) => p_stc_error_body(v, p3),
            None => None,
        }
    } else {
        None
    }
}

/// Reads one connecting-peer handshake.
pub(crate) fn p_ctsh(v: &Vec<char>, pos: usize) -> (r: Option<(ClientToServerHandshake, usize)>)
    requires
        pos <= v@.len(),
    ensures
        match r {
            Some((m, p)) => pos < p <= v@.len() && m.wf() && parse_ctsh(v@.skip(pos as int))
                == Some((m, v@.skip(p as int))),
            None => parse_ctsh(v@.skip(pos as int)) is None,
        },
{
    proof {
        reveal_strlit("server_color");
        assert("server_color"@ =~= crate::wire::n_server_color());
    }
    let p1 = match p_char(v, pos, '{') {
        Some(p) => p,
        None => {
            return None;
        },
    };
    let p2 = match p_key(v, p1, "server_color") {
        Some(p) => p,
        None => {
            return None;
        },
    };
    let (c, p3) = match p_color(v, p2) {
        Some(x) => x,
        None => {
            return None;
        },
    };
    match p_char(v, p3, '}') {
        Some(p4) => Some((ClientToServerHandshake { server_color: c }, p4)),
        None => None,
    }
}

/// Reads one accepting-peer handshake.
pub(crate) fn p_stch(v: &Vec<char>, pos: usize) -> (r: Option<(ServerToClientHandshake, usize)>)
    requires
        pos <= v@.len(),
    ensures
        match r {
            Some((m, p)) => pos < p <= v@.len() && m.wf() && parse_stch(v@.skip(pos as int))
                == Some((m@, v@.skip(p as int))),
            None => parse_stch(v@.skip(pos as int)) is None,
        },
{
    proof {
        reveal_strlit("board");
        reveal_strlit("moves");
        reveal_strlit("joever");
        assert("board"@ =~= crate::wire::n_board());
        assert("moves"@ =~= crate::wire::n_moves());
        assert("joever"@ =~= crate::wire::n_joever());
    }
    let p1 = match p_char(v, pos, '{') {
        Some(p) => p,
        None => {
            return None;
        },
    };
    let p2 = match p_key(v, p1, "board") {
        Some(p) => p,
        None => {
            return None;
        },
    };
    let (b, p3) = match p_board(v, p2) {
        Some(x) => x,
        None => {
            return None;
        },
    };
    let p4 = match p_char(v, p3, ',') {
        Some(p) => p,
        None => {
            return None;
        },
    };
    let p5 = match p_key(v, p4, "moves") {
        Some(p) => p,
        None => {
            return None;
        },
    };
    let (ms, p6) = match p_moves(v, p5) {
        Some(x) => x,
        None => {
            return None;
        },
    };
    let p7 = match p_char(v, p6, ',') {
        Some(p) => p,
        None => {
            return None;
        },
    };
    let p8 = match p_key(v, p7, "joever") {
        Some(p) => p,
        None => {
            return None;
        },
    };
    let (j, p9) = match p_joever(v, p8) {
        Some(x) => x,
        None => {
            return None;
        },
    };
    match p_char(v, p9, '}') {
        Some(p10) => Some((ServerToClientHandshake { board: b, moves: ms, joever: j }, p10)),
        None => None,
    }
}

} // verus!
