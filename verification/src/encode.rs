//! The executable encoders: each appends the canonical wire text of one
//! value to an output string, and is proved to append exactly what the
//! specification encoders of `wire` describe.

use vstd::prelude::*;
use crate::codec::{piece_name, joever_name, color_name, lemma_piece_name, lemma_joever_name,
    lemma_color_name};
use crate::logic::Player;
use crate::protocol::{Board, Joever, Move, WirePiece};
use crate::text::{append_jstring, append_key, append_name, digit_char_exec, push_char};
use crate::wire::{
    enc_board, enc_board_rows, enc_cells, enc_color, enc_joever, enc_move, enc_moves,
    enc_moves_tail, enc_piece, enc_row, lemma_names_plain, n_end_x, n_end_y, n_promotion,
    n_start_x, n_start_y,
};

verus! {

/// Writes a board cell as its quoted wire name.
pub(crate) fn append_piece(out: &mut String, p: WirePiece)
    ensures
        final(out)@ == old(out)@ + enc_piece(p),
{
    proof {
        lemma_piece_name(p);
    }
    match p {
        WirePiece::Empty => {
            proof {
                reveal_strlit("None");
                assert("None"@ =~= piece_name(WirePiece::Empty));
            }
            append_name(out, "None");
        },
        WirePiece::WhitePawn => {
            proof {
                reveal_strlit("WhitePawn");
                assert("WhitePawn"@ =~= piece_name(WirePiece::WhitePawn));
            }
            append_name(out, "WhitePawn");
        },
        WirePiece::WhiteRook => {
            proof {
                reveal_strlit("WhiteRook");
                assert("WhiteRook"@ =~= piece_name(WirePiece::WhiteRook));
            }
            append_name(out, "WhiteRook");
        },
        WirePiece::WhiteKnight => {
            proof {
                reveal_strlit("WhiteKnight");
                assert("WhiteKnight"@ =~= piece_name(WirePiece::WhiteKnight));
            }
            append_name(out, "WhiteKnight");
        },
        WirePiece::WhiteBishop => {
            proof {
                reveal_strlit("WhiteBishop");
                assert("WhiteBishop"@ =~= piece_name(WirePiece::WhiteBishop));
            }
            append_name(out, "WhiteBishop");
        },
        WirePiece::WhiteQueen => {
            proof {
                reveal_strlit("WhiteQueen");
                assert("WhiteQueen"@ =~= piece_name(WirePiece::WhiteQueen));
            }
            append_name(out, "WhiteQueen");
        },
        WirePiece::WhiteKing => {
            proof {
                reveal_strlit("WhiteKing");
                assert("WhiteKing"@ =~= piece_name(WirePiece::WhiteKing));
            }
            append_name(out, "WhiteKing");
        },
        WirePiece::BlackPawn => {
            proof {
                reveal_strlit("BlackPawn");
                assert("BlackPawn"@ =~= piece_name(WirePiece::BlackPawn));
            }
            append_name(out, "BlackPawn");
        },
        WirePiece::BlackRook => {
            proof {
                reveal_strlit("BlackRook");
                assert("BlackRook"@ =~= piece_name(WirePiece::BlackRook));
            }
            append_name(out, "BlackRook");
        },
        WirePiece::BlackKnight => {
            proof {
                reveal_strlit("BlackKnight");
                assert("BlackKnight"@ =~= piece_name(WirePiece::BlackKnight));
            }
            append_name(out, "BlackKnight");
        },
        WirePiece::BlackBishop => {
            proof {
                reveal_strlit("BlackBishop");
                assert("BlackBishop"@ =~= piece_name(WirePiece::BlackBishop));
            }
            append_name(out, "BlackBishop");
        },
        WirePiece::BlackQueen => {
            proof {
                reveal_strlit("BlackQueen");
                assert("BlackQueen"@ =~= piece_name(WirePiece::BlackQueen));
            }
            append_name(out, "BlackQueen");
        },
        WirePiece::BlackKing => {
            proof {
                reveal_strlit("BlackKing");
                assert("BlackKing"@ =~= piece_name(WirePiece::BlackKing));
            }
            append_name(out, "BlackKing");
        },
    }
}

/// Writes an outcome as its quoted wire name.
pub(crate) fn append_joever(out: &mut String, j: Joever)
    ensures
        final(out)@ == old(out)@ + enc_joever(j),
{
    proof {
        lemma_joever_name(j);
    }
    match j {
        Joever::Ongoing => {
            proof {
                reveal_strlit("Ongoing");
                assert("Ongoing"@ =~= joever_name(Joever::Ongoing));
            }
            append_name(out, "Ongoing");
        },
        Joever::White => {
            proof {
                reveal_strlit("White");
                assert("White"@ =~= joever_name(Joever::White));
            }
            append_name(out, "White");
        },
        Joever::Black => {
            proof {
                reveal_strlit("Black");
                assert("Black"@ =~= joever_name(Joever::Black));
            }
            append_name(out, "Black");
        },
        Joever::Draw => {
            proof {
                reveal_strlit("Draw");
                assert("Draw"@ =~= joever_name(Joever::Draw));
            }
            append_name(out, "Draw");
        },
        Joever::Indeterminate => {
            proof {
                reveal_strlit("Indeterminate");
                assert("Indeterminate"@ =~= joever_name(Joever::Indeterminate));
            }
            append_name(out, "Indeterminate");
        },
    }
}

/// Writes a color as its quoted wire name.
pub(crate) fn append_color(out: &mut String, c: Player)
    ensures
        final(out)@ == old(out)@ + enc_color(c),
{
    proof {
        lemma_color_name(c);
    }
    match c {
        Player::White => {
            proof {
                reveal_strlit("White");
                assert("White"@ =~= color_name(Player::White));
            }
            append_name(out, "White");
        },
        Player::Black => {
            proof {
                reveal_strlit("Black");
                assert("Black"@ =~= color_name(Player::Black));
            }
            append_name(out, "Black");
        },
    }
}

/// Writes a move object.
#[verifier::rlimit(100)]
pub(crate) fn append_move(out: &mut String, m: &Move)
    requires
        m.wf(),
    ensures
        final(out)@ == old(out)@ + enc_move(*m),
{
    proof {
        lemma_names_plain();
        reveal_strlit("start_x");
        reveal_strlit("start_y");
        reveal_strlit("end_x");
        reveal_strlit("end_y");
        reveal_strlit("promotion");
        assert("start_x"@ =~= n_start_x());
        assert("start_y"@ =~= n_start_y());
        assert("end_x"@ =~= n_end_x());
        assert("end_y"@ =~= n_end_y());
        assert("promotion"@ =~= n_promotion());
    }
    push_char(out, '{');
    append_key(out, "start_x");
    push_char(out, digit_char_exec(m.start_x));
    push_char(out, ',');
    append_key(out, "start_y");
    push_char(out, digit_char_exec(m.start_y));
    push_char(out, ',');
    append_key(out, "end_x");
    push_char(out, digit_char_exec(m.end_x));
    push_char(out, ',');
    append_key(out, "end_y");
    push_char(out, digit_char_exec(m.end_y));
    push_char(out, ',');
    append_key(out, "promotion");
    append_piece(out, m.promotion);
    push_char(out, '}');
    proof {
        assert(final(out)@ =~= old(out)@ + enc_move(*m));
    }
}

/// Writes the cells of a row from index `i` on, comma-separated.
pub(crate) fn append_cells(out: &mut String, row: &Vec<WirePiece>, i: usize)
    requires
        i < row@.len(),
    ensures
        final(out)@ == old(out)@ + enc_cells(row@.skip(i as int)),
    decreases row@.len() - i,
{
    let n = row.len();
    append_piece(out, row[i]);
    proof {
        assert(row@.skip(i as int)[0] == row@[i as int]);
    }
    if i + 1 == n {
        proof {
            assert(row@.skip(i as int).len() == 1);
            assert(enc_cells(row@.skip(i as int)) == enc_piece(row@[i as int]));
        }
    } else {
        push_char(out, ',');
        append_cells(out, row, i + 1);
        proof {
            assert(row@.skip(i as int).drop_first() =~= row@.skip(i as int + 1));
            assert(final(out)@ =~= old(out)@ + enc_cells(row@.skip(i as int)));
        }
    }
}

/// Writes one row of a board.
pub(crate) fn append_row(out: &mut String, row: &Vec<WirePiece>)
    requires
        row@.len() >= 1,
    ensures
        final(out)@ == old(out)@ + enc_row(row@),
{
    push_char(out, '[');
    append_cells(out, row, 0);
    push_char(out, ']');
    proof {
        assert(row@.skip(0) =~= row@);
        assert(final(out)@ =~= old(out)@ + enc_row(row@));
    }
}

/// Writes the rows of a board from index `i` on, comma-separated.
pub(crate) fn append_board_rows(out: &mut String, b: &Board, i: usize)
    requires
        b.wf(),
        i < 8,
    ensures
        final(out)@ == old(out)@ + enc_board_rows(b@.skip(i as int)),
    decreases 8 - i,
{
    proof {
        assert(b@[i as int] == b.rows@[i as int]@);
        assert(b@.skip(i as int)[0] == b@[i as int]);
    }
    append_row(out, &b.rows[i]);
    if i + 1 == 8 {
        proof {
            assert(b@.skip(i as int).len() == 1);
            assert(enc_board_rows(b@.skip(i as int)) == enc_row(b@[i as int]));
        }
    } else {
        push_char(out, ',');
        append_board_rows(out, b, i + 1);
        proof {
            assert(b@.skip(i as int).drop_first() =~= b@.skip(i as int + 1));
            assert(final(out)@ =~= old(out)@ + enc_board_rows(b@.skip(i as int)));
        }
    }
}

/// Writes a complete board: all 64 cells, never a diff.
pub(crate) fn append_board(out: &mut String, b: &Board)
    requires
        b.wf(),
    ensures
        final(out)@ == old(out)@ + enc_board(b@),
{
    push_char(out, '[');
    append_board_rows(out, b, 0);
    push_char(out, ']');
    proof {
        assert(b@.skip(0) =~= b@);
        assert(final(out)@ =~= old(out)@ + enc_board(b@));
    }
}

/// Writes the move-list elements from index `i` on, each preceded by a
/// comma.
pub(crate) fn append_moves_tail(out: &mut String, ms: &Vec<Move>, i: usize)
    requires
        i <= ms@.len(),
        forall|k: int| 0 <= k < ms@.len() ==> (#[trigger] ms@[k]).wf(),
    ensures
        final(out)@ == old(out)@ + enc_moves_tail(ms@.skip(i as int)),
    decreases ms@.len() - i,
{
    if i == ms.len() {
        proof {
            assert(ms@.skip(i as int).len() == 0);
            assert(final(out)@ =~= old(out)@ + enc_moves_tail(ms@.skip(i as int)));
        }
    } else {
        push_char(out, ',');
        append_move(out, &ms[i]);
        append_moves_tail(out, ms, i + 1);
        proof {
            assert(ms@.skip(i as int)[0] == ms@[i as int]);
            assert(ms@.skip(i as int).drop_first() =~= ms@.skip(i as int + 1));
            assert(final(out)@ =~= old(out)@ + enc_moves_tail(ms@.skip(i as int)));
        }
    }
}

/// Writes a possibly-empty move list.
pub(crate) fn append_moves(out: &mut String, ms: &Vec<Move>)
    requires
        forall|k: int| 0 <= k < ms@.len() ==> (#[trigger] ms@[k]).wf(),
    ensures
        final(out)@ == old(out)@ + enc_moves(ms@),
{
    if ms.len() == 0 {
        push_char(out, '[');
        push_char(out, ']');
        proof {
            assert(final(out)@ =~= old(out)@ + enc_moves(ms@));
        }
    } else {
        push_char(out, '[');
        append_move(out, &ms[0]);
        append_moves_tail(out, ms, 1);
        push_char(out, ']');
        proof {
            assert(ms@.skip(1) =~= ms@.drop_first());
            assert(final(out)@ =~= old(out)@ + enc_moves(ms@));
        }
    }
}

} // verus!
