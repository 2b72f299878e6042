//! The one-shot exchange that starts a session: the connecting peer asks
//! the accepting peer to play a color, the accepting peer answers with
//! the initial board; both sides derive their color and starting turn
//! state from it.

use vstd::prelude::*;
use crate::logic::{spec_initial_state, Piece, Player, State};
use crate::protocol::{
    logic_to_proto, spec_logic_to_proto, Board, ClientToServerHandshake, Joever, Move,
    ServerToClientHandshake, WirePiece,
};

verus! {

/// The back rank of the standard starting position, for one color: rook,
/// knight, bishop, queen, king, bishop, knight, rook.
pub open spec fn spec_back_rank(player: Player) -> Seq<WirePiece> {
    seq![
        spec_logic_to_proto(Piece::Rook, player),
        spec_logic_to_proto(Piece::Knight, player),
        spec_logic_to_proto(Piece::Bishop, player),
        spec_logic_to_proto(Piece::Queen, player),
        spec_logic_to_proto(Piece::King, player),
        spec_logic_to_proto(Piece::Bishop, player),
        spec_logic_to_proto(Piece::Knight, player),
        spec_logic_to_proto(Piece::Rook, player),
    ]
}

/// A rank of eight pawns of one color.
pub open spec fn spec_pawn_rank(player: Player) -> Seq<WirePiece> {
    let p = spec_logic_to_proto(Piece::Pawn, player);
    seq![p, p, p, p, p, p, p, p]
}

/// A rank of eight empty cells.
pub open spec fn spec_empty_rank() -> Seq<WirePiece> {
    seq![
        WirePiece::Empty,
        WirePiece::Empty,
        WirePiece::Empty,
        WirePiece::Empty,
        WirePiece::Empty,
        WirePiece::Empty,
        WirePiece::Empty,
        WirePiece::Empty,
    ]
}

/// The standard chess starting position, all 64 cells: White's pieces on
/// ranks one and two, Black's on ranks seven and eight.
pub open spec fn spec_start_board() -> Seq<Seq<WirePiece>> {
    seq![
        spec_back_rank(Player::White),
        spec_pawn_rank(Player::White),
        spec_empty_rank(),
        spec_empty_rank(),
        spec_empty_rank(),
        spec_empty_rank(),
        spec_pawn_rank(Player::Black),
        spec_back_rank(Player::Black),
    ]
}

/// Builds the back rank of one color.
fn back_rank(player: Player) -> (r: Vec<WirePiece>)
    ensures
        r@ == spec_back_rank(player),
{
    let mut r: Vec<WirePiece> = Vec::new();
    r.push(logic_to_proto(Piece::Rook, player));
    r.push(logic_to_proto(Piece::Knight, player));
    r.push(logic_to_proto(Piece::Bishop, player));
    r.push(logic_to_proto(Piece::Queen, player));
    r.push(logic_to_proto(Piece::King, player));
    r.push(logic_to_proto(Piece::Bishop, player));
    r.push(logic_to_proto(Piece::Knight, player));
    r.push(logic_to_proto(Piece::Rook, player));
    proof {
        assert(r@ =~= spec_back_rank(player));
    }
    r
}

/// Builds a rank of eight pawns of one color.
fn pawn_rank(player: Player) -> (r: Vec<WirePiece>)
    ensures
        r@ == spec_pawn_rank(player),
{
    let mut r: Vec<WirePiece> = Vec::new();
    let p = logic_to_proto(Piece::Pawn, player);
    for i in 0..8usize
        invariant
            p == spec_logic_to_proto(Piece::Pawn, player),
            r@.len() == i,
            forall|k: int| 0 <= k < i ==> #[trigger] r@[k] == spec_logic_to_proto(Piece::Pawn, player),
    {
        r.push(p);
    }
    proof {
        assert(r@ =~= spec_pawn_rank(player));
    }
    r
}

/// Builds a rank of eight empty cells.
fn empty_rank() -> (r: Vec<WirePiece>)
    ensures
        r@ == spec_empty_rank(),
{
    let mut r: Vec<WirePiece> = Vec::new();
    for i in 0..8usize
        invariant
            r@.len() == i,
            forall|k: int| 0 <= k < i ==> #[trigger] r@[k] == WirePiece::Empty,
    {
        r.push(WirePiece::Empty);
    }
    proof {
        assert(r@ =~= spec_empty_rank());
    }
    r
}

/// The initial board the accepting peer builds for the handshake: exactly
/// the standard starting position.  The rules engine holds the same
/// position in a fresh game; this builds it under a contract that pins
/// every cell.
pub fn start_board() -> (b: Board)
    ensures
        b.wf(),
        b@ == spec_start_board(),
{
    let mut rows: Vec<Vec<WirePiece>> = Vec::new();
    rows.push(back_rank(Player::White));
    rows.push(pawn_rank(Player::White));
    rows.push(empty_rank());
    rows.push(empty_rank());
    rows.push(empty_rank());
    rows.push(empty_rank());
    rows.push(pawn_rank(Player::Black));
    rows.push(back_rank(Player::Black));
    let b = Board { rows };
    proof {
        assert(b@ =~~= spec_start_board());
    }
    b
}

/// The turn state a peer starts in, from its assigned color.
pub fn initial_state(player: Player) -> (s: State)
    ensures
        s == spec_initial_state(player),
{
    match player {
        Player::White => State::SelectPiece,
        Player::Black => State::OpponentTurn,
    }
}

/// The handshake the connecting peer sends when it wants to play `own`:
/// it asks the accepting peer to play the complementary color.
pub fn request_handshake(own: Player) -> (r: ClientToServerHandshake)
    ensures
        r.server_color == own.spec_other(),
{
    ClientToServerHandshake { server_color: own.other() }
}

/// What the accepting peer derives from the handshake it received: its
/// own color — the one the connecting peer asked it to play — and the
/// turn state that color starts in.
pub fn accept_roles(hs: &ClientToServerHandshake) -> (r: (Player, State))
    ensures
        r.0 == hs.server_color,
        r.1 == spec_initial_state(hs.server_color),
{
    (hs.server_color, initial_state(hs.server_color))
}

/// The handshake reply the accepting peer sends: the initial board, no
/// move list, and an ongoing outcome — a match never starts decided.
pub fn handshake_reply(board: &Board) -> (r: ServerToClientHandshake)
    requires
        board.wf(),
    ensures
        r.wf(),
        r.board@ == board@,
        r.moves@ == Seq::<Move>::empty(),
        r.joever == Joever::Ongoing,
{
    ServerToClientHandshake { board: board.duplicate(), moves: Vec::new(), joever: Joever::Ongoing }
}

/// The two peers start in complementary turn states: whichever color the
/// connecting peer requests, exactly one of the two peers starts able to
/// select a piece — the one playing White — and the other starts waiting.
pub proof fn lemma_complementary_start(requested_server_color: Player)
    ensures
        spec_initial_state(requested_server_color) != spec_initial_state(
            requested_server_color.spec_other(),
        ),
        requested_server_color == Player::Black ==> spec_initial_state(requested_server_color)
            == State::OpponentTurn && spec_initial_state(requested_server_color.spec_other())
            == State::SelectPiece,
        requested_server_color == Player::White ==> spec_initial_state(requested_server_color)
            == State::SelectPiece && spec_initial_state(requested_server_color.spec_other())
            == State::OpponentTurn,
{
}

} // verus!
