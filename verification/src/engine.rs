//! Trusted boundary to the external rules engine.
//!
//! Move legality, board mutation and checkmate detection are not part of
//! this core: they are delegated to the `chess` crate.  Each wrapper here
//! makes one call into that crate.  Every result the engine hands back is
//! a deterministic function of the game value and the arguments, so each
//! gets a name — the position a game holds, the verdict on a move, the
//! checkmate test — and the wrappers' contracts say exactly that the call
//! returns the named value.  What the names are on given values is stated
//! nowhere: the controllers are verified for every verdict the engine can
//! produce, and only the runtime tests probe concrete positions.

use vstd::prelude::*;
use crate::logic::{Piece, Player};
use crate::protocol::{logic_to_proto, spec_proto_to_logic, WirePiece};

verus! {

#[verifier::external_type_specification]
#[verifier::external_body]
pub struct ExGame(chess::Game);

#[verifier::external_type_specification]
#[verifier::external_body]
pub struct ExSquare(chess::Square);

/// The position a game currently holds, cell by cell in the wire
/// representation: what `chess::Game::current_position`'s board reports
/// for each square, a function of the game value alone.
pub uninterp spec fn game_position(g: chess::Game) -> Seq<Seq<WirePiece>>;

/// Whether the game accepts the move with the given coordinates: what
/// `chess::Game::make_move` returns, a function of the game value and the
/// coordinates alone.
pub uninterp spec fn move_verdict(g: chess::Game, fx: u8, fy: u8, tx: u8, ty: u8) -> bool;

/// Whether the side to move is checkmated in the game's current
/// position: what `chess::Board::status` reports, a function of the game
/// value alone.
pub uninterp spec fn mate_verdict(g: chess::Game) -> bool;

/// The board agrees with the game's position on all 64 cells.
pub open spec fn matches_position(b: Seq<Seq<WirePiece>>, g: chess::Game) -> bool {
    forall|x: int, y: int| 0 <= x < 8 && 0 <= y < 8 ==> #[trigger] b[x][y] == game_position(g)[x][y]
}

/// Relies on `chess::Game::new`: a fresh game in the standard chess
/// starting position, White to move.
#[verifier::external_body]
pub(crate) fn engine_new() -> chess::Game {
    chess::Game::new()
}

/// Relies on `chess::Square::make_square` with `Rank::from_index` and
/// `File::from_index`: the square at the given rank and file index (both
/// functions reduce their argument modulo 8; the precondition keeps the
/// indices on the board).
#[verifier::external_body]
pub(crate) fn engine_square(x: u8, y: u8) -> chess::Square
    requires
        x < 8,
        y < 8,
{
    chess::Square::make_square(
        chess::Rank::from_index(x as usize),
        chess::File::from_index(y as usize),
    )
}

/// Relies on `chess::Board::piece_on`, reached through
/// `chess::Game::current_position`: the kind of piece standing on the
/// cell at `(x, y)` of the current position, if any — the kind half of
/// the named position reading for that cell.
#[verifier::external_body]
pub(crate) fn engine_kind_at(g: &chess::Game, x: u8, y: u8) -> (r: Option<Piece>)
    requires
        x < 8,
        y < 8,
    ensures
        r == (match spec_proto_to_logic(game_position(*g)[x as int][y as int]) {
            Some(kc) => Some(kc.0),
            None => None::<Piece>,
        }),
{
    match g.current_position().piece_on(engine_square(x, y)) {
        None => None,
        Some(chess::Piece::Pawn) => Some(Piece::Pawn),
        Some(chess::Piece::Rook) => Some(Piece::Rook),
        Some(chess::Piece::Knight) => Some(Piece::Knight),
        Some(chess::Piece::Bishop) => Some(Piece::Bishop),
        Some(chess::Piece::Queen) => Some(Piece::Queen),
        Some(chess::Piece::King) => Some(Piece::King),
    }
}

/// Relies on `chess::Board::color_on`, reached through
/// `chess::Game::current_position`: the color of the piece standing on
/// the cell at `(x, y)` of the current position, if any — the color half
/// of the named position reading for that cell.
#[verifier::external_body]
pub(crate) fn engine_color_at(g: &chess::Game, x: u8, y: u8) -> (r: Option<Player>)
    requires
        x < 8,
        y < 8,
    ensures
        r == (match spec_proto_to_logic(game_position(*g)[x as int][y as int]) {
            Some(kc) => Some(kc.1),
            None => None::<Player>,
        }),
{
    match g.current_position().color_on(engine_square(x, y)) {
        None => None,
        Some(chess::Color::White) => Some(Player::White),
        Some(chess::Color::Black) => Some(Player::Black),
    }
}

/// Relies on `chess::ChessMove::new` and `chess::Game::make_move`: plays
/// the move if it is legal in the current position and the game is not
/// over, returning the named verdict for this game and these coordinates.
/// On `false`, `make_move` returns before recording anything, so the game
/// is exactly as it was — the fact its source plainly shows.  No
/// promotion piece is ever passed: promotion is out of scope.
#[verifier::external_body]
pub(crate) fn engine_make_move(g: &mut chess::Game, fx: u8, fy: u8, tx: u8, ty: u8) -> (r: bool)
    requires
        fx < 8,
        fy < 8,
        tx < 8,
        ty < 8,
    ensures
        r == move_verdict(*old(g), fx, fy, tx, ty),
        !r ==> *final(g) == *old(g),
{
    let mv = chess::ChessMove::new(engine_square(fx, fy), engine_square(tx, ty), None);
    g.make_move(mv)
}

/// Relies on `chess::Board::status`, reached through
/// `chess::Game::current_position`: whether the side to move is
/// checkmated — the named checkmate test for this game value.
#[verifier::external_body]
pub(crate) fn engine_is_checkmate(g: &chess::Game) -> (r: bool)
    ensures
        r == mate_verdict(*g),
{
    match g.current_position().status() {
        chess::BoardStatus::Checkmate => true,
        _ => false,
    }
}

/// What stands on the cell at `(x, y)` of the engine's current position:
/// exactly the named position reading, converted.
pub(crate) fn engine_piece_at(g: &chess::Game, x: u8, y: u8) -> (r: Option<(Piece, Player)>)
    requires
        x < 8,
        y < 8,
    ensures
        r == spec_proto_to_logic(game_position(*g)[x as int][y as int]),
{
    match (engine_kind_at(g, x, y), engine_color_at(g, x, y)) {
        (Some(kind), Some(player)) => Some((kind, player)),
        _ => None,
    }
}

/// A complete snapshot of the engine's current position as a wire board:
/// all 64 cells, read one by one, each equal to the engine's named
/// reading for that cell.
pub(crate) fn build_snapshot(g: &chess::Game) -> (b: crate::protocol::Board)
    ensures
        b.wf(),
        matches_position(b@, *g),
{
    let mut b = crate::protocol::Board::empty();
    for x in 0..8u8
        invariant
            b.wf(),
            forall|i: int, j: int|
                0 <= i < x && 0 <= j < 8 ==> #[trigger] b@[i][j] == game_position(*g)[i][j],
    {
        for y in 0..8u8
            invariant
                b.wf(),
                x < 8,
                forall|i: int, j: int|
                    0 <= i < x && 0 <= j < 8 ==> #[trigger] b@[i][j] == game_position(*g)[i][j],
                forall|j: int|
                    0 <= j < y ==> #[trigger] b@[x as int][j] == game_position(*g)[x as int][j],
        {
            let ghost cell = game_position(*g)[x as int][y as int];
            match engine_piece_at(g, x, y) {
                Some((kind, player)) => {
                    proof {
                        crate::protocol::lemma_converter_round_trip_wire(cell);
                    }
                    b.set(x, y, logic_to_proto(kind, player));
                },
                None => {
                    proof {
                        crate::protocol::lemma_converter_round_trip_wire(cell);
                    }
                    b.set(x, y, WirePiece::Empty);
                },
            }
        }
    }
    b
}

} // verus!
