//! Core data model shared by both peer roles: colors, piece kinds, the
//! per-peer turn state, and the contract every peer controller satisfies.

use vstd::prelude::*;
use crate::protocol::{spec_proto_to_logic, WirePiece};

verus! {

/// The two sides of a match.  Exactly one peer is assigned each color per
/// session.
#[derive(Clone, Copy, PartialEq, Eq, Structural, Debug)]
pub enum Player {
    White,
    Black,
}

impl Player {
    /// The opposite color.
    pub open spec fn spec_other(self) -> Player {
        match self {
            Player::White => Player::Black,
            Player::Black => Player::White,
        }
    }

    /// Returns the opposite color.
    pub fn other(&self) -> (r: Player)
        ensures
            r == self.spec_other(),
    {
        match *self {
            Player::White => Player::Black,
            Player::Black => Player::White,
        }
    }
}

/// The kinds of piece that can stand on a board cell.
#[derive(Clone, Copy, PartialEq, Eq, Structural, Debug)]
pub enum Piece {
    Pawn,
    Rook,
    Knight,
    Bishop,
    Queen,
    King,
}

/// The turn state of one peer.  Local only: it is never sent over the wire.
#[derive(Clone, Copy, PartialEq, Eq, Debug)]
pub enum State {
    /// Waiting for the other peer's move.
    OpponentTurn,
    /// A move was submitted; waiting for the authoritative reply
    /// (client role only).
    ResponsePending,
    /// This peer may pick one of its own pieces.
    SelectPiece,
    /// A piece is tentatively chosen; the peer may pick a destination
    /// or re-pick.
    SelectMove { from: (u8, u8) },
    /// A pawn reached the last rank and a replacement piece would have to
    /// be chosen.  Promotion is out of scope for this core, so this state
    /// is never entered.
    SelectPromotion { at: (u8, u8) },
    /// Terminal: the match is decided and the winner recorded.
    CheckMate(Player),
}

/// The turn state a peer starts in: White moves first, so the peer
/// playing White may select a piece and the peer playing Black waits.
pub open spec fn spec_initial_state(player: Player) -> State {
    match player {
        Player::White => State::SelectPiece,
        Player::Black => State::OpponentTurn,
    }
}

/// The cell at `at` holds a piece of the given color.
pub open spec fn own_piece_at(board: Seq<Seq<WirePiece>>, player: Player, at: (u8, u8)) -> bool {
    at.0 < 8 && at.1 < 8 && match spec_proto_to_logic(board[at.0 as int][at.1 as int]) {
        Some(pp) => pp.1 == player,
        None => false,
    }
}

/// The selection rule, shared by both peer roles: while a piece may be
/// picked, picking a cell that holds a piece of this peer's own color
/// tentatively selects it; anything else changes nothing.
pub open spec fn spec_select(
    state: State,
    player: Player,
    board: Seq<Seq<WirePiece>>,
    at: (u8, u8),
) -> State {
    match state {
        State::SelectPiece => if own_piece_at(board, player, at) {
            State::SelectMove { from: at }
        } else {
            state
        },
        _ => state,
    }
}

/// The contract shared by the two peer controllers.  Each controller
/// defines the mathematical view of what it owns — its board, its
/// assigned color, its turn state — and the exact transition relations of
/// its mutating operations; the methods then promise those relations.
pub trait Interface: Sized {
    /// The board this peer currently believes in.
    spec fn board_spec(&self) -> Seq<Seq<WirePiece>>;

    /// The color assigned to this peer for the whole session.
    spec fn player_spec(&self) -> Player;

    /// The current turn state.
    spec fn state_spec(&self) -> State;

    /// The controller's internal invariant: the board is a complete grid
    /// and a tentatively selected square holds an own-colored piece.
    spec fn wf(&self) -> bool;

    /// The exact effect of `select_piece`.
    spec fn select_ens(&self, post: Self, at: (u8, u8)) -> bool;

    /// The exact effect of `play_move`.
    spec fn play_ens(&self, post: Self, dst: (u8, u8)) -> bool;

    /// The exact effect of `update`.
    spec fn update_ens(&self, post: Self) -> bool;

    /// The current turn state, for the rendering collaborator.
    fn get_state(&self) -> (s: State)
        ensures
            s == self.state_spec(),
    ;

    /// What stands on the cell at `(x, y)`, for the rendering
    /// collaborator.
    fn get_piece_at(&self, x: u8, y: u8) -> (r: Option<(Piece, Player)>)
        requires
            self.wf(),
            x < 8,
            y < 8,
        ensures
            r == spec_proto_to_logic(self.board_spec()[x as int][y as int]),
    ;

    /// Applies the selection rule to a user "select square" intent.
    fn select_piece(&mut self, at: (u8, u8))
        requires
            old(self).wf(),
            at.0 < 8,
            at.1 < 8,
        ensures
            final(self).wf(),
            old(self).select_ens(*final(self), at),
    ;

    /// Submits the tentatively selected piece to `dst`, if one is
    /// selected; ignored otherwise.
    fn play_move(&mut self, dst: (u8, u8))
        requires
            old(self).wf(),
            dst.0 < 8,
            dst.1 < 8,
        ensures
            final(self).wf(),
            old(self).play_ens(*final(self), dst),
    ;

    /// One non-blocking control-loop tick: handles at most one inbound
    /// message.
    fn update(&mut self)
        requires
            old(self).wf(),
        ensures
            final(self).wf(),
            old(self).update_ens(*final(self)),
    ;
}

} // verus!
