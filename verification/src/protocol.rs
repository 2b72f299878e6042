//! The wire data model: everything that can appear inside a protocol
//! message, and the pure converters between the wire piece representation
//! and the (kind, color) pairs the rest of the core works with.

use vstd::prelude::*;
use crate::logic::{Piece, Player};

verus! {

/// One board cell as it travels over the wire: either empty or one of the
/// twelve colored piece kinds.
#[derive(Clone, Copy, PartialEq, Eq, Structural, Debug)]
pub enum WirePiece {
    Empty,
    WhitePawn,
    WhiteRook,
    WhiteKnight,
    WhiteBishop,
    WhiteQueen,
    WhiteKing,
    BlackPawn,
    BlackRook,
    BlackKnight,
    BlackBishop,
    BlackQueen,
    BlackKing,
}

/// Whether the match is ongoing or decided, and for whom.  `Draw` and
/// `Indeterminate` can arrive over the wire but are never produced by this
/// core.
#[derive(Clone, Copy, PartialEq, Eq, Structural, Debug)]
pub enum Joever {
    Ongoing,
    White,
    Black,
    Draw,
    Indeterminate,
}

/// A move: source square, destination square and an (unsupported)
/// promotion piece, which this core always sends as `WirePiece::Empty`.
///
/// Coordinates follow the board convention: `x` is the rank index
/// (0 maps to rank 1) and `y` is the file index (0 maps to file A).
#[derive(Clone, Copy, PartialEq, Eq, Structural, Debug)]
pub struct Move {
    pub start_x: u8,
    pub start_y: u8,
    pub end_x: u8,
    pub end_y: u8,
    pub promotion: WirePiece,
}

impl Move {
    /// All four coordinates lie on the board.
    pub open spec fn wf(self) -> bool {
        self.start_x < 8 && self.start_y < 8 && self.end_x < 8 && self.end_y < 8
    }
}

/// A complete snapshot of the 8x8 board, indexed `[x][y]` with `x` the
/// rank index and `y` the file index.  Every message that carries a board
/// carries all 64 cells; a board is never a diff.
#[derive(Debug)]
pub struct Board {
    pub rows: Vec<Vec<WirePiece>>,
}

/// A complete 8x8 grid, stated over the mathematical view of a board.
pub open spec fn board_wf(b: Seq<Seq<WirePiece>>) -> bool {
    b.len() == 8 && forall|i: int| 0 <= i < 8 ==> (#[trigger] b[i]).len() == 8
}

impl Board {
    /// The mathematical view: a sequence of 8 rows of 8 cells.
    pub open spec fn view(self) -> Seq<Seq<WirePiece>> {
        self.rows@.map_values(|r: Vec<WirePiece>| r@)
    }

    /// The board is a complete 8x8 grid.
    pub open spec fn wf(self) -> bool {
        board_wf(self@)
    }

    /// An all-empty board.
    pub fn empty() -> (b: Board)
        ensures
            b.wf(),
            forall|i: int, j: int| 0 <= i < 8 && 0 <= j < 8 ==> b@[i][j] == WirePiece::Empty,
    {
        let mut rows: Vec<Vec<WirePiece>> = Vec::new();
        for i in 0..8usize
            invariant
                rows@.len() == i,
                forall|k: int| 0 <= k < i ==> (#[trigger] rows@[k])@.len() == 8,
                forall|k: int, j: int|
                    0 <= k < i && 0 <= j < 8 ==> rows@[k]@[j] == WirePiece::Empty,
        {
            let mut row: Vec<WirePiece> = Vec::new();
            for j in 0..8usize
                invariant
                    row@.len() == j,
                    forall|l: int| 0 <= l < j ==> row@[l] == WirePiece::Empty,
            {
                row.push(WirePiece::Empty);
            }
            rows.push(row);
        }
        let b = Board { rows };
        assert(forall|i: int| 0 <= i < 8 ==> (#[trigger] b@[i]).len() == 8);
        b
    }

    /// The cell at `(x, y)`.
    pub fn get(&self, x: u8, y: u8) -> (r: WirePiece)
        requires
            self.wf(),
            x < 8,
            y < 8,
        ensures
            r == self@[x as int][y as int],
    {
        self.rows[x as usize][y as usize]
    }

    /// Replaces the cell at `(x, y)`.
    pub fn set(&mut self, x: u8, y: u8, p: WirePiece)
        requires
            old(self).wf(),
            x < 8,
            y < 8,
        ensures
            final(self).wf(),
            final(self)@ == old(self)@.update(
                x as int,
                old(self)@[x as int].update(y as int, p),
            ),
    {
        assert(self.rows@.len() == 8);
        assert(self@[x as int] == self.rows@[x as int]@);
        assert(self.rows@[x as int]@.len() == 8);
        let row: &mut Vec<WirePiece> = &mut self.rows[x as usize];
        row.set(y as usize, p);
        assert(final(self)@ =~~= old(self)@.update(
            x as int,
            old(self)@[x as int].update(y as int, p),
        ));
    }

    /// A copy of the board with the same 64 cells.
    pub fn duplicate(&self) -> (r: Board)
        requires
            self.wf(),
        ensures
            r.wf(),
            r@ == self@,
    {
        let mut rows: Vec<Vec<WirePiece>> = Vec::new();
        for i in 0..8usize
            invariant
                self.wf(),
                rows@.len() == i,
                forall|k: int| 0 <= k < i ==> (#[trigger] rows@[k])@ == self@[k],
        {
            let mut row: Vec<WirePiece> = Vec::new();
            for j in 0..8usize
                invariant
                    self.wf(),
                    i < 8,
                    row@.len() == j,
                    j <= 8,
                    forall|l: int| 0 <= l < j ==> row@[l] == self@[i as int][l],
            {
                row.push(self.get(i as u8, j as u8));
            }
            assert(row@ =~= self@[i as int]);
            rows.push(row);
        }
        let b = Board { rows };
        assert(b@ =~~= self@);
        b
    }
}

impl PartialEq for Board {
    /// Two boards are equal when all 64 cells agree.
    fn eq(&self, other: &Board) -> (r: bool) {
        if self.rows.len() != other.rows.len() {
            assert(self@.len() != other@.len());
            return false;
        }
        let n = self.rows.len();
        for i in 0..n
            invariant
                n == self.rows@.len() == other.rows@.len(),
                forall|k: int| 0 <= k < i ==> (#[trigger] self@[k]) == other@[k],
        {
            let a: &Vec<WirePiece> = &self.rows[i];
            let c: &Vec<WirePiece> = &other.rows[i];
            if a.len() != c.len() {
                assert(self@[i as int].len() != other@[i as int].len());
                return false;
            }
            let m = a.len();
            for j in 0..m
                invariant
                    i < n,
                    n == self.rows@.len() == other.rows@.len(),
                    m == a@.len() == c@.len(),
                    a == self.rows@[i as int],
                    c == other.rows@[i as int],
                    forall|l: int| 0 <= l < j ==> a@[l] == c@[l],
            {
                if a[j] != c[j] {
                    assert(self@[i as int][j as int] != other@[i as int][j as int]);
                    return false;
                }
            }
            assert(self@[i as int] =~= other@[i as int]);
        }
        proof {
            assert(self@ =~~= other@);
        }
        true
    }
}

impl Eq for Board {}

impl vstd::std_specs::cmp::PartialEqSpecImpl for Board {
    open spec fn obeys_eq_spec() -> bool {
        true
    }

    open spec fn eq_spec(&self, other: &Board) -> bool {
        self@ == other@
    }
}

/// Converts a wire cell to the (kind, color) pair it stands for, or
/// nothing for an empty cell.
pub open spec fn spec_proto_to_logic(p: WirePiece) -> Option<(Piece, Player)> {
    match p {
        WirePiece::Empty => Option::None,
        WirePiece::WhitePawn => Some((Piece::Pawn, Player::White)),
        WirePiece::WhiteRook => Some((Piece::Rook, Player::White)),
        WirePiece::WhiteKnight => Some((Piece::Knight, Player::White)),
        WirePiece::WhiteBishop => Some((Piece::Bishop, Player::White)),
        WirePiece::WhiteQueen => Some((Piece::Queen, Player::White)),
        WirePiece::WhiteKing => Some((Piece::King, Player::White)),
        WirePiece::BlackPawn => Some((Piece::Pawn, Player::Black)),
        WirePiece::BlackRook => Some((Piece::Rook, Player::Black)),
        WirePiece::BlackKnight => Some((Piece::Knight, Player::Black)),
        WirePiece::BlackBishop => Some((Piece::Bishop, Player::Black)),
        WirePiece::BlackQueen => Some((Piece::Queen, Player::Black)),
        WirePiece::BlackKing => Some((Piece::King, Player::Black)),
    }
}

/// Converts a wire cell to the (kind, color) pair it stands for.
pub fn proto_to_logic(p: WirePiece) -> (r: Option<(Piece, Player)>)
    ensures
        r == spec_proto_to_logic(p),
{
    match p {
        WirePiece::Empty => Option::None,
        WirePiece::WhitePawn => Some((Piece::Pawn, Player::White)),
        WirePiece::WhiteRook => Some((Piece::Rook, Player::White)),
        WirePiece::WhiteKnight => Some((Piece::Knight, Player::White)),
        WirePiece::WhiteBishop => Some((Piece::Bishop, Player::White)),
        WirePiece::WhiteQueen => Some((Piece::Queen, Player::White)),
        WirePiece::WhiteKing => Some((Piece::King, Player::White)),
        WirePiece::BlackPawn => Some((Piece::Pawn, Player::Black)),
        WirePiece::BlackRook => Some((Piece::Rook, Player::Black)),
        WirePiece::BlackKnight => Some((Piece::Knight, Player::Black)),
        WirePiece::BlackBishop => Some((Piece::Bishop, Player::Black)),
        WirePiece::BlackQueen => Some((Piece::Queen, Player::Black)),
        WirePiece::BlackKing => Some((Piece::King, Player::Black)),
    }
}

/// Converts a (kind, color) pair to its wire representation.
pub open spec fn spec_logic_to_proto(piece: Piece, player: Player) -> WirePiece {
    match (piece, player) {
        (Piece::Pawn, Player::White) => WirePiece::WhitePawn,
        (Piece::Rook, Player::White) => WirePiece::WhiteRook,
        (Piece::Knight, Player::White) => WirePiece::WhiteKnight,
        (Piece::Bishop, Player::White) => WirePiece::WhiteBishop,
        (Piece::Queen, Player::White) => WirePiece::WhiteQueen,
        (Piece::King, Player::White) => WirePiece::WhiteKing,
        (Piece::Pawn, Player::Black) => WirePiece::BlackPawn,
        (Piece::Rook, Player::Black) => WirePiece::BlackRook,
        (Piece::Knight, Player::Black) => WirePiece::BlackKnight,
        (Piece::Bishop, Player::Black) => WirePiece::BlackBishop,
        (Piece::Queen, Player::Black) => WirePiece::BlackQueen,
        (Piece::King, Player::Black) => WirePiece::BlackKing,
    }
}

/// Converts a (kind, color) pair to its wire representation.
pub fn logic_to_proto(piece: Piece, player: Player) -> (r: WirePiece)
    ensures
        r == spec_logic_to_proto(piece, player),
{
    match (piece, player) {
        (Piece::Pawn, Player::White) => WirePiece::WhitePawn,
        (Piece::Rook, Player::White) => WirePiece::WhiteRook,
        (Piece::Knight, Player::White) => WirePiece::WhiteKnight,
        (Piece::Bishop, Player::White) => WirePiece::WhiteBishop,
        (Piece::Queen, Player::White) => WirePiece::WhiteQueen,
        (Piece::King, Player::White) => WirePiece::WhiteKing,
        (Piece::Pawn, Player::Black) => WirePiece::BlackPawn,
        (Piece::Rook, Player::Black) => WirePiece::BlackRook,
        (Piece::Knight, Player::Black) => WirePiece::BlackKnight,
        (Piece::Bishop, Player::Black) => WirePiece::BlackBishop,
        (Piece::Queen, Player::Black) => WirePiece::BlackQueen,
        (Piece::King, Player::Black) => WirePiece::BlackKing,
    }
}

/// The two converters invert each other: a (kind, color) pair survives a
/// trip through the wire representation.
pub proof fn lemma_converter_round_trip(piece: Piece, player: Player)
    ensures
        spec_proto_to_logic(spec_logic_to_proto(piece, player)) == Some((piece, player)),
{
}

/// An occupied wire cell survives a trip through the (kind, color)
/// representation, and an empty cell converts to nothing.
pub proof fn lemma_converter_round_trip_wire(p: WirePiece)
    ensures
        match spec_proto_to_logic(p) {
            Some((piece, player)) => spec_logic_to_proto(piece, player) == p,
            Option::None => p == WirePiece::Empty,
        },
{
}

/// A message from the connecting peer to the accepting peer: the one move
/// variant the core supports.
#[derive(Clone, Copy, PartialEq, Eq, Structural, Debug)]
pub enum ClientToServer {
    Move(Move),
}

impl ClientToServer {
    /// The carried move lies on the board.
    pub open spec fn wf(self) -> bool {
        match self {
            ClientToServer::Move(m) => m.wf(),
        }
    }
}

impl View for ClientToServer {
    type V = ClientToServer;

    /// This message carries only plain values; it is its own mathematical
    /// view.
    open spec fn view(&self) -> ClientToServer {
        *self
    }
}

/// A message from the accepting peer to the connecting peer: either the
/// authoritative state after a move, or the rejection of one.
#[derive(PartialEq, Eq, Debug)]
pub enum ServerToClient {
    /// The board after the move that was just applied, and the outcome.
    State { board: Board, joever: Joever, move_made: Move },
    /// The (unchanged) board and a human-readable reason.
    Error { board: Board, message: String },
}

/// The mathematical view of a server-to-client message: the board as a
/// sequence of rows and the message text as a sequence of characters.
pub enum StcAbs {
    State { board: Seq<Seq<WirePiece>>, joever: Joever, move_made: Move },
    Error { board: Seq<Seq<WirePiece>>, message: Seq<char> },
}

impl StcAbs {
    /// Boards are complete grids and moves lie on the board.
    pub open spec fn wf(self) -> bool {
        match self {
            StcAbs::State { board, joever, move_made } => board_wf(board) && move_made.wf(),
            StcAbs::Error { board, message } => board_wf(board),
        }
    }
}

impl ServerToClient {
    /// Boards are complete grids and moves lie on the board.
    pub open spec fn wf(self) -> bool {
        self@.wf()
    }
}

impl View for ServerToClient {
    type V = StcAbs;

    open spec fn view(&self) -> StcAbs {
        match self {
            ServerToClient::State { board, joever, move_made } => StcAbs::State {
                board: board@,
                joever: *joever,
                move_made: *move_made,
            },
            ServerToClient::Error { board, message } => StcAbs::Error {
                board: board@,
                message: message@,
            },
        }
    }
}

/// The handshake sent by the connecting peer: the color the accepting
/// peer is asked to play.
#[derive(Clone, Copy, PartialEq, Eq, Structural, Debug)]
pub struct ClientToServerHandshake {
    pub server_color: Player,
}

impl ClientToServerHandshake {
    pub open spec fn wf(self) -> bool {
        true
    }
}

impl View for ClientToServerHandshake {
    type V = ClientToServerHandshake;

    /// This message carries only plain values; it is its own mathematical
    /// view.
    open spec fn view(&self) -> ClientToServerHandshake {
        *self
    }
}

/// The handshake reply sent by the accepting peer: the initial board, the
/// (empty, unused) list of legal moves and the outcome, always ongoing.
#[derive(PartialEq, Eq, Debug)]
pub struct ServerToClientHandshake {
    pub board: Board,
    pub moves: Vec<Move>,
    pub joever: Joever,
}

/// The mathematical view of the accepting peer's handshake.
pub struct StchAbs {
    pub board: Seq<Seq<WirePiece>>,
    pub moves: Seq<Move>,
    pub joever: Joever,
}

impl StchAbs {
    /// The board is a complete grid and every listed move lies on it.
    pub open spec fn wf(self) -> bool {
        board_wf(self.board) && forall|i: int|
            0 <= i < self.moves.len() ==> (#[trigger] self.moves[i]).wf()
    }
}

impl ServerToClientHandshake {
    /// The board is a complete grid and every listed move lies on it.
    pub open spec fn wf(self) -> bool {
        self@.wf()
    }
}

impl View for ServerToClientHandshake {
    type V = StchAbs;

    open spec fn view(&self) -> StchAbs {
        StchAbs { board: self.board@, moves: self.moves@, joever: self.joever }
    }
}

} // verus!
