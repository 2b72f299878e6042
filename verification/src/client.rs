//! The client-role peer controller: the turn state machine of the
//! connecting peer.  It owns this peer's view of the board, submits moves
//! to the transport's outbound queue and applies the authoritative
//! replies arriving on the inbound queue.

use vstd::prelude::*;
use crate::logic::{
    own_piece_at, spec_initial_state, spec_select, Interface, Piece, Player, State,
};
use crate::protocol::{
    spec_proto_to_logic, proto_to_logic, Board, ClientToServer, Joever, Move, ServerToClient,
    StcAbs, WirePiece,
};
use crate::transport::Fifo;

verus! {

/// The outcome value that names a winner.
pub open spec fn joever_of_winner(w: Player) -> Joever {
    match w {
        Player::White => Joever::White,
        Player::Black => Joever::Black,
    }
}

/// What one authoritative reply does to a client's turn state and board.
///
/// A `State` reply replaces the board and moves the state machine on: to
/// the opponent's turn after this peer's own confirmed move, to piece
/// selection after the opponent's move, or to the terminal state when a
/// winner is named.  An `Error` reply answers a rejected move: the board
/// (unchanged by the server) is replaced and the selection starts over.
/// A reply that is not expected in the current state, or an outcome this
/// core does not produce, changes nothing: a protocol violation is
/// ignored, never fatal.
pub open spec fn client_apply(state: State, board: Seq<Seq<WirePiece>>, msg: StcAbs) -> (
    State,
    Seq<Seq<WirePiece>>,
) {
    match state {
        State::ResponsePending => match msg {
            StcAbs::State { board: nb, joever, move_made } => match joever {
                Joever::Ongoing => (State::OpponentTurn, nb),
                Joever::White => (State::CheckMate(Player::White), nb),
                Joever::Black => (State::CheckMate(Player::Black), nb),
                _ => (state, board),
            },
            StcAbs::Error { board: nb, message } => (State::SelectPiece, nb),
        },
        State::OpponentTurn => match msg {
            StcAbs::State { board: nb, joever, move_made } => match joever {
                Joever::Ongoing => (State::SelectPiece, nb),
                Joever::White => (State::CheckMate(Player::White), nb),
                Joever::Black => (State::CheckMate(Player::Black), nb),
                _ => (state, board),
            },
            StcAbs::Error { board: nb, message } => (state, board),
        },
        _ => (state, board),
    }
}

/// A client awaiting the opponent or a reply that is told `WonBy(w)`
/// reaches the terminal state with exactly that winner: the outcome is
/// reported to the losing side with the other color as winner, and both
/// peers record the same color.
pub proof fn lemma_winner_agreement(
    state: State,
    board: Seq<Seq<WirePiece>>,
    reply: StcAbs,
    w: Player,
)
    requires
        state == State::ResponsePending || state == State::OpponentTurn,
        reply matches StcAbs::State { board: b, joever: j, move_made: m } && j
            == joever_of_winner(w),
    ensures
        client_apply(state, board, reply).0 == State::CheckMate(w),
{
}

/// Selecting an own-colored occupied cell and then a destination always
/// submits exactly one move: from `SelectPiece`, `select_piece(from)` on
/// a cell holding this peer's piece reaches `SelectMove {from}`, and a
/// further `play_move(to)` enqueues exactly one outbound
/// `Move {from, to}` and awaits the reply — whatever `from` and `to` are,
/// as long as they lie on the board.
pub proof fn lemma_select_then_submit(
    c0: Client,
    c1: Client,
    c2: Client,
    from: (u8, u8),
    to: (u8, u8),
)
    requires
        c0.state_spec() == State::SelectPiece,
        own_piece_at(c0.board_spec(), c0.player_spec(), from),
        c0.select_ens(c1, from),
        c1.play_ens(c2, to),
    ensures
        c1.state_spec() == (State::SelectMove { from }),
        c2.state_spec() == State::ResponsePending,
        c2.outbox_spec() == c0.outbox_spec().push(
            ClientToServer::Move(
                Move {
                    start_x: from.0,
                    start_y: from.1,
                    end_x: to.0,
                    end_y: to.1,
                    promotion: WirePiece::Empty,
                },
            ),
        ),
        c2.outbox_spec().len() == c0.outbox_spec().len() + 1,
{
}

/// The connecting peer's controller.
pub struct Client {
    player: Player,
    board: Board,
    state: State,
    inbox: Fifo<ServerToClient>,
    outbox: Fifo<ClientToServer>,
}

impl Client {
    /// The messages received and not yet handled, oldest first.
    pub closed spec fn inbox_spec(&self) -> Seq<ServerToClient> {
        self.inbox@
    }

    /// The messages submitted and not yet taken by the transport writer,
    /// oldest first.
    pub closed spec fn outbox_spec(&self) -> Seq<ClientToServer> {
        self.outbox@
    }

    /// A fresh client controller for the peer playing `player`, on the
    /// board the handshake delivered.  White starts selecting, Black
    /// starts waiting; both queues start empty.
    pub fn new(player: Player, board: Board) -> (c: Client)
        requires
            board.wf(),
        ensures
            c.wf(),
            c.player_spec() == player,
            c.board_spec() == board@,
            c.state_spec() == spec_initial_state(player),
            c.inbox_spec() == Seq::<ServerToClient>::empty(),
            c.outbox_spec() == Seq::<ClientToServer>::empty(),
    {
        Client {
            player,
            board,
            state: crate::handshake::initial_state(player),
            inbox: Fifo::new(),
            outbox: Fifo::new(),
        }
    }

    /// Hands the controller one message read from the stream.  Boards on
    /// the wire are always complete snapshots, which decoding guarantees.
    pub fn push_inbound(&mut self, msg: ServerToClient)
        requires
            old(self).wf(),
            msg.wf(),
        ensures
            final(self).wf(),
            final(self).inbox_spec() == old(self).inbox_spec().push(msg),
            final(self).outbox_spec() == old(self).outbox_spec(),
            final(self).state_spec() == old(self).state_spec(),
            final(self).board_spec() == old(self).board_spec(),
            final(self).player_spec() == old(self).player_spec(),
    {
        self.inbox.push(msg);
    }

    /// Takes the oldest submitted message, for the transport writer.
    pub fn pop_outbound(&mut self) -> (r: Option<ClientToServer>)
        requires
            old(self).wf(),
        ensures
            final(self).wf(),
            old(self).outbox_spec().len() == 0 ==> r is None && final(self).outbox_spec()
                == old(self).outbox_spec(),
            old(self).outbox_spec().len() > 0 ==> r == Some(old(self).outbox_spec()[0])
                && final(self).outbox_spec() == old(self).outbox_spec().drop_first(),
            final(self).inbox_spec() == old(self).inbox_spec(),
            final(self).state_spec() == old(self).state_spec(),
            final(self).board_spec() == old(self).board_spec(),
            final(self).player_spec() == old(self).player_spec(),
    {
        self.outbox.pop()
    }
}

impl Interface for Client {
    closed spec fn board_spec(&self) -> Seq<Seq<WirePiece>> {
        self.board@
    }

    closed spec fn player_spec(&self) -> Player {
        self.player
    }

    closed spec fn state_spec(&self) -> State {
        self.state
    }

    /// The board is complete, a tentative selection stands on an
    /// own-colored piece, and every queued inbound board is complete.
    closed spec fn wf(&self) -> bool {
        &&& self.board.wf()
        &&& match self.state {
            State::SelectMove { from } => own_piece_at(self.board@, self.player, from),
            State::SelectPromotion { at } => at.0 < 8 && at.1 < 8,
            _ => true,
        }
        &&& forall|i: int| 0 <= i < self.inbox@.len() ==> (#[trigger] self.inbox@[i]).wf()
    }

    /// Selecting applies the shared selection rule and touches nothing
    /// else: board, color and both queues stay as they were.
    open spec fn select_ens(&self, post: Client, at: (u8, u8)) -> bool {
        &&& post.state_spec() == spec_select(self.state_spec(), self.player_spec(), self.board_spec(), at)
        &&& post.board_spec() == self.board_spec()
        &&& post.player_spec() == self.player_spec()
        &&& post.inbox_spec() == self.inbox_spec()
        &&& post.outbox_spec() == self.outbox_spec()
    }

    /// Submitting from `SelectMove {from}` enqueues exactly one outbound
    /// `Move {from, dst}` with an empty promotion and awaits the reply;
    /// in any other state nothing happens at all.
    open spec fn play_ens(&self, post: Client, dst: (u8, u8)) -> bool {
        match self.state_spec() {
            State::SelectMove { from } => {
                &&& post.outbox_spec() == self.outbox_spec().push(
                    ClientToServer::Move(
                        Move {
                            start_x: from.0,
                            start_y: from.1,
                            end_x: dst.0,
                            end_y: dst.1,
                            promotion: WirePiece::Empty,
                        },
                    ),
                )
                &&& post.state_spec() == State::ResponsePending
                &&& post.board_spec() == self.board_spec()
                &&& post.player_spec() == self.player_spec()
                &&& post.inbox_spec() == self.inbox_spec()
            },
            _ => post == *self,
        }
    }

    /// One tick: while awaiting the opponent or a reply, the oldest
    /// inbound message (if any) is consumed and `client_apply` says
    /// exactly what it does; in any other state, or with nothing queued,
    /// nothing changes.  `update` never sends.
    open spec fn update_ens(&self, post: Client) -> bool {
        &&& post.player_spec() == self.player_spec()
        &&& post.outbox_spec() == self.outbox_spec()
        &&& if (self.state_spec() == State::ResponsePending || self.state_spec()
            == State::OpponentTurn) && self.inbox_spec().len() > 0 {
            &&& post.inbox_spec() == self.inbox_spec().drop_first()
            &&& (post.state_spec(), post.board_spec()) == client_apply(
                self.state_spec(),
                self.board_spec(),
                self.inbox_spec()[0]@,
            )
        } else {
            &&& post.inbox_spec() == self.inbox_spec()
            &&& post.state_spec() == self.state_spec()
            &&& post.board_spec() == self.board_spec()
        }
    }

    fn get_state(&self) -> State {
        self.state
    }

    fn get_piece_at(&self, x: u8, y: u8) -> Option<(Piece, Player)> {
        proto_to_logic(self.board.get(x, y))
    }

    fn select_piece(&mut self, at: (u8, u8)) {
        if !matches!(self.state, State::SelectPiece) {
            return ;
        }
        let cell = self.board.get(at.0, at.1);
        let piece = match proto_to_logic(cell) {
            Some(p) => p,
            None => {
                return ;
            },
        };
        if piece.1 != self.player {
            return ;
        }
        self.state = State::SelectMove { from: at };
    }

    fn play_move(&mut self, dst: (u8, u8)) {
        let from = match self.state {
            State::SelectMove { from } => from,
            _ => {
                return ;
            },
        };
        let m = Move {
            start_x: from.0,
            start_y: from.1,
            end_x: dst.0,
            end_y: dst.1,
            promotion: WirePiece::Empty,
        };
        self.outbox.push(ClientToServer::Move(m));
        self.state = State::ResponsePending;
    }

    fn update(&mut self) {
        match self.state {
            State::ResponsePending => {
                let msg = match self.inbox.pop() {
                    Some(m) => m,
                    None => {
                        return ;
                    },
                };
                match msg {
                    ServerToClient::State { board, joever, move_made } => match joever {
                        Joever::Ongoing => {
                            self.board = board;
                            self.state = State::OpponentTurn;
                        },
                        Joever::White => {
                            self.board = board;
                            self.state = State::CheckMate(Player::White);
                        },
                        Joever::Black => {
                            self.board = board;
                            self.state = State::CheckMate(Player::Black);
                        },
                        _ => {
                            // An outcome this core does not produce:
                            // ignored as a protocol violation.
                        },
                    },
                    ServerToClient::Error { board, message } => {
                        // The submitted move was rejected: the board is
                        // unchanged, the selection starts over.
                        self.board = board;
                        self.state = State::SelectPiece;
                    },
                }
            },
            State::OpponentTurn => {
                let msg = match self.inbox.pop() {
                    Some(m) => m,
                    None => {
                        return ;
                    },
                };
                match msg {
                    ServerToClient::State { board, joever, move_made } => match joever {
                        Joever::Ongoing => {
                            self.board = board;
                            self.state = State::SelectPiece;
                        },
                        Joever::White => {
                            self.board = board;
                            self.state = State::CheckMate(Player::White);
                        },
                        Joever::Black => {
                            self.board = board;
                            self.state = State::CheckMate(Player::Black);
                        },
                        _ => {
                            // An outcome this core does not produce:
                            // ignored as a protocol violation.
                        },
                    },
                    ServerToClient::Error { board, message } => {
                        // An error is only legal while a reply is
                        // pending: ignored as a protocol violation.
                    },
                }
            },
            _ => {
                // Ticks in other states are handled by the selection and
                // submission paths.
            },
        }
    }
}

} // verus!
