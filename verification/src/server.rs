//! The server-role peer controller: the turn state machine of the
//! accepting peer, which holds the authoritative rules-engine instance.
//! It applies the opponent's inbound moves to the engine, answers with
//! the authoritative board, resolves its own moves locally, and keeps a
//! complete snapshot of the engine's position as its board.

use vstd::prelude::*;
use vstd::string::StringExecFns;
use crate::client::joever_of_winner;
use crate::engine::{
    build_snapshot, engine_is_checkmate, engine_make_move, engine_new, mate_verdict,
    matches_position, move_verdict,
};
use crate::logic::{
    own_piece_at, spec_initial_state, spec_select, Interface, Piece, Player, State,
};
use crate::protocol::{
    proto_to_logic, spec_proto_to_logic, Board, ClientToServer, Joever, Move, ServerToClient,
    ServerToClientHandshake, StcAbs, WirePiece,
};
use crate::text::{digit_char_exec, push_char};
use crate::transport::Fifo;
use crate::codec::digit_char;

verus! {

/// The letter naming a file, `A` through `H`.
pub open spec fn spec_file_letter(y: int) -> char {
    if y == 0 { 'A' } else if y == 1 { 'B' } else if y == 2 { 'C' } else if y == 3 { 'D' }
    else if y == 4 { 'E' } else if y == 5 { 'F' } else if y == 6 { 'G' } else { 'H' }
}

/// The name of the square at rank index `x` and file index `y`, as a
/// rules engine with string coordinate input reads it: the file letter
/// and the one-based rank digit.
pub open spec fn spec_sqstr(x: int, y: int) -> Seq<char> {
    seq![spec_file_letter(y), digit_char(x + 1)]
}

/// Writes the square at rank index `x` and file index `y` in string
/// coordinates: file letter `A`-`H`, then the one-based rank digit.
pub fn sqstr(x: usize, y: usize) -> (r: String)
    requires
        x < 8,
        y < 8,
    ensures
        r@ == spec_sqstr(x as int, y as int),
{
    let a: char = match y {
        0 => 'A',
        1 => 'B',
        2 => 'C',
        3 => 'D',
        4 => 'E',
        5 => 'F',
        6 => 'G',
        _ => 'H',
    };
    let mut r = String::new();
    push_char(&mut r, a);
    push_char(&mut r, digit_char_exec((x + 1) as u8));
    proof {
        assert(r@ =~= spec_sqstr(x as int, y as int));
    }
    r
}

/// The accepting peer's controller, owner of the rules engine.
pub struct Server {
    game: chess::Game,
    board: Board,
    state: State,
    player: Player,
    inbox: Fifo<ClientToServer>,
    outbox: Fifo<ServerToClient>,
}

/// What resolving an inbound move does, for the legality verdict
/// `valid`, the checkmate verdict `mate` and the post-move snapshot `nb`
/// that the engine produced.
///
/// A valid move is answered with a `State` reply carrying the engine's
/// post-move snapshot — which also becomes the server's board — and the
/// outcome: the mover is the opponent, so a checkmate names the server's
/// other color as winner and ends the match; otherwise it is the
/// server's own turn to select.  An invalid move is answered with an
/// `Error` reply carrying the board unchanged from before the move, and
/// the server keeps waiting for the opponent.
pub open spec fn spec_move_outcome(
    pre: Server,
    post: Server,
    mov: Move,
    valid: bool,
    mate: bool,
    nb: Seq<Seq<WirePiece>>,
) -> bool {
    &&& post.player_spec() == pre.player_spec()
    &&& post.inbox_spec() == pre.inbox_spec().drop_first()
    &&& post.outbox_spec().len() == pre.outbox_spec().len() + 1
    &&& post.outbox_spec().drop_last() == pre.outbox_spec()
    &&& if valid {
        let winner = pre.player_spec().spec_other();
        &&& post.board_spec() == nb
        &&& post.state_spec() == (if mate {
            State::CheckMate(winner)
        } else {
            State::SelectPiece
        })
        &&& post.outbox_spec().last()@ == (StcAbs::State {
            board: nb,
            joever: if mate {
                joever_of_winner(winner)
            } else {
                Joever::Ongoing
            },
            move_made: mov,
        })
    } else {
        &&& post.board_spec() == pre.board_spec()
        &&& post.state_spec() == State::OpponentTurn
        &&& post.game_spec() == pre.game_spec()
        &&& post.outbox_spec().last()@ == (StcAbs::Error {
            board: pre.board_spec(),
            message: "illegal move"@,
        })
    }
}

/// What resolving the server's own submitted move does, for the engine's
/// verdicts.  A valid move is announced with a `State` reply — here the
/// mover is the server itself, so a checkmate names the server's own
/// color as winner — and the turn passes to the opponent.  An invalid
/// move sends nothing: the selection simply starts over.
pub open spec fn spec_play_outcome(
    pre: Server,
    post: Server,
    from: (u8, u8),
    dst: (u8, u8),
    valid: bool,
    mate: bool,
    nb: Seq<Seq<WirePiece>>,
) -> bool {
    &&& post.player_spec() == pre.player_spec()
    &&& post.inbox_spec() == pre.inbox_spec()
    &&& if valid {
        let winner = pre.player_spec();
        &&& post.board_spec() == nb
        &&& post.state_spec() == (if mate {
            State::CheckMate(winner)
        } else {
            State::OpponentTurn
        })
        &&& post.outbox_spec().len() == pre.outbox_spec().len() + 1
        &&& post.outbox_spec().drop_last() == pre.outbox_spec()
        &&& post.outbox_spec().last()@ == (StcAbs::State {
            board: nb,
            joever: if mate {
                joever_of_winner(winner)
            } else {
                Joever::Ongoing
            },
            move_made: (Move {
                start_x: from.0,
                start_y: from.1,
                end_x: dst.0,
                end_y: dst.1,
                promotion: WirePiece::Empty,
            }),
        })
    } else {
        &&& post.board_spec() == pre.board_spec()
        &&& post.state_spec() == State::SelectPiece
        &&& post.game_spec() == pre.game_spec()
        &&& post.outbox_spec() == pre.outbox_spec()
    }
}

impl Server {
    /// The messages received and not yet handled, oldest first.
    pub closed spec fn inbox_spec(&self) -> Seq<ClientToServer> {
        self.inbox@
    }

    /// The replies produced and not yet taken by the transport writer,
    /// oldest first.
    pub closed spec fn outbox_spec(&self) -> Seq<ServerToClient> {
        self.outbox@
    }

    /// The rules-engine instance, as a specification-level value.
    pub closed spec fn game_spec(&self) -> chess::Game {
        self.game
    }

    /// A fresh server controller playing `player`: a new engine instance,
    /// the board set to the standard chess starting position — the
    /// position a fresh engine game holds — the turn state that color
    /// starts in, and both queues empty.
    pub fn new(player: Player) -> (s: Server)
        ensures
            s.wf(),
            s.player_spec() == player,
            s.board_spec() == crate::handshake::spec_start_board(),
            s.state_spec() == spec_initial_state(player),
            s.inbox_spec() == Seq::<ClientToServer>::empty(),
            s.outbox_spec() == Seq::<ServerToClient>::empty(),
    {
        let game = engine_new();
        let board = crate::handshake::start_board();
        Server {
            game,
            board,
            state: crate::handshake::initial_state(player),
            player,
            inbox: Fifo::new(),
            outbox: Fifo::new(),
        }
    }

    /// The handshake reply this server sends after accepting: its current
    /// board — on a fresh controller, the standard starting position, by
    /// `new`'s contract — no move list, and an ongoing outcome.
    pub fn handshake_reply(&self) -> (r: ServerToClientHandshake)
        requires
            self.wf(),
        ensures
            r.wf(),
            r.board@ == self.board_spec(),
            r.joever == Joever::Ongoing,
            r.moves@ == Seq::<Move>::empty(),
    {
        crate::handshake::handshake_reply(&self.board)
    }

    /// Hands the controller one message read from the stream.  Moves on
    /// the wire lie on the board, which decoding guarantees.
    pub fn push_inbound(&mut self, msg: ClientToServer)
        requires
            old(self).wf(),
            msg.wf(),
        ensures
            final(self).wf(),
            final(self).inbox_spec() == old(self).inbox_spec().push(msg),
            final(self).outbox_spec() == old(self).outbox_spec(),
            final(self).state_spec() == old(self).state_spec(),
            final(self).board_spec() == old(self).board_spec(),
            final(self).player_spec() == old(self).player_spec(),
    {
        self.inbox.push(msg);
    }

    /// Takes the oldest produced reply, for the transport writer.
    pub fn pop_outbound(&mut self) -> (r: Option<ServerToClient>)
        requires
            old(self).wf(),
        ensures
            final(self).wf(),
            old(self).outbox_spec().len() == 0 ==> r is None && final(self).outbox_spec()
                == old(self).outbox_spec(),
            old(self).outbox_spec().len() > 0 ==> r == Some(old(self).outbox_spec()[0])
                && final(self).outbox_spec() == old(self).outbox_spec().drop_first(),
            final(self).inbox_spec() == old(self).inbox_spec(),
            final(self).state_spec() == old(self).state_spec(),
            final(self).board_spec() == old(self).board_spec(),
            final(self).player_spec() == old(self).player_spec(),
    {
        self.outbox.pop()
    }
}

impl Interface for Server {
    closed spec fn board_spec(&self) -> Seq<Seq<WirePiece>> {
        self.board@
    }

    closed spec fn player_spec(&self) -> Player {
        self.player
    }

    closed spec fn state_spec(&self) -> State {
        self.state
    }

    /// The board snapshot is complete, a tentative selection stands on an
    /// own-colored piece, and every queued inbound move lies on the
    /// board.
    closed spec fn wf(&self) -> bool {
        &&& self.board.wf()
        &&& match self.state {
            State::SelectMove { from } => own_piece_at(self.board@, self.player, from),
            State::SelectPromotion { at } => at.0 < 8 && at.1 < 8,
            _ => true,
        }
        &&& forall|i: int| 0 <= i < self.inbox@.len() ==> (#[trigger] self.inbox@[i]).wf()
    }

    /// Selecting applies the shared selection rule and touches nothing
    /// else: in particular it never writes a message and never mutates
    /// the engine.
    open spec fn select_ens(&self, post: Server, at: (u8, u8)) -> bool {
        &&& post.state_spec() == spec_select(self.state_spec(), self.player_spec(), self.board_spec(), at)
        &&& post.board_spec() == self.board_spec()
        &&& post.player_spec() == self.player_spec()
        &&& post.game_spec() == self.game_spec()
        &&& post.inbox_spec() == self.inbox_spec()
        &&& post.outbox_spec() == self.outbox_spec()
    }

    /// Submitting from `SelectMove {from}` resolves the move locally: the
    /// engine's named verdict on this game and these coordinates decides
    /// the outcome, as `spec_play_outcome` states exactly; on a valid
    /// move the new board agrees cell by cell with the engine's post-move
    /// position.  In any other state nothing happens at all.
    open spec fn play_ens(&self, post: Server, dst: (u8, u8)) -> bool {
        match self.state_spec() {
            State::SelectMove { from } => {
                let valid = move_verdict(self.game_spec(), from.0, from.1, dst.0, dst.1);
                let mate = mate_verdict(post.game_spec());
                &&& spec_play_outcome(*self, post, from, dst, valid, mate, post.board_spec())
                &&& valid ==> matches_position(post.board_spec(), post.game_spec())
            },
            _ => post == *self,
        }
    }

    /// One tick: while waiting for the opponent, the oldest inbound move
    /// (if any) is resolved.  A move carrying a promotion is not
    /// supported and is explicitly rejected with an `Error` reply and an
    /// unchanged board; any other move gets the engine's named verdict
    /// for this game and these coordinates, and `spec_move_outcome`
    /// states exactly what each verdict does — on a valid move the new
    /// board agrees cell by cell with the engine's post-move position.
    /// In any other state, or with nothing queued, the tick is a pure
    /// poll and changes nothing, the engine included.
    open spec fn update_ens(&self, post: Server) -> bool {
        if self.state_spec() == State::OpponentTurn && self.inbox_spec().len() > 0 {
            match self.inbox_spec()[0] {
                ClientToServer::Move(mov) => if mov.promotion != WirePiece::Empty {
                    &&& post.player_spec() == self.player_spec()
                    &&& post.inbox_spec() == self.inbox_spec().drop_first()
                    &&& post.board_spec() == self.board_spec()
                    &&& post.state_spec() == State::OpponentTurn
                    &&& post.game_spec() == self.game_spec()
                    &&& post.outbox_spec().len() == self.outbox_spec().len() + 1
                    &&& post.outbox_spec().drop_last() == self.outbox_spec()
                    &&& post.outbox_spec().last()@ == (StcAbs::Error {
                        board: self.board_spec(),
                        message: "unsupported promotion"@,
                    })
                } else {
                    let valid = move_verdict(
                        self.game_spec(),
                        mov.start_x,
                        mov.start_y,
                        mov.end_x,
                        mov.end_y,
                    );
                    let mate = mate_verdict(post.game_spec());
                    &&& spec_move_outcome(*self, post, mov, valid, mate, post.board_spec())
                    &&& valid ==> matches_position(post.board_spec(), post.game_spec())
                },
            }
        } else {
            &&& post.player_spec() == self.player_spec()
            &&& post.inbox_spec() == self.inbox_spec()
            &&& post.outbox_spec() == self.outbox_spec()
            &&& post.board_spec() == self.board_spec()
            &&& post.state_spec() == self.state_spec()
            &&& post.game_spec() == self.game_spec()
        }
    }

    fn get_state(&self) -> State {
        self.state
    }

    fn get_piece_at(&self, x: u8, y: u8) -> Option<(Piece, Player)> {
        proto_to_logic(self.board.get(x, y))
    }

    fn select_piece(&mut self, at: (u8, u8)) {
        if !matches!(self.state, State::SelectPiece) {
            return ;
        }
        let cell = self.board.get(at.0, at.1);
        let piece = match proto_to_logic(cell) {
            Some(p) => p,
            None => {
                return ;
            },
        };
        if piece.1 != self.player {
            return ;
        }
        self.state = State::SelectMove { from: at };
    }

    fn play_move(&mut self, dst: (u8, u8)) {
        let from = match self.state {
            State::SelectMove { from } => from,
            _ => {
                return ;
            },
        };
        let valid = engine_make_move(&mut self.game, from.0, from.1, dst.0, dst.1);
        if valid {
            let mate = engine_is_checkmate(&self.game);
            let snapshot = build_snapshot(&self.game);
            let reply_board = snapshot.duplicate();
            let joever = if mate {
                joever_of_winner_exec(self.player)
            } else {
                Joever::Ongoing
            };
            let mov = Move {
                start_x: from.0,
                start_y: from.1,
                end_x: dst.0,
                end_y: dst.1,
                promotion: WirePiece::Empty,
            };
            let ghost nb = snapshot@;
            self.board = snapshot;
            self.state = if mate {
                State::CheckMate(self.player)
            } else {
                State::OpponentTurn
            };
            let reply = ServerToClient::State { board: reply_board, joever, move_made: mov };
            self.outbox.push(reply);
            proof {
                assert(self.outbox@.drop_last() =~= old(self).outbox@);
                assert(self.outbox@.last() == reply);
                assert(spec_play_outcome(*old(self), *self, from, dst, true, mate, nb));
            }
        } else {
            self.state = State::SelectPiece;
            proof {
                assert(spec_play_outcome(
                    *old(self),
                    *self,
                    from,
                    dst,
                    false,
                    false,
                    old(self).board@,
                ));
            }
        }
    }

    fn update(&mut self) {
        if !matches!(self.state, State::OpponentTurn) {
            return ;
        }
        let msg = match self.inbox.pop() {
            Some(m) => m,
            None => {
                return ;
            },
        };
        let ClientToServer::Move(mov) = msg;
        if !matches!(mov.promotion, WirePiece::Empty) {
            // UnsupportedFeature: a promotion cannot be played by this
            // core, and is explicitly rejected rather than silently
            // ignored.
            let reply = ServerToClient::Error {
                board: self.board.duplicate(),
                message: String::from_str("unsupported promotion"),
            };
            let ghost pre_outbox = old(self).outbox@;
            self.outbox.push(reply);
            proof {
                assert(self.outbox@.drop_last() =~= pre_outbox);
                assert(self.outbox@.last() == reply);
            }
            return ;
        }
        let valid = engine_make_move(&mut self.game, mov.start_x, mov.start_y, mov.end_x, mov.end_y);
        if valid {
            let mate = engine_is_checkmate(&self.game);
            let snapshot = build_snapshot(&self.game);
            let reply_board = snapshot.duplicate();
            let joever = if mate {
                joever_of_winner_exec(self.player.other())
            } else {
                Joever::Ongoing
            };
            let ghost nb = snapshot@;
            self.board = snapshot;
            self.state = if mate {
                State::CheckMate(self.player.other())
            } else {
                State::SelectPiece
            };
            let reply = ServerToClient::State { board: reply_board, joever, move_made: mov };
            self.outbox.push(reply);
            proof {
                assert(self.outbox@.drop_last() =~= old(self).outbox@);
                assert(self.outbox@.last() == reply);
                assert(spec_move_outcome(*old(self), *self, mov, true, mate, nb));
            }
        } else {
            // IllegalMove: recoverable; the reply carries the board
            // unchanged and the server keeps waiting.
            let reply = ServerToClient::Error {
                board: self.board.duplicate(),
                message: String::from_str("illegal move"),
            };
            self.outbox.push(reply);
            proof {
                assert(self.outbox@.drop_last() =~= old(self).outbox@);
                assert(self.outbox@.last() == reply);
                assert(spec_move_outcome(*old(self), *self, mov, false, false, old(self).board@));
            }
        }
    }
}

/// The outcome value that names a winner.
pub fn joever_of_winner_exec(w: Player) -> (j: Joever)
    ensures
        j == joever_of_winner(w),
{
    match w {
        Player::White => Joever::White,
        Player::Black => Joever::Black,
    }
}

/// The board a reply reports:
/// after an invalid move the `Error` reply carries the board unchanged
/// from before the move; after a valid move the `State` reply carries the
/// rules engine's post-move snapshot, which is also the server's board
/// from then on.
pub proof fn lemma_reply_board(
    pre: Server,
    post: Server,
    mov: Move,
    valid: bool,
    mate: bool,
    nb: Seq<Seq<WirePiece>>,
)
    requires
        spec_move_outcome(pre, post, mov, valid, mate, nb),
    ensures
        post.outbox_spec().len() == pre.outbox_spec().len() + 1,
        post.outbox_spec().drop_last() == pre.outbox_spec(),
        !valid ==> post.outbox_spec().last()@ == (StcAbs::Error {
            board: pre.board_spec(),
            message: "illegal move"@,
        }) && post.board_spec() == pre.board_spec() && post.state_spec() == State::OpponentTurn
            && post.game_spec() == pre.game_spec(),
        valid ==> (post.outbox_spec().last()@ matches StcAbs::State {
            board: b,
            joever: j,
            move_made: m,
        } && b == nb && b == post.board_spec() && m == mov),
{
}

/// Checkmate by the opponent's inbound move is reported symmetrically:
/// the mover is the opponent, so the server ends in `CheckMate` with its
/// other color as winner, the reply names that same color, and a client
/// awaiting the opponent or a reply that handles this reply ends in
/// `CheckMate` with the same color — both peers agree on the winner.
pub proof fn lemma_inbound_checkmate_agreement(
    pre: Server,
    post: Server,
    mov: Move,
    nb: Seq<Seq<WirePiece>>,
    c_state: State,
    c_board: Seq<Seq<WirePiece>>,
)
    requires
        spec_move_outcome(pre, post, mov, true, true, nb),
        c_state == State::ResponsePending || c_state == State::OpponentTurn,
    ensures
        post.state_spec() == State::CheckMate(pre.player_spec().spec_other()),
        crate::client::client_apply(c_state, c_board, post.outbox_spec().last()@).0
            == State::CheckMate(pre.player_spec().spec_other()),
{
    crate::client::lemma_winner_agreement(
        c_state,
        c_board,
        post.outbox_spec().last()@,
        pre.player_spec().spec_other(),
    );
}

/// Checkmate by the server's own move is reported symmetrically: the
/// server ends in `CheckMate` with its own color as winner, the reply
/// names that same color, and a client awaiting the opponent or a reply
/// that handles this reply ends in `CheckMate` with the same color — both
/// peers agree on the winner.
pub proof fn lemma_checkmate_agreement(
    pre: Server,
    post: Server,
    from: (u8, u8),
    dst: (u8, u8),
    nb: Seq<Seq<WirePiece>>,
    c_state: State,
    c_board: Seq<Seq<WirePiece>>,
)
    requires
        spec_play_outcome(pre, post, from, dst, true, true, nb),
        c_state == State::ResponsePending || c_state == State::OpponentTurn,
    ensures
        post.state_spec() == State::CheckMate(pre.player_spec()),
        crate::client::client_apply(c_state, c_board, post.outbox_spec().last()@).0
            == State::CheckMate(pre.player_spec()),
{
    crate::client::lemma_winner_agreement(
        c_state,
        c_board,
        post.outbox_spec().last()@,
        pre.player_spec(),
    );
}

} // verus!
