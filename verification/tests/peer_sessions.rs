//! The two peer controllers against the real rules engine: handshake role
//! assignment, piece selection and move submission, authoritative replies
//! to valid and invalid moves, and a full game ending in checkmate that
//! both peers agree on.

use chess_link::client::Client;
use chess_link::handshake::{accept_roles, request_handshake};
use chess_link::logic::{Interface, Piece, Player, State};
use chess_link::protocol::{
    proto_to_logic, logic_to_proto, Board, ClientToServer, Joever, Move, ServerToClient,
    WirePiece,
};
use chess_link::server::{sqstr, Server};
use chess_link::transport::{Buffer, Fifo};

fn mv(sx: u8, sy: u8, ex: u8, ey: u8) -> Move {
    Move { start_x: sx, start_y: sy, end_x: ex, end_y: ey, promotion: WirePiece::Empty }
}

/// The accepting peer assigns itself the requested color; the connecting
/// peer plays the other; White starts selecting, Black starts waiting.
#[test]
fn handshake_assigns_complementary_roles() {
    // The connecting peer wants White, so it asks the server to be Black.
    let hs = request_handshake(Player::White);
    assert_eq!(hs.server_color, Player::Black);

    let (server_color, server_state) = accept_roles(&hs);
    assert_eq!(server_color, Player::Black);
    assert_eq!(server_state, State::OpponentTurn);

    let server = Server::new(server_color);
    assert_eq!(server.get_state(), State::OpponentTurn);

    let reply = server.handshake_reply();
    assert_eq!(reply.joever, Joever::Ongoing);
    assert!(reply.moves.is_empty());

    let client = Client::new(Player::White, reply.board);
    assert_eq!(client.get_state(), State::SelectPiece);
}

/// The board a full standard starting position holds, cell by cell.
fn standard_position() -> Board {
    let back = [
        Piece::Rook,
        Piece::Knight,
        Piece::Bishop,
        Piece::Queen,
        Piece::King,
        Piece::Bishop,
        Piece::Knight,
        Piece::Rook,
    ];
    let mut b = Board::empty();
    for y in 0..8u8 {
        b.set(0, y, logic_to_proto(back[y as usize], Player::White));
        b.set(1, y, WirePiece::WhitePawn);
        b.set(6, y, WirePiece::BlackPawn);
        b.set(7, y, logic_to_proto(back[y as usize], Player::Black));
    }
    b
}

/// A fresh server's handshake carries the standard chess position, all
/// 64 cells.
#[test]
fn initial_board_is_standard_position() {
    let server = Server::new(Player::Black);
    let b = server.handshake_reply().board;
    assert_eq!(b, standard_position());
}

/// Selecting square e2 (an own pawn) and then e4 sends exactly one move
/// and awaits the reply.
#[test]
fn select_and_submit_sends_one_move() {
    let server = Server::new(Player::Black);
    let mut client = Client::new(Player::White, server.handshake_reply().board);

    assert_eq!(client.get_piece_at(1, 4), Some((Piece::Pawn, Player::White)));
    client.select_piece((1, 4));
    assert_eq!(client.get_state(), State::SelectMove { from: (1, 4) });

    client.play_move((3, 4));
    assert_eq!(client.get_state(), State::ResponsePending);
    assert_eq!(client.pop_outbound(), Some(ClientToServer::Move(mv(1, 4, 3, 4))));
    assert_eq!(client.pop_outbound(), None);
}

/// Selecting an empty square or an opponent piece changes nothing.
#[test]
fn selection_ignores_foreign_cells() {
    let server = Server::new(Player::Black);
    let mut client = Client::new(Player::White, server.handshake_reply().board);

    client.select_piece((4, 4));
    assert_eq!(client.get_state(), State::SelectPiece);
    client.select_piece((6, 0));
    assert_eq!(client.get_state(), State::SelectPiece);
    assert_eq!(client.pop_outbound(), None);

    // Re-picking: a second own piece replaces the tentative selection
    // only through the selection state machine.
    client.select_piece((0, 1));
    assert_eq!(client.get_state(), State::SelectMove { from: (0, 1) });
}

/// An invalid inbound move is answered with an `Error` carrying the board
/// unchanged; a valid one with a `State` carrying the post-move snapshot.
#[test]
fn server_answers_invalid_then_valid_move() {
    let mut server = Server::new(Player::Black);
    let before = server.handshake_reply().board;

    // A rook cannot jump from its corner at the start.
    server.push_inbound(ClientToServer::Move(mv(0, 0, 5, 5)));
    server.update();
    match server.pop_outbound() {
        Some(ServerToClient::Error { board, message }) => {
            assert_eq!(board, before);
            assert_eq!(message, "illegal move");
        },
        other => panic!("expected an error reply, got {:?}", other),
    }
    assert_eq!(server.get_state(), State::OpponentTurn);

    // The king's pawn may advance two squares: the reply carries the
    // engine's complete post-move snapshot, which is the starting
    // position with exactly that pawn moved.
    server.push_inbound(ClientToServer::Move(mv(1, 4, 3, 4)));
    server.update();
    let mut expected = standard_position();
    expected.set(1, 4, WirePiece::Empty);
    expected.set(3, 4, WirePiece::WhitePawn);
    match server.pop_outbound() {
        Some(ServerToClient::State { board, joever, move_made }) => {
            assert_eq!(board, expected);
            assert_eq!(joever, Joever::Ongoing);
            assert_eq!(move_made, mv(1, 4, 3, 4));
        },
        other => panic!("expected a state reply, got {:?}", other),
    }
    assert_eq!(server.get_state(), State::SelectPiece);
}

/// A move carrying a promotion is not supported and is explicitly
/// rejected, board unchanged.
#[test]
fn server_rejects_promotion_moves() {
    let mut server = Server::new(Player::Black);
    let before = server.handshake_reply().board;
    let mut promo = mv(1, 4, 3, 4);
    promo.promotion = WirePiece::WhiteQueen;
    server.push_inbound(ClientToServer::Move(promo));
    server.update();
    match server.pop_outbound() {
        Some(ServerToClient::Error { board, message }) => {
            assert_eq!(board, before);
            assert_eq!(message, "unsupported promotion");
        },
        other => panic!("expected an error reply, got {:?}", other),
    }
    assert_eq!(server.get_state(), State::OpponentTurn);
}

/// A client whose submitted move is rejected reverts to piece selection
/// with the board the error carried.
#[test]
fn client_reverts_on_error_reply() {
    let server = Server::new(Player::Black);
    let board = server.handshake_reply().board;
    let echo = server.handshake_reply().board;
    let mut client = Client::new(Player::White, board);
    client.select_piece((0, 0));
    client.play_move((5, 5));
    assert_eq!(client.get_state(), State::ResponsePending);

    client.push_inbound(ServerToClient::Error { board: echo, message: "illegal move".to_string() });
    client.update();
    assert_eq!(client.get_state(), State::SelectPiece);
    assert_eq!(client.get_piece_at(0, 0), Some((Piece::Rook, Player::White)));
}

/// Scholar's mate, played by the server's own side: the server reports
/// `WonBy(White)` to the client and both peers record White as winner.
#[test]
fn checkmate_is_agreed_by_both_peers() {
    let mut server = Server::new(Player::White);
    let mut client = Client::new(Player::Black, server.handshake_reply().board);

    let mut server_plays = |server: &mut Server, from: (u8, u8), to: (u8, u8)| -> ServerToClient {
        server.select_piece(from);
        assert_eq!(server.get_state(), State::SelectMove { from });
        server.play_move(to);
        server.pop_outbound().expect("a reply after a valid own move")
    };
    let mut client_plays = |server: &mut Server, from: (u8, u8), to: (u8, u8)| -> ServerToClient {
        server.push_inbound(ClientToServer::Move(mv(from.0, from.1, to.0, to.1)));
        server.update();
        server.pop_outbound().expect("a reply after a valid inbound move")
    };

    // 1. e4 e5  2. Qh5 Nc6  3. Bc4 Nf6  4. Qxf7, checkmate.
    server_plays(&mut server, (1, 4), (3, 4));
    client_plays(&mut server, (6, 4), (4, 4));
    server_plays(&mut server, (0, 3), (4, 7));
    client_plays(&mut server, (7, 1), (5, 2));
    server_plays(&mut server, (0, 5), (3, 2));
    client_plays(&mut server, (7, 6), (5, 5));
    let last = server_plays(&mut server, (4, 7), (6, 5));

    assert_eq!(server.get_state(), State::CheckMate(Player::White));
    match &last {
        ServerToClient::State { joever, .. } => assert_eq!(*joever, Joever::White),
        other => panic!("expected a state reply, got {:?}", other),
    }

    // The losing side's controller receives the reply and reaches the
    // same winner.
    assert_eq!(client.get_state(), State::OpponentTurn);
    client.push_inbound(last);
    client.update();
    assert_eq!(client.get_state(), State::CheckMate(Player::White));
}

/// Messages queued through the transport come back in send order.
#[test]
fn transport_queue_is_fifo() {
    let moves = [mv(1, 4, 3, 4), mv(6, 4, 4, 4), mv(0, 1, 2, 2)];
    let mut q: Fifo<ClientToServer> = Fifo::new();
    for m in moves {
        q.push(ClientToServer::Move(m));
    }
    assert_eq!(q.len(), 3);
    for m in moves {
        assert_eq!(q.pop(), Some(ClientToServer::Move(m)));
    }
    assert_eq!(q.pop(), None);
}

/// The one-message hand-off slot: reading takes the message out, writing
/// replaces what was there.
#[test]
fn buffer_hands_over_one_message() {
    let mut b: Buffer<Move> = Buffer::new();
    assert_eq!(b.get(), None);
    b.set(mv(1, 0, 2, 0));
    b.set(mv(1, 4, 3, 4));
    assert_eq!(b.get(), Some(mv(1, 4, 3, 4)));
    assert_eq!(b.get(), None);
}

/// Square names as the string-coordinate convention writes them.
#[test]
fn square_names() {
    assert_eq!(sqstr(0, 0), "A1");
    assert_eq!(sqstr(1, 4), "E2");
    assert_eq!(sqstr(7, 7), "H8");
    assert_eq!(sqstr(3, 4), "E4");
}

/// The wire piece converters invert each other on concrete values.
#[test]
fn converters_invert() {
    assert_eq!(proto_to_logic(WirePiece::Empty), None);
    assert_eq!(proto_to_logic(WirePiece::BlackKnight), Some((Piece::Knight, Player::Black)));
    assert_eq!(logic_to_proto(Piece::Knight, Player::Black), WirePiece::BlackKnight);
    for p in [Piece::Pawn, Piece::Rook, Piece::Knight, Piece::Bishop, Piece::Queen, Piece::King] {
        for c in [Player::White, Player::Black] {
            assert_eq!(proto_to_logic(logic_to_proto(p, c)), Some((p, c)));
        }
    }
}

/// The opposite color, twice, is the color itself.
#[test]
fn other_color() {
    assert_eq!(Player::White.other(), Player::Black);
    assert_eq!(Player::Black.other(), Player::White);
    assert_eq!(Player::White.other().other(), Player::White);
}

/// A board survives a cell write and a copy.
#[test]
fn board_cells() {
    let mut b = Board::empty();
    assert_eq!(b.get(4, 4), WirePiece::Empty);
    b.set(4, 4, WirePiece::BlackBishop);
    assert_eq!(b.get(4, 4), WirePiece::BlackBishop);
    let c = b.duplicate();
    assert_eq!(c, b);
    assert_eq!(c.get(4, 4), WirePiece::BlackBishop);
}
