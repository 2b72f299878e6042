//! The wire codec on concrete messages: exact encodings, round trips for
//! every variant and for boards with 0, 1 and 64 occupied cells, and
//! rejection of malformed input.

use chess_link::logic::Player;
use chess_link::message::{DecodeError, Message};
use chess_link::protocol::{
    Board, ClientToServer, ClientToServerHandshake, Joever, Move, ServerToClient,
    ServerToClientHandshake, WirePiece,
};

fn mv(sx: u8, sy: u8, ex: u8, ey: u8) -> Move {
    Move { start_x: sx, start_y: sy, end_x: ex, end_y: ey, promotion: WirePiece::Empty }
}

fn board_with(cells: &[(u8, u8, WirePiece)]) -> Board {
    let mut b = Board::empty();
    for &(x, y, p) in cells {
        b.set(x, y, p);
    }
    b
}

fn full_board() -> Board {
    let mut b = Board::empty();
    for x in 0..8u8 {
        for y in 0..8u8 {
            let p = if (x + y) % 2 == 0 { WirePiece::WhitePawn } else { WirePiece::BlackQueen };
            b.set(x, y, p);
        }
    }
    b
}

#[test]
fn encode_move_is_exact() {
    let m = ClientToServer::Move(mv(1, 4, 3, 4));
    assert_eq!(
        m.encode(),
        "{\"Move\":{\"start_x\":1,\"start_y\":4,\"end_x\":3,\"end_y\":4,\"promotion\":\"None\"}}"
    );
}

#[test]
fn round_trip_client_to_server() {
    let m = ClientToServer::Move(mv(6, 4, 4, 4));
    let text = m.encode();
    let (back, used) = ClientToServer::decode(&text).unwrap();
    assert_eq!(back, m);
    assert_eq!(used, text.chars().count());
}

#[test]
fn round_trip_state_empty_board() {
    let m = ServerToClient::State {
        board: board_with(&[]),
        joever: Joever::Ongoing,
        move_made: mv(1, 4, 3, 4),
    };
    let text = m.encode();
    let (back, used) = ServerToClient::decode(&text).unwrap();
    assert_eq!(back, m);
    assert_eq!(used, text.chars().count());
}

#[test]
fn round_trip_state_one_piece() {
    let m = ServerToClient::State {
        board: board_with(&[(3, 4, WirePiece::WhitePawn)]),
        joever: Joever::White,
        move_made: mv(1, 4, 3, 4),
    };
    let text = m.encode();
    let (back, used) = ServerToClient::decode(&text).unwrap();
    assert_eq!(back, m);
    assert_eq!(used, text.chars().count());
}

#[test]
fn round_trip_state_full_board() {
    let m = ServerToClient::State {
        board: full_board(),
        joever: Joever::Black,
        move_made: mv(0, 0, 7, 7),
    };
    let text = m.encode();
    let (back, used) = ServerToClient::decode(&text).unwrap();
    assert_eq!(back, m);
    assert_eq!(used, text.chars().count());
}

#[test]
fn round_trip_error_with_escapes() {
    let m = ServerToClient::Error {
        board: board_with(&[(0, 0, WirePiece::BlackKing)]),
        message: "he said \"no\\way\"\non line two\ttab\u{8}".to_string(),
    };
    let text = m.encode();
    let (back, used) = ServerToClient::decode(&text).unwrap();
    assert_eq!(back, m);
    assert_eq!(used, text.chars().count());
}

#[test]
fn round_trip_handshakes() {
    for color in [Player::White, Player::Black] {
        let hs = ClientToServerHandshake { server_color: color };
        let text = hs.encode();
        let (back, used) = ClientToServerHandshake::decode(&text).unwrap();
        assert_eq!(back, hs);
        assert_eq!(used, text.chars().count());
    }
    let reply = ServerToClientHandshake {
        board: board_with(&[(0, 0, WirePiece::WhiteRook)]),
        moves: vec![mv(1, 0, 2, 0), mv(1, 1, 3, 1)],
        joever: Joever::Ongoing,
    };
    let text = reply.encode();
    let (back, used) = ServerToClientHandshake::decode(&text).unwrap();
    assert_eq!(back, reply);
    assert_eq!(used, text.chars().count());

    let empty_moves = ServerToClientHandshake {
        board: board_with(&[]),
        moves: Vec::new(),
        joever: Joever::Indeterminate,
    };
    let text = empty_moves.encode();
    let (back, _) = ServerToClientHandshake::decode(&text).unwrap();
    assert_eq!(back, empty_moves);
}

#[test]
fn decode_consumes_exactly_one_message() {
    let first = ClientToServer::Move(mv(1, 4, 3, 4));
    let second = ClientToServer::Move(mv(6, 0, 5, 0));
    let stream = format!("{}{}", first.encode(), second.encode());
    let (m1, used1) = ClientToServer::decode(&stream).unwrap();
    assert_eq!(m1, first);
    let rest: String = stream.chars().skip(used1).collect();
    let (m2, used2) = ClientToServer::decode(&rest).unwrap();
    assert_eq!(m2, second);
    assert_eq!(used1 + used2, stream.chars().count());
}

#[test]
fn decode_rejects_malformed_input() {
    assert_eq!(ClientToServer::decode("xyz"), Err(DecodeError::MalformedMessage));
    assert_eq!(
        ClientToServer::decode("{\"Nope\":{}}"),
        Err(DecodeError::MalformedMessage)
    );
    // A coordinate off the board is not a move this protocol knows.
    assert_eq!(
        ClientToServer::decode(
            "{\"Move\":{\"start_x\":8,\"start_y\":4,\"end_x\":3,\"end_y\":4,\"promotion\":\"None\"}}"
        ),
        Err(DecodeError::MalformedMessage)
    );
    assert_eq!(ServerToClient::decode(""), Err(DecodeError::MalformedMessage));
    assert_eq!(
        ServerToClient::decode("{\"State\":{\"board\":[],"),
        Err(DecodeError::MalformedMessage)
    );
}

#[test]
fn encoded_messages_are_valid_json() {
    let m = ServerToClient::State {
        board: board_with(&[(1, 4, WirePiece::WhitePawn)]),
        joever: Joever::Ongoing,
        move_made: mv(1, 4, 3, 4),
    };
    let v: serde_json::Value = serde_json::from_str(&m.encode()).unwrap();
    assert_eq!(v["State"]["board"][1][4], serde_json::Value::String("WhitePawn".to_string()));
    assert_eq!(v["State"]["board"][0][0], serde_json::Value::String("None".to_string()));
    assert_eq!(v["State"]["joever"], serde_json::Value::String("Ongoing".to_string()));
    assert_eq!(v["State"]["move_made"]["start_x"], serde_json::Value::Number(1.into()));

    let e = ServerToClient::Error {
        board: board_with(&[]),
        message: "bad \"move\"\n".to_string(),
    };
    let v: serde_json::Value = serde_json::from_str(&e.encode()).unwrap();
    assert_eq!(
        v["Error"]["message"],
        serde_json::Value::String("bad \"move\"\n".to_string())
    );
}
