//! The codec as the rest of the system sees it: every protocol message
//! implements `Message`, with a verified `encode`, a verified `decode`,
//! and the proof that decoding undoes encoding.

use vstd::prelude::*;
use crate::decode::{p_cts, p_ctsh, p_stc, p_stch};
use crate::encode::{append_board, append_color, append_joever, append_move, append_moves};
use crate::protocol::{
    ClientToServer, ClientToServerHandshake, ServerToClient, ServerToClientHandshake, StcAbs,
    StchAbs,
};
use crate::text::{append_jstring, append_key, push_char, str_chars};
use crate::wire::{
    enc_cts, enc_ctsh, enc_stc, enc_stch, lemma_cts_round_trip, lemma_ctsh_round_trip,
    lemma_names_plain, lemma_stc_round_trip,
    lemma_stch_round_trip, parse_cts, parse_ctsh, parse_stc, parse_stch, n_board, n_joever,
    n_message, n_move_made, n_moves, n_server_color, n_tag_error, n_tag_move, n_tag_state,
};

verus! {

/// Why a received text was rejected: it cannot be parsed into any known
/// message variant.
#[derive(Clone, Copy, PartialEq, Eq, Structural, Debug)]
pub enum DecodeError {
    MalformedMessage,
}

/// A protocol message with its wire form.
///
/// `Self::V` is the mathematical view of the message (boards as
/// sequences of rows, texts as sequences of characters); the contracts
/// all speak over it.
pub trait Message: Sized + View {
    /// The views on which the codec is total.
    spec fn abs_wf(v: Self::V) -> bool;

    /// The canonical wire text of a message.
    spec fn abs_enc(v: Self::V) -> Seq<char>;

    /// The parser: one message and the remaining input, or nothing.
    spec fn abs_parse(s: Seq<char>) -> Option<(Self::V, Seq<char>)>;

    /// Serializes the message; never fails for well-formed values.
    fn encode(&self) -> (r: String)
        requires
            Self::abs_wf(self@),
        ensures
            r@ == Self::abs_enc(self@),
    ;

    /// Decodes exactly one message from the front of `s`: on success the
    /// message and how many characters it occupied — the stream is then
    /// positioned at the next message; on failure the input does not
    /// begin with any known message variant.
    fn decode(s: &str) -> (r: Result<(Self, usize), DecodeError>)
        ensures
            match r {
                Ok((m, n)) => n <= s@.len() && Self::abs_wf(m@) && Self::abs_parse(s@) == Some(
                    (m@, s@.skip(n as int)),
                ),
                Err(_) => Self::abs_parse(s@) is None,
            },
    ;

    /// Decoding undoes encoding: parsing an encoded message, whatever
    /// follows it on the stream, yields the message back and leaves
    /// exactly what followed.
    proof fn round_trip(v: Self::V, rest: Seq<char>)
        requires
            Self::abs_wf(v),
        ensures
            Self::abs_parse(Self::abs_enc(v) + rest) == Some((v, rest)),
    ;
}

impl Message for ClientToServer {
    open spec fn abs_wf(v: ClientToServer) -> bool {
        v.wf()
    }

    open spec fn abs_enc(v: ClientToServer) -> Seq<char> {
        enc_cts(v)
    }

    open spec fn abs_parse(s: Seq<char>) -> Option<(ClientToServer, Seq<char>)> {
        parse_cts(s)
    }

    #[verifier::rlimit(100)]
    fn encode(&self) -> (r: String) {
        proof {
            lemma_names_plain();
            reveal_strlit("Move");
            assert("Move"@ =~= n_tag_move());
        }
        let mut out = String::new();
        match self {
            ClientToServer::Move(m) => {
                push_char(&mut out, '{');
                append_key(&mut out, "Move");
                append_move(&mut out, m);
                push_char(&mut out, '}');
            },
        }
        proof {
            assert(out@ =~= enc_cts(*self));
        }
        out
    }

    fn decode(s: &str) -> (r: Result<(ClientToServer, usize), DecodeError>) {
        let v = str_chars(s);
        proof {
            assert(v@.skip(0) =~= v@);
        }
        match p_cts(&v, 0) {
            Some((m, p)) => Ok((m, p)),
            None => Err(DecodeError::MalformedMessage),
        }
    }

    proof fn round_trip(v: ClientToServer, rest: Seq<char>) {
        lemma_cts_round_trip(v, rest);
    }
}

impl Message for ServerToClient {
    open spec fn abs_wf(v: StcAbs) -> bool {
        v.wf()
    }

    open spec fn abs_enc(v: StcAbs) -> Seq<char> {
        enc_stc(v)
    }

    open spec fn abs_parse(s: Seq<char>) -> Option<(StcAbs, Seq<char>)> {
        parse_stc(s)
    }

    #[verifier::rlimit(100)]
    fn encode(&self) -> (r: String) {
        proof {
            lemma_names_plain();
            reveal_strlit("State");
            reveal_strlit("Error");
            reveal_strlit("board");
            reveal_strlit("joever");
            reveal_strlit("move_made");
            reveal_strlit("message");
            assert("State"@ =~= n_tag_state());
            assert("Error"@ =~= n_tag_error());
            assert("board"@ =~= n_board());
            assert("joever"@ =~= n_joever());
            assert("move_made"@ =~= n_move_made());
            assert("message"@ =~= n_message());
        }
        let mut out = String::new();
        match self {
            ServerToClient::State { board, joever, move_made } => {
                push_char(&mut out, '{');
                append_key(&mut out, "State");
                push_char(&mut out, '{');
                append_key(&mut out, "board");
                append_board(&mut out, board);
                push_char(&mut out, ',');
                append_key(&mut out, "joever");
                append_joever(&mut out, *joever);
                push_char(&mut out, ',');
                append_key(&mut out, "move_made");
                append_move(&mut out, move_made);
                push_char(&mut out, '}');
                push_char(&mut out, '}');
                proof {
                    assert(out@ =~= enc_stc(self@));
                }
            },
            ServerToClient::Error { board, message } => {
                push_char(&mut out, '{');
                append_key(&mut out, "Error");
                push_char(&mut out, '{');
                append_key(&mut out, "board");
                append_board(&mut out, board);
                push_char(&mut out, ',');
                append_key(&mut out, "message");
                append_jstring(&mut out, message.as_str());
                push_char(&mut out, '}');
                push_char(&mut out, '}');
                proof {
                    assert(out@ =~= enc_stc(self@));
                }
            },
        }
        out
    }

    fn decode(s: &str) -> (r: Result<(ServerToClient, usize), DecodeError>) {
        let v = str_chars(s);
        proof {
            assert(v@.skip(0) =~= v@);
        }
        match p_stc(&v, 0) {
            Some((m, p)) => Ok((m, p)),
            None => Err(DecodeError::MalformedMessage),
        }
    }

    proof fn round_trip(v: StcAbs, rest: Seq<char>) {
        lemma_stc_round_trip(v, rest);
    }
}

impl Message for ClientToServerHandshake {
    open spec fn abs_wf(v: ClientToServerHandshake) -> bool {
        v.wf()
    }

    open spec fn abs_enc(v: ClientToServerHandshake) -> Seq<char> {
        enc_ctsh(v)
    }

    open spec fn abs_parse(s: Seq<char>) -> Option<(ClientToServerHandshake, Seq<char>)> {
        parse_ctsh(s)
    }

    #[verifier::rlimit(100)]
    fn encode(&self) -> (r: String) {
        proof {
            lemma_names_plain();
            reveal_strlit("server_color");
            assert("server_color"@ =~= n_server_color());
        }
        let mut out = String::new();
        push_char(&mut out, '{');
        append_key(&mut out, "server_color");
        append_color(&mut out, self.server_color);
        push_char(&mut out, '}');
        proof {
            assert(out@ =~= enc_ctsh(*self));
        }
        out
    }

    fn decode(s: &str) -> (r: Result<(ClientToServerHandshake, usize), DecodeError>) {
        let v = str_chars(s);
        proof {
            assert(v@.skip(0) =~= v@);
        }
        match p_ctsh(&v, 0) {
            Some((m, p)) => Ok((m, p)),
            None => Err(DecodeError::MalformedMessage),
        }
    }

    proof fn round_trip(v: ClientToServerHandshake, rest: Seq<char>) {
        lemma_ctsh_round_trip(v, rest);
    }
}

impl Message for ServerToClientHandshake {
    open spec fn abs_wf(v: StchAbs) -> bool {
        v.wf()
    }

    open spec fn abs_enc(v: StchAbs) -> Seq<char> {
        enc_stch(v)
    }

    open spec fn abs_parse(s: Seq<char>) -> Option<(StchAbs, Seq<char>)> {
        parse_stch(s)
    }

    #[verifier::rlimit(100)]
    fn encode(&self) -> (r: String) {
        proof {
            lemma_names_plain();
            reveal_strlit("board");
            reveal_strlit("moves");
            reveal_strlit("joever");
            assert("board"@ =~= n_board());
            assert("moves"@ =~= n_moves());
            assert("joever"@ =~= n_joever());
        }
        let mut out = String::new();
        push_char(&mut out, '{');
        append_key(&mut out, "board");
        append_board(&mut out, &self.board);
        push_char(&mut out, ',');
        append_key(&mut out, "moves");
        proof {
            assert(self@.moves == self.moves@);
            assert(forall|k: int|
                0 <= k < self.moves@.len() ==> (#[trigger] self.moves@[k]).wf()) by {
                assert(forall|k: int|
                    0 <= k < self@.moves.len() ==> (#[trigger] self@.moves[k]).wf());
            }
        }
        append_moves(&mut out, &self.moves);
        push_char(&mut out, ',');
        append_key(&mut out, "joever");
        append_joever(&mut out, self.joever);
        push_char(&mut out, '}');
        proof {
            assert(out@ =~= enc_stch(self@));
        }
        out
    }

    fn decode(s: &str) -> (r: Result<(ServerToClientHandshake, usize), DecodeError>) {
        let v = str_chars(s);
        proof {
            assert(v@.skip(0) =~= v@);
        }
        match p_stch(&v, 0) {
            Some((m, p)) => Ok((m, p)),
            None => Err(DecodeError::MalformedMessage),
        }
    }

    proof fn round_trip(v: StchAbs, rest: Seq<char>) {
        lemma_stch_round_trip(v, rest);
    }
}

} // verus!
