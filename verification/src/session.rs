//! The course of one chat session: the phases from connecting to running,
//! and the decisions of the sending and the receiving side.
//!
//! Nothing here touches a connection. The caller performs the reads and
//! writes and reports what came of them; the functions of this module say
//! what to do next.

use crate::cipher::{lemma_xor_stream_round_trip, state_after, xor_stream, StreamCipher};
use crate::endian::be_value;
use crate::exchange::{
    decode_public_key, encode_public_key, lemma_public_key_round_trip,
    lemma_shared_secret_agrees, public_key_bytes, valid_private_key, KeyExchangeParameters,
    PRIVATE_KEY_END, PRIVATE_KEY_MIN, PUBLIC_KEY_LEN,
};
use crate::frame::{
    decode_header, encode_frame, frame_bytes, lemma_frame_round_trip, parse_frame, FrameError,
    HEADER_LEN, MAX_PAYLOAD,
};
use crate::hexfmt::{hex_encode, hex_string};
use crate::text::{
    blank, decoded_text, is_blank, lemma_decoded_text_of_encoding, string_from_utf8,
};
use vstd::prelude::*;
use vstd::utf8::encode_utf8;

verus! {

/// Where a session stands.
#[derive(Debug, Clone, Copy, PartialEq, Eq, Structural)]
pub enum Phase {
    /// No connection yet.
    Connecting,
    /// Connected; the own public key is on its way, the peer's is awaited.
    KeyExchanging,
    /// The shared secret is known; the loops have not started.
    Established,
    /// The send and receive sides are at work.
    Running,
    /// Over, for good.
    Terminated,
}

/// Why a session refused a request.
#[derive(Debug, Clone, Copy, PartialEq, Eq, Structural)]
pub enum SessionError {
    /// The parameters have a modulus of zero or one.
    InvalidParameters,
    /// The private key lies outside the range that keys are drawn from.
    InvalidPrivateKey,
    /// The request does not belong to the phase that the session is in.
    OutOfOrder,
    /// The peer's public key did not arrive whole; the session is over.
    HandshakeFailed,
}

/// What a session is, seen from outside.
pub struct SessionModel {
    pub params: KeyExchangeParameters,
    pub private_key: u64,
    pub phase: Phase,
    pub shared_secret: u64,
}

impl SessionModel {
    /// The same session in another phase.
    pub open spec fn in_phase(self, phase: Phase) -> SessionModel {
        SessionModel { phase, ..self }
    }

    /// The public key that this side sends.
    pub open spec fn public_key(self) -> u64 {
        self.params.public_key_of(self.private_key)
    }

    /// The session once the peer's public key is known: established, with
    /// the secret derived from that key and the own private key.
    pub open spec fn established_with(self, peer_public_key: u64) -> SessionModel {
        SessionModel {
            phase: Phase::Established,
            shared_secret: self.params.shared_secret_of(peer_public_key, self.private_key),
            ..self
        }
    }
}

/// One session between two peers, from before the connection to its end.
pub struct Session {
    params: KeyExchangeParameters,
    private_key: u64,
    phase: Phase,
    shared_secret: u64,
}

impl View for Session {
    type V = SessionModel;

    closed spec fn view(&self) -> SessionModel {
        SessionModel {
            params: self.params,
            private_key: self.private_key,
            phase: self.phase,
            shared_secret: self.shared_secret,
        }
    }
}

impl Session {
    #[verifier::type_invariant]
    spec fn well_formed(&self) -> bool {
        self.params.wf() && valid_private_key(self.private_key)
    }

    /// A session that waits for its connection. Parameters with a modulus
    /// below two and private keys outside the permitted range are refused.
    pub fn new(params: KeyExchangeParameters, private_key: u64) -> (result: Result<
        Session,
        SessionError,
    >)
        ensures
            match result {
                Ok(session) => {
                    &&& params.wf()
                    &&& valid_private_key(private_key)
                    &&& session@ == (SessionModel {
                        params,
                        private_key,
                        phase: Phase::Connecting,
                        shared_secret: 0,
                    })
                },
                Err(SessionError::InvalidParameters) => !params.wf(),
                Err(SessionError::InvalidPrivateKey) => params.wf() && !valid_private_key(
                    private_key,
                ),
                Err(_) => false,
            },
    {
        if params.modulus <= 1 {
            return Err(SessionError::InvalidParameters);
        }
        if private_key < PRIVATE_KEY_MIN || private_key >= PRIVATE_KEY_END {
            return Err(SessionError::InvalidPrivateKey);
        }
        Ok(Session { params, private_key, phase: Phase::Connecting, shared_secret: 0 })
    }

    /// The phase that the session is in.
    pub fn phase(&self) -> (phase: Phase)
        ensures
            phase == self@.phase,
    {
        self.phase
    }

    /// The shared secret, once the handshake has completed.
    pub fn shared_secret(&self) -> (secret: Option<u64>)
        ensures
            secret == if self@.phase == Phase::Established || self@.phase == Phase::Running {
                Some(self@.shared_secret)
            } else {
                None
            },
    {
        match self.phase {
            Phase::Established | Phase::Running => Some(self.shared_secret),
            _ => None,
        }
    }

    /// The connection stands. Returns the bytes to write to the peer, the
    /// own public key, and moves on to the key exchange.
    pub fn connected(&mut self) -> (result: Result<Vec<u8>, SessionError>)
        ensures
            match result {
                Ok(bytes) => {
                    &&& old(self)@.phase == Phase::Connecting
                    &&& bytes@ == public_key_bytes(old(self)@.public_key())
                    &&& final(self)@ == old(self)@.in_phase(Phase::KeyExchanging)
                },
                Err(error) => {
                    &&& old(self)@.phase != Phase::Connecting
                    &&& error == SessionError::OutOfOrder
                    &&& final(self)@ == old(self)@
                },
            },
    {
        proof {
            use_type_invariant(&*self);
        }
        match self.phase {
            Phase::Connecting => {
                let public_key = self.params.derive_public_key(self.private_key);
                self.phase = Phase::KeyExchanging;
                Ok(encode_public_key(public_key))
            },
            _ => Err(SessionError::OutOfOrder),
        }
    }

    /// What was read from the peer in answer to the own public key. Exactly
    /// eight bytes complete the handshake; anything else ends the session.
    pub fn peer_key_received(&mut self, bytes: &[u8]) -> (result: Result<(), SessionError>)
        ensures
            match result {
                Ok(()) => {
                    &&& old(self)@.phase == Phase::KeyExchanging
                    &&& bytes@.len() == PUBLIC_KEY_LEN
                    &&& final(self)@ == old(self)@.established_with(be_value(bytes@) as u64)
                },
                Err(SessionError::HandshakeFailed) => {
                    &&& old(self)@.phase == Phase::KeyExchanging
                    &&& bytes@.len() != PUBLIC_KEY_LEN
                    &&& final(self)@ == old(self)@.in_phase(Phase::Terminated)
                },
                Err(error) => {
                    &&& old(self)@.phase != Phase::KeyExchanging
                    &&& error == SessionError::OutOfOrder
                    &&& final(self)@ == old(self)@
                },
            },
    {
        proof {
            use_type_invariant(&*self);
        }
        match self.phase {
            Phase::KeyExchanging => match decode_public_key(bytes) {
                Ok(peer_public_key) => {
                    self.shared_secret =
                    self.params.derive_shared_secret(peer_public_key, self.private_key);
                    self.phase = Phase::Established;
                    Ok(())
                },
                Err(_) => {
                    self.phase = Phase::Terminated;
                    Err(SessionError::HandshakeFailed)
                },
            },
            _ => Err(SessionError::OutOfOrder),
        }
    }

    /// Starts the two loops: hands out the sending and the receiving side,
    /// each with a cipher of its own that starts from the shared secret.
    pub fn start(&mut self) -> (result: Result<(Sender, Receiver), SessionError>)
        ensures
            match result {
                Ok((sender, receiver)) => {
                    &&& old(self)@.phase == Phase::Established
                    &&& sender@ == old(self)@.shared_secret
                    &&& receiver@ == old(self)@.shared_secret
                    &&& final(self)@ == old(self)@.in_phase(Phase::Running)
                },
                Err(error) => {
                    &&& old(self)@.phase != Phase::Established
                    &&& error == SessionError::OutOfOrder
                    &&& final(self)@ == old(self)@
                },
            },
    {
        proof {
            use_type_invariant(&*self);
        }
        match self.phase {
            Phase::Established => {
                self.phase = Phase::Running;
                Ok(
                    (
                        Sender { cipher: StreamCipher::new(self.shared_secret) },
                        Receiver { cipher: StreamCipher::new(self.shared_secret) },
                    ),
                )
            },
            _ => Err(SessionError::OutOfOrder),
        }
    }

    /// Ends the session, whatever phase it is in: after a failure to
    /// connect, or when the peer has gone.
    pub fn terminate(&mut self)
        ensures
            final(self)@ == old(self)@.in_phase(Phase::Terminated),
    {
        proof {
            use_type_invariant(&*self);
        }
        self.phase = Phase::Terminated;
    }
}

/// The sending side of a running session.
pub struct Sender {
    cipher: StreamCipher,
}

impl View for Sender {
    type V = u64;

    /// The state of the send-direction cipher.
    closed spec fn view(&self) -> u64 {
        self.cipher@
    }
}

/// One message, ready to go out.
pub struct Outgoing {
    /// The frame to write to the peer.
    pub frame: Vec<u8>,
    /// The message as typed, in hexadecimal.
    pub plaintext_hex: String,
    /// The message as sent, in hexadecimal.
    pub ciphertext_hex: String,
}

/// What goes out for a message that fits in a frame, from a cipher in
/// `state`: the frame of the sealed bytes, and both forms in hexadecimal.
pub open spec fn is_outgoing(outgoing: Outgoing, state: u64, message: Seq<char>) -> bool {
    let plain = encode_utf8(message);
    let sealed = xor_stream(state, plain);
    &&& outgoing.frame@ == frame_bytes(sealed)
    &&& outgoing.plaintext_hex@ == hex_string(plain)
    &&& outgoing.ciphertext_hex@ == hex_string(sealed)
}

/// What the sending side does with a line of input.
pub enum SendAction {
    /// The line was blank: ask for another.
    Prompt,
    /// Write this frame.
    Transmit(Outgoing),
    /// The line does not fit in a frame. Nothing is sent and the cipher
    /// stays where it was.
    Reject(FrameError),
}

impl Sender {
    /// Encrypts a message and frames it. A message of more than 65535 bytes
    /// is refused before the cipher is touched.
    pub fn send(&mut self, message: &str) -> (action: SendAction)
        ensures
            match action {
                SendAction::Transmit(outgoing) => {
                    &&& encode_utf8(message@).len() <= MAX_PAYLOAD
                    &&& is_outgoing(outgoing, old(self)@, message@)
                    &&& final(self)@ == state_after(old(self)@, encode_utf8(message@).len())
                },
                SendAction::Reject(error) => {
                    &&& encode_utf8(message@).len() > MAX_PAYLOAD
                    &&& error == FrameError::PayloadTooLong
                    &&& final(self)@ == old(self)@
                },
                SendAction::Prompt => false,
            },
    {
        let plain = message.as_bytes();
        if plain.len() > MAX_PAYLOAD {
            return SendAction::Reject(FrameError::PayloadTooLong);
        }
        let sealed = self.cipher.encrypt(plain);
        let plaintext_hex = hex_encode(plain);
        let ciphertext_hex = hex_encode(sealed.as_slice());
        match encode_frame(sealed.as_slice()) {
            Ok(frame) => SendAction::Transmit(Outgoing { frame, plaintext_hex, ciphertext_hex }),
            Err(e) => SendAction::Reject(e),
        }
    }

    /// Decides what to do with a line of input: a blank line is passed
    /// over, any other is sent as [`Sender::send`] sends it.
    pub fn on_line(&mut self, line: &str) -> (action: SendAction)
        ensures
            match action {
                SendAction::Prompt => blank(line@) && final(self)@ == old(self)@,
                SendAction::Transmit(outgoing) => {
                    &&& !blank(line@)
                    &&& encode_utf8(line@).len() <= MAX_PAYLOAD
                    &&& is_outgoing(outgoing, old(self)@, line@)
                    &&& final(self)@ == state_after(old(self)@, encode_utf8(line@).len())
                },
                SendAction::Reject(error) => {
                    &&& !blank(line@)
                    &&& encode_utf8(line@).len() > MAX_PAYLOAD
                    &&& error == FrameError::PayloadTooLong
                    &&& final(self)@ == old(self)@
                },
            },
    {
        if is_blank(line) {
            SendAction::Prompt
        } else {
            self.send(line)
        }
    }
}

/// The receiving side of a running session.
pub struct Receiver {
    cipher: StreamCipher,
}

impl View for Receiver {
    type V = u64;

    /// The state of the receive-direction cipher.
    closed spec fn view(&self) -> u64 {
        self.cipher@
    }
}

/// What the receiving side does once a header was read, or was not.
#[derive(Debug, Clone, Copy, PartialEq, Eq, Structural)]
pub enum HeaderAction {
    /// Read this many payload bytes.
    ReadPayload(usize),
    /// The peer has gone: the session ends.
    Disconnect,
}

/// One message, as it arrived.
pub struct Incoming {
    /// The message in clear.
    pub text: String,
    /// The payload as it came off the wire, in hexadecimal.
    pub ciphertext_hex: String,
}

/// What the receiving side does once a payload was read, or was not.
pub enum PayloadAction {
    /// Show this message, then wait for the next header.
    Deliver(Incoming),
    /// The payload did not decrypt to text: show nothing, wait for the next
    /// header.
    Discard,
    /// The payload could not be read whole: say so, wait for the next
    /// header. The cipher stays where it was.
    ReportReadError,
}

/// Whether the read of a payload brought all the bytes that were announced.
pub open spec fn read_whole(announced: usize, payload: Option<&[u8]>) -> bool {
    payload is Some && payload.unwrap()@.len() == announced
}

/// The text that a payload decrypts to under a cipher in `state`, if it
/// decrypts to text at all.
pub open spec fn delivered_text(state: u64, payload: Seq<u8>) -> Option<Seq<char>> {
    decoded_text(xor_stream(state, payload))
}

/// What one side sends, the other side reads: a message that fits in a
/// frame, sealed by a cipher in `state` and framed, is parsed back to the
/// same sealed bytes, and a cipher in the same `state` on the receiving side
/// delivers the message as it was typed.
pub proof fn lemma_message_arrives(state: u64, message: Seq<char>)
    requires
        encode_utf8(message).len() <= MAX_PAYLOAD,
    ensures
        ({
            let sealed = xor_stream(state, encode_utf8(message));
            &&& parse_frame(frame_bytes(sealed)) == Ok::<Seq<u8>, FrameError>(sealed)
            &&& delivered_text(state, sealed) == Some(message)
        }),
{
    let plain = encode_utf8(message);
    let sealed = xor_stream(state, plain);
    lemma_frame_round_trip(sealed, Seq::<u8>::empty());
    assert(frame_bytes(sealed) + Seq::<u8>::empty() =~= frame_bytes(sealed));
    lemma_xor_stream_round_trip(state, plain);
    lemma_decoded_text_of_encoding(message);
}

/// Two peers that exchange their public keys over the wire end up with the
/// same shared secret, whatever their private keys.
pub proof fn lemma_handshake_agrees(params: KeyExchangeParameters, a: u64, b: u64)
    requires
        params.wf(),
    ensures
        params.shared_secret_of(be_value(public_key_bytes(params.public_key_of(a))) as u64, b)
            == params.shared_secret_of(
            be_value(public_key_bytes(params.public_key_of(b))) as u64,
            a,
        ),
{
    lemma_public_key_round_trip(params.public_key_of(a));
    lemma_public_key_round_trip(params.public_key_of(b));
    lemma_shared_secret_agrees(params, a, b);
}

impl Receiver {
    /// Decides what follows the attempt to read a header. `header` holds
    /// the bytes that were read; anything but two of them means that the
    /// peer is gone.
    pub fn on_header(&self, header: &[u8]) -> (action: HeaderAction)
        ensures
            match action {
                HeaderAction::ReadPayload(len) => {
                    &&& header@.len() == HEADER_LEN
                    &&& len == be_value(header@) <= MAX_PAYLOAD
                },
                HeaderAction::Disconnect => header@.len() != HEADER_LEN,
            },
    {
        match decode_header(header) {
            Ok(len) => HeaderAction::ReadPayload(len),
            Err(_) => HeaderAction::Disconnect,
        }
    }

    /// Decides what follows the attempt to read a payload of `announced`
    /// bytes. `payload` is `None` where the read failed; a payload of
    /// another length than announced counts as a failed read too.
    pub fn on_payload(&mut self, announced: usize, payload: Option<&[u8]>) -> (action:
        PayloadAction)
        ensures
            match action {
                PayloadAction::ReportReadError => {
                    &&& !read_whole(announced, payload)
                    &&& final(self)@ == old(self)@
                },
                PayloadAction::Deliver(incoming) => {
                    &&& read_whole(announced, payload)
                    &&& delivered_text(old(self)@, payload.unwrap()@) == Some(incoming.text@)
                    &&& incoming.ciphertext_hex@ == hex_string(payload.unwrap()@)
                    &&& final(self)@ == state_after(old(self)@, announced as nat)
                },
                PayloadAction::Discard => {
                    &&& read_whole(announced, payload)
                    &&& delivered_text(old(self)@, payload.unwrap()@) is None
                    &&& final(self)@ == state_after(old(self)@, announced as nat)
                },
            },
    {
        let sealed = match payload {
            Some(bytes) => bytes,
            None => {
                return PayloadAction::ReportReadError;
            },
        };
        if sealed.len() != announced {
            return PayloadAction::ReportReadError;
        }
        let plain = self.cipher.decrypt(sealed);
        match string_from_utf8(plain) {
            Some(text) => PayloadAction::Deliver(
                Incoming { text, ciphertext_hex: hex_encode(sealed) },
            ),
            None => PayloadAction::Discard,
        }
    }
}

} // verus!
