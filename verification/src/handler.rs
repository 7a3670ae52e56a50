//! What a connection handler decides after each read attempt.
//!
//! The handler owns one accepted connection.  It offers a buffer of
//! [`FRAME_SIZE`] bytes to a single read, repeats the read while it is
//! interrupted, and on the first read that returns it decodes what arrived
//! as the peer's public value and derives the shared secret.  The caller
//! performs the reads and reports each outcome here; this module says what
//! to do next.

use crate::exchange::KeyExchangeEndpoint;
use crate::exchange::lemma_endpoints_agree;
use crate::wire::{
    decimal_text, decode_public_value, lemma_decode_inverts_encode, parse_decimal, ProtocolError,
    FRAME_SIZE,
};
use vstd::prelude::*;
use vstd::slice::slice_subrange;

verus! {

/// Why a read attempt returned no data.
#[derive(Clone, Copy, Debug, PartialEq, Eq, Structural)]
pub enum ReadError {
    /// The read was interrupted before any byte arrived; it may be repeated.
    Interrupted,
    /// The peer reset the connection.
    ConnectionReset,
    /// Any other failure of the read.
    Other,
}

/// What one read attempt reported.
#[derive(Clone, Copy, Debug, PartialEq, Eq, Structural)]
pub enum ReadOutcome {
    /// The read returned, leaving this many bytes at the front of the buffer.
    /// Zero means the peer closed the connection without sending.
    Received(usize),
    /// The read failed.
    Failed(ReadError),
}

/// The result of a handshake that ran to its end.
#[derive(Clone, Copy, Debug, PartialEq, Eq, Structural)]
pub struct Handshake {
    /// The public value the peer sent.
    pub peer_public: u64,
    /// The secret derived from it.
    pub shared_secret: u64,
}

/// Why a handler gave up on its connection.
#[derive(Clone, Copy, Debug, PartialEq, Eq, Structural)]
pub enum HandlerError {
    /// The read failed for a reason other than an interruption.
    Read(ReadError),
    /// The bytes received are not a public value.
    Protocol(ProtocolError),
}

/// What the handler does next.
#[derive(Clone, Copy, Debug, PartialEq, Eq, Structural)]
pub enum HandlerAction {
    /// Read again, at once, into the same buffer.
    Retry,
    /// Report the completed handshake and end.
    Report(Handshake),
    /// Report the failure and end; no other connection is affected.
    Abort(HandlerError),
}

/// The bytes a read delivered: the first `count` bytes of the buffer, or
/// all of it should `count` exceed its length.
pub open spec fn received_payload(buffer: Seq<u8>, count: usize) -> Seq<u8> {
    if count <= buffer.len() {
        buffer.take(count as int)
    } else {
        buffer
    }
}

/// The handshake an endpoint completes on a payload, if the payload is a
/// public value.
pub open spec fn handshake_on(endpoint: KeyExchangeEndpoint, payload: Seq<u8>) -> Result<
    Handshake,
    ProtocolError,
> {
    match parse_decimal(payload) {
        Some(peer_public) => Ok(
            Handshake {
                peer_public,
                shared_secret: endpoint.shared_secret_with(peer_public) as u64,
            },
        ),
        None => Err(ProtocolError::Malformed),
    }
}

/// The action that follows a read outcome.
///
/// An interrupted read is retried.  Any other failed read ends the handler
/// with that error.  A read that returned is decoded, however few bytes it
/// delivered: a payload that is a public value completes the handshake, and
/// any other payload, the empty one of a peer that closed without sending
/// included, ends the handler with [`ProtocolError::Malformed`].
pub open spec fn next_action(
    endpoint: KeyExchangeEndpoint,
    buffer: Seq<u8>,
    outcome: ReadOutcome,
) -> HandlerAction {
    match outcome {
        ReadOutcome::Failed(ReadError::Interrupted) => HandlerAction::Retry,
        ReadOutcome::Failed(error) => HandlerAction::Abort(HandlerError::Read(error)),
        ReadOutcome::Received(count) => match handshake_on(
            endpoint,
            received_payload(buffer, count),
        ) {
            Ok(handshake) => HandlerAction::Report(handshake),
            Err(error) => HandlerAction::Abort(HandlerError::Protocol(error)),
        },
    }
}

/// Decodes a received payload and derives the shared secret from it.
pub fn complete_handshake(endpoint: &KeyExchangeEndpoint, payload: &[u8]) -> (r: Result<
    Handshake,
    ProtocolError,
>)
    ensures
        r == handshake_on(*endpoint, payload@),
{
    match decode_public_value(payload) {
        Ok(peer_public) => {
            let shared_secret = endpoint.derive_shared_secret(peer_public);
            Ok(Handshake { peer_public, shared_secret })
        },
        Err(error) => Err(error),
    }
}

/// Decides what the handler of one connection does after a read attempt on
/// `buffer` reported `outcome`.
pub fn on_read(
    endpoint: &KeyExchangeEndpoint,
    buffer: &[u8; FRAME_SIZE],
    outcome: ReadOutcome,
) -> (action: HandlerAction)
    ensures
        action == next_action(*endpoint, buffer@, outcome),
{
    match outcome {
        ReadOutcome::Failed(ReadError::Interrupted) => HandlerAction::Retry,
        ReadOutcome::Failed(error) => HandlerAction::Abort(HandlerError::Read(error)),
        ReadOutcome::Received(count) => {
            let bytes = buffer.as_slice();
            let payload = if count <= bytes.len() {
                slice_subrange(bytes, 0, count)
            } else {
                bytes
            };
            match complete_handshake(endpoint, payload) {
                Ok(handshake) => HandlerAction::Report(handshake),
                Err(error) => HandlerAction::Abort(HandlerError::Protocol(error)),
            }
        },
    }
}

/// Two endpoints of the same group that send each other the wire text of
/// their public values complete matching handshakes: each side decodes the
/// value the other published, and both derive the same secret.
pub proof fn lemma_handshakes_agree(a: KeyExchangeEndpoint, b: KeyExchangeEndpoint)
    requires
        a.wf(),
        b.wf(),
        a.spec_params() == b.spec_params(),
    ensures
        handshake_on(a, decimal_text(b.spec_public_value() as nat)) == Ok::<
            Handshake,
            ProtocolError,
        >(
            Handshake {
                peer_public: b.spec_public_value(),
                shared_secret: a.shared_secret_with(b.spec_public_value()) as u64,
            },
        ),
        handshake_on(b, decimal_text(a.spec_public_value() as nat)) == Ok::<
            Handshake,
            ProtocolError,
        >(
            Handshake {
                peer_public: a.spec_public_value(),
                shared_secret: a.shared_secret_with(b.spec_public_value()) as u64,
            },
        ),
{
    lemma_decode_inverts_encode(a.spec_public_value());
    lemma_decode_inverts_encode(b.spec_public_value());
    lemma_endpoints_agree(a, b);
}

/// The same agreement through the handlers' buffers.  Let each side's read
/// have left the whole text of the other's public value at the front of its
/// buffer, which takes a text of at most [`FRAME_SIZE`] bytes.  Then both
/// handlers report, each the value the other published, and both the same
/// secret.
pub proof fn lemma_framed_exchange_agrees(
    a: KeyExchangeEndpoint,
    b: KeyExchangeEndpoint,
    buffer_at_a: Seq<u8>,
    buffer_at_b: Seq<u8>,
)
    requires
        a.wf(),
        b.wf(),
        a.spec_params() == b.spec_params(),
        buffer_at_a.len() == FRAME_SIZE,
        buffer_at_b.len() == FRAME_SIZE,
        decimal_text(a.spec_public_value() as nat).len() <= FRAME_SIZE,
        decimal_text(b.spec_public_value() as nat).len() <= FRAME_SIZE,
        buffer_at_a.take(decimal_text(b.spec_public_value() as nat).len() as int) == decimal_text(
            b.spec_public_value() as nat,
        ),
        buffer_at_b.take(decimal_text(a.spec_public_value() as nat).len() as int) == decimal_text(
            a.spec_public_value() as nat,
        ),
    ensures
        next_action(
            a,
            buffer_at_a,
            ReadOutcome::Received(decimal_text(b.spec_public_value() as nat).len() as usize),
        ) == HandlerAction::Report(
            Handshake {
                peer_public: b.spec_public_value(),
                shared_secret: a.shared_secret_with(b.spec_public_value()) as u64,
            },
        ),
        next_action(
            b,
            buffer_at_b,
            ReadOutcome::Received(decimal_text(a.spec_public_value() as nat).len() as usize),
        ) == HandlerAction::Report(
            Handshake {
                peer_public: a.spec_public_value(),
                shared_secret: a.shared_secret_with(b.spec_public_value()) as u64,
            },
        ),
{
    lemma_handshakes_agree(a, b);
}

} // verus!
