//! The sync protocol's messages, and their framing on stream transports:
//! `[length: 4 bytes big-endian][body]`, with the length bounded.
use vstd::prelude::*;
use crate::datagram::{be_bytes, be_value, push_be32, push_bytes, lemma_be_round_trip};

verus! {

/// A message between replicas.
#[derive(Debug, Clone)]
pub enum SyncMessage {
    /// Changes since the sender's previous delta.
    DeltaChange(Vec<u8>),
    /// A full save of the sender's document.
    State(Vec<u8>),
    /// Asks the replica with this short id for its full state.
    RequestState(u32),
    /// A full save, sent on first contact; the receiver answers with its own.
    Announce(Vec<u8>),
    /// The sender is still there.
    Alive,
    /// The sender is leaving.
    Shutdown,
}

/// Largest frame body on a stream: 64 MiB.
pub const MAX_FRAME_LEN: usize = 67108864;

/// Why a frame cannot be sent or read.
#[derive(Debug, Clone, Copy, PartialEq, Eq, Structural)]
pub enum FrameError {
    /// The body is longer than `MAX_FRAME_LEN`.
    TooLarge,
}

/// The frame that carries `body`.
pub open spec fn framed(body: Seq<u8>) -> Seq<u8> {
    be_bytes(body.len() as u32) + body
}

/// Frames `body` for a stream: its length, then the body.
pub fn frame_message(body: &[u8]) -> (r: Result<Vec<u8>, FrameError>)
    ensures
        r is Err <==> body@.len() > MAX_FRAME_LEN,
        r is Ok ==> r->Ok_0@ == framed(body@),
{
    if body.len() > MAX_FRAME_LEN {
        return Err(FrameError::TooLarge);
    }
    let mut out: Vec<u8> = Vec::new();
    push_be32(&mut out, body.len() as u32);
    push_bytes(&mut out, body);
    Ok(out)
}

/// The body length announced by a frame's 4-byte prefix; an error where it is
/// over `MAX_FRAME_LEN`.
pub fn frame_length(prefix: [u8; 4]) -> (r: Result<usize, FrameError>)
    ensures
        r is Err <==> be_value(prefix@) > MAX_FRAME_LEN,
        r is Ok ==> r->Ok_0 == be_value(prefix@),
{
    let n = crate::datagram::read_be32(prefix.as_slice(), 0);
    assert(prefix@.subrange(0, 4) =~= prefix@);
    if n as usize > MAX_FRAME_LEN {
        Err(FrameError::TooLarge)
    } else {
        Ok(n as usize)
    }
}

/// A frame's prefix announces the length of the body it was made for.
pub proof fn lemma_frame_round_trip(body: Seq<u8>)
    requires
        body.len() <= MAX_FRAME_LEN,
    ensures
        be_value(framed(body).subrange(0, 4)) == body.len(),
        framed(body).subrange(4, framed(body).len() as int) == body,
{
    lemma_be_round_trip(body.len() as u32);
    assert(framed(body).subrange(0, 4) =~= be_bytes(body.len() as u32));
    assert(framed(body).subrange(4, framed(body).len() as int) =~= body);
}

} // verus!
