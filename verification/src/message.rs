//! What it takes for a type to travel over the bus.
//!
//! A frame is the eight-byte fingerprint of the message type, most
//! significant byte first, followed by the encoded value. The fingerprint is
//! the only type check there is: the bus moves bytes and knows nothing of
//! types.

use vstd::prelude::*;
use vstd::slice::slice_subrange;
use crate::error::DecodeError;
use crate::wire::{
    be64, from_be64, get_be64, lemma_be64_round_trip, lemma_from_be64_round_trip, put_be64,
};

verus! {

/// The number of bytes that the fingerprint takes at the head of a frame.
pub const FINGERPRINT_LEN: usize = 8;

/// A type whose values can be sent and received.
///
/// The contracts are stated over the view of the type. An implementation
/// proves that decoding undoes encoding for every value that the wire format
/// can carry.
pub trait Message: View + Sized {
    /// The fingerprint of the type.
    spec fn spec_hash() -> u64;

    /// Whether the wire format can carry `v`.
    spec fn encodable(v: Self::V) -> bool;

    /// The bytes of `v`, without the fingerprint.
    spec fn spec_encode(v: Self::V) -> Seq<u8>;

    /// The value at the head of `bytes`, or why there is none.
    spec fn spec_decode(bytes: Seq<u8>) -> Result<Self::V, DecodeError>;

    /// Decoding the bytes of a value gives back the value.
    proof fn lemma_round_trip(v: Self::V)
        requires
            Self::encodable(v),
        ensures
            Self::spec_decode(Self::spec_encode(v)) == Ok::<Self::V, DecodeError>(v),
    ;

    /// The fingerprint of the type.
    fn hash() -> (h: u64)
        ensures
            h == Self::spec_hash(),
    ;

    /// The bytes of the value, without the fingerprint.
    fn encode(&self) -> (bytes: Vec<u8>)
        ensures
            bytes@ == Self::spec_encode(self@),
    ;

    /// Reads a value from the head of `bytes`.
    fn decode(bytes: &[u8]) -> (r: Result<Self, DecodeError>)
        ensures
            match r {
                Ok(m) => Self::spec_decode(bytes@) == Ok::<Self::V, DecodeError>(m@),
                Err(e) => Self::spec_decode(bytes@) == Err::<Self::V, DecodeError>(e),
            },
    ;
}

/// The frame of `v` as a message of type `M`: fingerprint, then bytes.
pub open spec fn spec_encode_with_hash<M: Message>(v: M::V) -> Seq<u8> {
    be64(M::spec_hash()) + M::spec_encode(v)
}

/// What reading `frame` as a message of type `M` gives: nothing where it is
/// too short to hold a fingerprint or holds another one, else what its
/// remaining bytes decode to.
pub open spec fn spec_decode_with_hash<M: Message>(frame: Seq<u8>) -> Result<M::V, DecodeError> {
    if frame.len() < 8 {
        Err(DecodeError::Truncated)
    } else if from_be64(frame) != M::spec_hash() {
        Err(DecodeError::TypeMismatch)
    } else {
        M::spec_decode(frame.subrange(8, frame.len() as int))
    }
}

/// A frame decodes to the value it was made from: for every message type and
/// every value that the wire format can carry, reading the frame of the value
/// as that type succeeds and gives the value.
pub proof fn lemma_round_trip_with_hash<M: Message>(v: M::V)
    requires
        M::encodable(v),
    ensures
        spec_decode_with_hash::<M>(spec_encode_with_hash::<M>(v)) == Ok::<M::V, DecodeError>(v),
{
    let frame = spec_encode_with_hash::<M>(v);
    lemma_be64_round_trip(M::spec_hash());
    M::lemma_round_trip(v);
    assert(frame.subrange(0, 4) =~= be64(M::spec_hash()).subrange(0, 4));
    assert(frame.subrange(4, 8) =~= be64(M::spec_hash()).subrange(4, 8));
    assert(frame.subrange(8, frame.len() as int) =~= M::spec_encode(v));
}

/// A frame that is long enough to hold a fingerprint and starts with any
/// other eight bytes than the fingerprint of `M` is never read as an `M`: the
/// answer is a type mismatch, whatever follows.
pub proof fn lemma_wrong_fingerprint_rejected<M: Message>(frame: Seq<u8>)
    requires
        frame.len() >= 8,
        frame.subrange(0, 8) != be64(M::spec_hash()),
    ensures
        spec_decode_with_hash::<M>(frame) == Err::<M::V, DecodeError>(DecodeError::TypeMismatch),
{
    let head = frame.subrange(0, 8);
    assert(head.subrange(0, 4) =~= frame.subrange(0, 4));
    assert(head.subrange(4, 8) =~= frame.subrange(4, 8));
    if from_be64(frame) == M::spec_hash() {
        lemma_from_be64_round_trip(head);
    }
}

/// The frame of a value of one type is never read as a value of a type with
/// another fingerprint: the answer is a type mismatch.
pub proof fn lemma_foreign_frame_rejected<M: Message, N: Message>(v: N::V)
    requires
        M::spec_hash() != N::spec_hash(),
    ensures
        spec_decode_with_hash::<M>(spec_encode_with_hash::<N>(v)) == Err::<M::V, DecodeError>(
            DecodeError::TypeMismatch,
        ),
{
    let frame = spec_encode_with_hash::<N>(v);
    lemma_be64_round_trip(N::spec_hash());
    lemma_be64_round_trip(M::spec_hash());
    assert(frame.subrange(0, 8) =~= be64(N::spec_hash()));
    assert(from_be64(be64(N::spec_hash())) != from_be64(be64(M::spec_hash())));
    lemma_wrong_fingerprint_rejected::<M>(frame);
}

/// The frame of `message`: fingerprint, then bytes.
pub fn encode_with_hash<M: Message>(message: &M) -> (frame: Vec<u8>)
    ensures
        frame@ == spec_encode_with_hash::<M>(message@),
{
    let mut frame: Vec<u8> = Vec::new();
    put_be64(&mut frame, M::hash());
    let mut body = message.encode();
    frame.append(&mut body);
    frame
}

/// Reads a message of type `M` from a frame, after checking the fingerprint.
pub fn decode_with_hash<M: Message>(frame: &[u8]) -> (r: Result<M, DecodeError>)
    ensures
        match r {
            Ok(m) => spec_decode_with_hash::<M>(frame@) == Ok::<M::V, DecodeError>(m@),
            Err(e) => spec_decode_with_hash::<M>(frame@) == Err::<M::V, DecodeError>(e),
        },
{
    if frame.len() < FINGERPRINT_LEN {
        return Err(DecodeError::Truncated);
    }
    if get_be64(frame) != M::hash() {
        return Err(DecodeError::TypeMismatch);
    }
    M::decode(slice_subrange(frame, FINGERPRINT_LEN, frame.len()))
}

} // verus!
