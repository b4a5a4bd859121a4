//! Outbound messages: their byte encoding, their hash, and the key under
//! which relayers order them.

use crate::keccak::{keccak256, keccak256_of};
use crate::primitives::{append_bytes, append_u32_be, u32_be_bytes, H256};
use vstd::prelude::*;

verus! {

/// A message on its way to another domain.
#[derive(Debug)]
pub struct NomadMessage {
    /// The domain that sends the message.
    pub origin: u32,
    /// Who sends it.
    pub sender: H256,
    /// Its number among the messages from `origin` to `destination`.
    pub nonce: u32,
    /// The domain that receives the message.
    pub destination: u32,
    /// Who receives it.
    pub recipient: H256,
    /// The payload.
    pub body: Vec<u8>,
}

/// The encoding of a message: origin, sender, nonce, destination and
/// recipient at fixed widths, integers most significant byte first, and then
/// the body.
pub open spec fn message_bytes(
    origin: u32,
    sender: H256,
    nonce: u32,
    destination: u32,
    recipient: H256,
    body: Seq<u8>,
) -> Seq<u8> {
    u32_be_bytes(origin) + sender@ + u32_be_bytes(nonce) + u32_be_bytes(destination) + recipient@
        + body
}

/// The leaf that commits to a message: the Keccak-256 digest of its
/// encoding.
pub open spec fn message_hash(encoded: Seq<u8>) -> H256 {
    H256(keccak256(encoded))
}

/// Destination domain in the upper 32 bits, nonce in the lower 32 bits.
pub open spec fn spec_destination_and_nonce(destination: u32, nonce: u32) -> u64 {
    (destination * 0x1_0000_0000 + nonce) as u64
}

/// Packs a destination domain and a nonce into one key:
/// `(destination << 32) | nonce`.
#[verifier::when_used_as_spec(spec_destination_and_nonce)]
pub fn destination_and_nonce(destination: u32, nonce: u32) -> (key: u64)
    ensures
        key == spec_destination_and_nonce(destination, nonce),
        key == destination * 0x1_0000_0000 + nonce,
{
    let high: u64 = destination as u64;
    let low: u64 = nonce as u64;
    assert((high << 32) | low == high * 0x1_0000_0000 + low) by (bit_vector)
        requires
            high < 0x1_0000_0000,
            low < 0x1_0000_0000,
    ;
    (high << 32) | low
}

impl NomadMessage {
    /// The encoding of this message.
    pub open spec fn encoding(&self) -> Seq<u8> {
        message_bytes(
            self.origin,
            self.sender,
            self.nonce,
            self.destination,
            self.recipient,
            self.body@,
        )
    }

    /// Serializes the message.
    pub fn to_vec(&self) -> (bytes: Vec<u8>)
        ensures
            bytes@ == self.encoding(),
    {
        let mut buf: Vec<u8> = Vec::new();
        append_u32_be(&mut buf, self.origin);
        append_bytes(&mut buf, self.sender.0.as_slice());
        append_u32_be(&mut buf, self.nonce);
        append_u32_be(&mut buf, self.destination);
        append_bytes(&mut buf, self.recipient.0.as_slice());
        append_bytes(&mut buf, self.body.as_slice());
        assert(buf@ =~= self.encoding());
        buf
    }

    /// The leaf that commits to this message.
    pub fn hash(&self) -> (leaf: H256)
        ensures
            leaf == message_hash(self.encoding()),
    {
        let bytes = self.to_vec();
        H256(keccak256_of(bytes.as_slice()))
    }
}

} // verus!
