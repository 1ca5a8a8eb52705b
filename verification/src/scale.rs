//! The SCALE encodings that the file bank and the equivocation checks use,
//! made by `parity-scale-codec`.
use vstd::prelude::*;
use parity_scale_codec::{Decode, Encode};

verus! {

/// The little-endian bytes of a `u32`.
pub open spec fn le_u32(x: u32) -> Seq<u8> {
    seq![
        (x % 256) as u8,
        (x / 256 % 256) as u8,
        (x / 65536 % 256) as u8,
        (x / 16777216 % 256) as u8,
    ]
}

/// The little-endian bytes of a `u64`.
pub open spec fn le_u64(x: u64) -> Seq<u8> {
    le_u32((x % 4294967296) as u32) + le_u32((x / 4294967296) as u32)
}

/// The `u32` whose little-endian bytes are the first four of `b`.
pub open spec fn u32_of_le(b: Seq<u8>) -> u32 {
    (b[0] + b[1] * 256 + b[2] * 65536 + b[3] * 16777216) as u32
}

/// Encodes the subject of a randomness query: the eight bytes of the file
/// bank's identifier, then the seed.
///
/// Calls `Encode::encode` of `parity-scale-codec` on the pair; the contract
/// states the SCALE encoding of a byte array (its bytes) and of a `u32` (its
/// four little-endian bytes).
#[verifier::external_body]
pub fn encode_subject(pallet_id: [u8; 8], seed: u32) -> (r: Vec<u8>)
    ensures
        r@ == pallet_id@ + le_u32(seed),
{
    (pallet_id, seed).encode()
}

/// Decodes a `u32` from the front of `bytes`.
///
/// Calls `Decode::decode` of `parity-scale-codec` for `u32` on the bytes; the
/// contract states that it reads the first four bytes little-endian, and fails
/// where there are fewer.
#[verifier::external_body]
pub fn decode_u32(bytes: &Vec<u8>) -> (r: Option<u32>)
    ensures
        bytes.len() >= 4 ==> r == Some(u32_of_le(bytes@)),
        bytes.len() < 4 ==> r is None,
{
    let mut input: &[u8] = bytes.as_slice();
    u32::decode(&mut input).ok()
}

/// Encodes a transaction tag under a prefix: the prefix as a byte string
/// (its length, compact, then its bytes), the offender's 32 bytes and the
/// slot.
///
/// Calls `Encode::encode` of `parity-scale-codec` on
/// `(prefix, (offender, slot))`; the contract states the SCALE encoding for a
/// prefix shorter than 64 bytes, whose compact length is one byte.
#[verifier::external_body]
pub fn encode_tag(prefix: &Vec<u8>, offender: [u8; 32], slot: u64) -> (r: Vec<u8>)
    requires
        prefix.len() < 64,
    ensures
        r@ == seq![(prefix.len() * 4) as u8] + prefix@ + offender@ + le_u64(slot),
{
    (prefix, (offender, slot)).encode()
}

} // verus!
