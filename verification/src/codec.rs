//! Byte encodings of the integrity checksums that migration steps hand from
//! their recording phase to their checking phase.

use vstd::prelude::*;

verus! {

/// The four little-endian bytes of `n`: the SCALE encoding of a `u32`.
pub open spec fn u32_le_bytes(n: u32) -> Seq<u8> {
    seq![
        (n % 256) as u8,
        ((n / 256) % 256) as u8,
        ((n / 65536) % 256) as u8,
        ((n / 16777216) % 256) as u8,
    ]
}

/// The four big-endian bytes of `n`.
pub open spec fn u32_be_bytes(n: u32) -> Seq<u8> {
    seq![
        ((n / 16777216) % 256) as u8,
        ((n / 65536) % 256) as u8,
        ((n / 256) % 256) as u8,
        (n % 256) as u8,
    ]
}

/// The `u32` whose little-endian encoding is the first four bytes of `b`.
pub open spec fn u32_from_le(b: Seq<u8>) -> u32 {
    (b[0] + b[1] * 256 + b[2] * 65536 + b[3] * 16777216) as u32
}

/// The `u32` whose big-endian encoding is the four bytes of `b`.
pub open spec fn u32_from_be(b: Seq<u8>) -> u32 {
    (b[0] * 16777216 + b[1] * 65536 + b[2] * 256 + b[3]) as u32
}

/// Relies on `parity_scale_codec::Encode::encode` for `u32`: the SCALE
/// encoding of a `u32` is its four little-endian bytes.
#[verifier::external_body]
pub(crate) fn scale_encode_u32(n: u32) -> (r: Vec<u8>)
    ensures
        r@ == u32_le_bytes(n),
{
    parity_scale_codec::Encode::encode(&n)
}

/// Relies on `parity_scale_codec::Decode::decode` for `u32`: decoding reads
/// the first four bytes as a little-endian `u32` and fails exactly when
/// fewer than four bytes are available; trailing bytes are ignored.
#[verifier::external_body]
pub(crate) fn scale_decode_u32(b: &Vec<u8>) -> (r: Option<u32>)
    ensures
        b@.len() >= 4 ==> r == Some(u32_from_le(b@)),
        b@.len() < 4 ==> r is None,
{
    <u32 as parity_scale_codec::Decode>::decode(&mut &b[..]).ok()
}

/// The big-endian checksum bytes written beside the newer migration steps.
pub(crate) fn encode_count_be(n: u32) -> (r: Vec<u8>)
    ensures
        r@ == u32_be_bytes(n),
{
    let mut r: Vec<u8> = Vec::new();
    r.push(((n / 16777216) % 256) as u8);
    r.push(((n / 65536) % 256) as u8);
    r.push(((n / 256) % 256) as u8);
    r.push((n % 256) as u8);
    proof {
        assert(r@ =~= u32_be_bytes(n));
    }
    r
}

/// Read back a big-endian checksum; exactly four bytes are well formed.
pub(crate) fn decode_count_be(b: &Vec<u8>) -> (r: Option<u32>)
    ensures
        b@.len() == 4 ==> r == Some(u32_from_be(b@)),
        b@.len() != 4 ==> r is None,
{
    if b.len() != 4 {
        return None;
    }
    let n: u32 = (b[0] as u32) * 16777216 + (b[1] as u32) * 65536 + (b[2] as u32) * 256 + (
    b[3] as u32);
    Some(n)
}

} // verus!
