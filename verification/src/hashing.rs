//! The hash and encoding that name the lock list of an asset.
use vstd::prelude::*;
use crate::dispatch::AssetId;

verus! {

/// The SCALE encoding of a `u32`: its four bytes, least significant first.
pub open spec fn scale_u32(v: u32) -> Seq<u8> {
    seq![
        (v % 256) as u8,
        ((v / 256) % 256) as u8,
        ((v / 65536) % 256) as u8,
        ((v / 16777216) % 256) as u8,
    ]
}

/// The SCALE encoding of a `u64`: its eight bytes, least significant first.
pub open spec fn scale_u64(v: u64) -> Seq<u8> {
    seq![
        (v & 0xff) as u8,
        ((v >> 8u64) & 0xff) as u8,
        ((v >> 16u64) & 0xff) as u8,
        ((v >> 24u64) & 0xff) as u8,
        ((v >> 32u64) & 0xff) as u8,
        ((v >> 40u64) & 0xff) as u8,
        ((v >> 48u64) & 0xff) as u8,
        ((v >> 56u64) & 0xff) as u8,
    ]
}

/// The `u64` whose little-endian bytes are the first eight of `b`.
pub open spec fn le_u64(b: Seq<u8>) -> u64 {
    (b[0] as u64) | ((b[1] as u64) << 8u64) | ((b[2] as u64) << 16u64) | ((b[3] as u64) << 24u64)
        | ((b[4] as u64) << 32u64) | ((b[5] as u64) << 40u64) | ((b[6] as u64) << 48u64) | ((b[7] as u64) << 56u64)
}

/// Reading back the bytes of a `u64` gives the `u64`.
pub proof fn lemma_le_u64_of_scale(v: u64)
    ensures
        le_u64(scale_u64(v)) == v,
{
    let s = scale_u64(v);
    let b0 = s[0];
    let b1 = s[1];
    let b2 = s[2];
    let b3 = s[3];
    let b4 = s[4];
    let b5 = s[5];
    let b6 = s[6];
    let b7 = s[7];
    assert((b0 as u64) | ((b1 as u64) << 8u64) | ((b2 as u64) << 16u64) | ((b3 as u64) << 24u64)
        | ((b4 as u64) << 32u64) | ((b5 as u64) << 40u64) | ((b6 as u64) << 48u64) | ((b7 as u64) << 56u64) == v) by (bit_vector)
        requires
            b0 == (v & 0xff) as u8,
            b1 == ((v >> 8u64) & 0xff) as u8,
            b2 == ((v >> 16u64) & 0xff) as u8,
            b3 == ((v >> 24u64) & 0xff) as u8,
            b4 == ((v >> 32u64) & 0xff) as u8,
            b5 == ((v >> 40u64) & 0xff) as u8,
            b6 == ((v >> 48u64) & 0xff) as u8,
            b7 == ((v >> 56u64) & 0xff) as u8,
    ;
}

/// What `sp_io::hashing::twox_64` returns for the given bytes.
pub uninterp spec fn spec_twox_64(data: Seq<u8>) -> Seq<u8>;

/// The identifier under which the locks of an asset are kept.
pub open spec fn lock_identifier_of(asset_id: AssetId) -> Seq<u8> {
    spec_twox_64(scale_u32(asset_id))
}

/// `parity_scale_codec::Encode::encode` on a `u32`: SCALE writes a fixed-width
/// integer as its bytes in little-endian order.
#[verifier::external_body]
fn encode_u32(v: u32) -> (r: Vec<u8>)
    ensures
        r@ == scale_u32(v),
{
    parity_scale_codec::Encode::encode(&v)
}

/// `sp_io::hashing::twox_64`: xxHash64 with seed 0 over `data`, its eight bytes
/// little-endian. The contract names the result and claims nothing more of it.
#[verifier::external_body]
pub(crate) fn twox_64(data: &[u8]) -> (r: [u8; 8])
    ensures
        r@ == spec_twox_64(data@),
{
    sp_io::hashing::twox_64(data)
}

/// `parity_scale_codec::Encode::encode` on a pair of a `u32` and a `u64`: SCALE writes a
/// tuple as its fields one after the other, each fixed-width integer little-endian.
#[verifier::external_body]
pub(crate) fn encode_u32_u64(a: u32, b: u64) -> (r: Vec<u8>)
    ensures
        r@ == scale_u32(a) + scale_u64(b),
{
    parity_scale_codec::Encode::encode(&(a, b))
}

/// `parity_scale_codec::Encode::encode` on a `u64`: its eight bytes, little-endian.
#[verifier::external_body]
pub(crate) fn encode_u64(v: u64) -> (r: Vec<u8>)
    ensures
        r@ == scale_u64(v),
{
    parity_scale_codec::Encode::encode(&v)
}

/// `parity_scale_codec::Decode::decode` of a `u64` from the front of `bytes`: it fails where
/// fewer than eight bytes are left, else reads the first eight little-endian.
#[verifier::external_body]
pub(crate) fn decode_u64(bytes: &[u8]) -> (r: Option<u64>)
    ensures
        r is Some <==> bytes@.len() >= 8,
        r matches Some(v) ==> v == le_u64(bytes@),
{
    let mut input = bytes;
    match <u64 as parity_scale_codec::Decode>::decode(&mut input) {
        Ok(v) => Some(v),
        Err(_) => None,
    }
}

/// The `u64` whose big-endian bytes are the first eight of `b`.
pub open spec fn be_u64(b: Seq<u8>) -> u64 {
    (b[7] as u64) | ((b[6] as u64) << 8u64) | ((b[5] as u64) << 16u64) | ((b[4] as u64) << 24u64)
        | ((b[3] as u64) << 32u64) | ((b[2] as u64) << 40u64) | ((b[1] as u64) << 48u64) | ((b[0] as u64) << 56u64)
}

/// `u64::from_ne_bytes`: the bytes read in the machine's own byte order, which is either
/// little- or big-endian; which of the two is not stated.
#[verifier::external_body]
pub(crate) fn u64_from_ne_bytes(bytes: [u8; 8]) -> (r: u64)
    ensures
        r == le_u64(bytes@) || r == be_u64(bytes@),
{
    u64::from_ne_bytes(bytes)
}

/// The lock identifier of an asset: the 64-bit xx hash of the asset id's encoding.
pub fn generic_asset_lock_identifier(asset_id: &AssetId) -> (r: [u8; 8])
    ensures
        r@ == lock_identifier_of(*asset_id),
{
    let encoded = encode_u32(*asset_id);
    twox_64(encoded.as_slice())
}

} // verus!
