//! Checksums, digests and hexadecimal text, as the legacy account
//! identifiers need them.

use sha2::Digest;
use vstd::prelude::*;

verus! {

/// The SHA-224 digest that `sha2::Sha224` computes of a byte string.
pub uninterp spec fn sha224_digest(data: Seq<u8>) -> Seq<u8>;

/// The CRC-32 checksum that `crc32fast::hash` computes of a byte string.
pub uninterp spec fn crc32_checksum(data: Seq<u8>) -> u32;

/// The character of a hexadecimal digit, in lower case.
pub open spec fn hex_digit(d: int) -> char {
    seq!['0', '1', '2', '3', '4', '5', '6', '7', '8', '9', 'a', 'b', 'c', 'd', 'e', 'f'][d]
}

/// A byte string in hexadecimal notation: two lower-case digits per byte,
/// the high half first.
pub open spec fn hex_text(bytes: Seq<u8>) -> Seq<char> {
    Seq::new(
        2 * bytes.len(),
        |i: int|
            if i % 2 == 0 {
                hex_digit(bytes[i / 2] as int / 16)
            } else {
                hex_digit(bytes[i / 2] as int % 16)
            },
    )
}

/// The four bytes of a number, the most significant first.
pub open spec fn be_bytes(x: u32) -> Seq<u8> {
    seq![
        ((x >> 24) & 0xff) as u8,
        ((x >> 16) & 0xff) as u8,
        ((x >> 8) & 0xff) as u8,
        (x & 0xff) as u8,
    ]
}

/// The number that four bytes spell, the most significant first.
pub open spec fn from_be_bytes(b0: u8, b1: u8, b2: u8, b3: u8) -> u32 {
    (b0 as u32) << 24 | (b1 as u32) << 16 | (b2 as u32) << 8 | (b3 as u32)
}

/// Reading back the four bytes of a number gives the number.
pub proof fn lemma_be_round_trip(x: u32)
    ensures
        be_bytes(x).len() == 4,
        from_be_bytes(be_bytes(x)[0], be_bytes(x)[1], be_bytes(x)[2], be_bytes(x)[3]) == x,
{
    assert((((x >> 24) & 0xff) as u8 as u32) << 24 | (((x >> 16) & 0xff) as u8 as u32) << 16 | (((x
        >> 8) & 0xff) as u8 as u32) << 8 | ((x & 0xff) as u8 as u32) == x) by (bit_vector);
}

/// The four bytes of a number, the most significant first.
pub fn to_be_bytes(x: u32) -> (r: [u8; 4])
    ensures
        r@ == be_bytes(x),
{
    let r = [
        ((x >> 24) & 0xff) as u8,
        ((x >> 16) & 0xff) as u8,
        ((x >> 8) & 0xff) as u8,
        (x & 0xff) as u8,
    ];
    assert(r@ =~= be_bytes(x));
    r
}

/// Runs `sha2::Sha224` over a byte string: `new`, one `update`, `finalize`.
/// The result is the digest of the bytes, 28 bytes long.
#[verifier::external_body]
pub(crate) fn sha224(data: &[u8]) -> (digest: [u8; 28])
    ensures
        digest@ == sha224_digest(data@),
{
    let mut hasher = sha2::Sha224::new();
    hasher.update(data);
    hasher.finalize().into()
}

/// Calls `crc32fast::hash`: the checksum of the bytes.
#[verifier::external_body]
pub(crate) fn crc32(data: &[u8]) -> (checksum: u32)
    ensures
        checksum == crc32_checksum(data@),
{
    crc32fast::hash(data)
}

/// Calls `hex::encode`: two lower-case hexadecimal digits for each byte.
#[verifier::external_body]
pub(crate) fn hex_encode(data: &[u8]) -> (text: String)
    ensures
        text@ == hex_text(data@),
{
    hex::encode(data)
}

} // verus!
