//! Opaque identifiers for stored groups and events: sixteen bytes drawn
//! from a generator that is seeded with a clock reading, tagged as a random
//! identifier, in hyphenated hexadecimal. Whoever knows the clock reading
//! knows the identifier: these are keys, not secrets.

use crate::digest::hex_text;
use rand::{RngCore, SeedableRng};
use vstd::prelude::*;

verus! {

/// The sixteen bytes that `rand::rngs::StdRng` gives first after
/// `seed_from_u64` with this seed.
pub uninterp spec fn seeded_bytes(seed: u64) -> Seq<u8>;

/// Sixteen bytes with the marks of a random identifier: the high half of
/// byte 6 says version 4, the two high bits of byte 8 say the common variant.
pub open spec fn tagged(bytes: Seq<u8>) -> Seq<u8> {
    bytes.update(6, (bytes[6] & 0x0f) | 0x40).update(8, (bytes[8] & 0x3f) | 0x80)
}

/// Sixteen bytes in lower-case hexadecimal, in groups of 8, 4, 4, 4 and 12
/// digits with hyphens between them.
pub open spec fn hyphenated(bytes: Seq<u8>) -> Seq<char> {
    hex_text(bytes.subrange(0, 4)) + seq!['-'] + hex_text(bytes.subrange(4, 6)) + seq!['-']
        + hex_text(bytes.subrange(6, 8)) + seq!['-'] + hex_text(bytes.subrange(8, 10)) + seq!['-']
        + hex_text(bytes.subrange(10, 16))
}

/// Seeds `rand::rngs::StdRng` with `seed_from_u64` and has `fill_bytes` fill
/// sixteen bytes: the bytes depend on the seed alone.
#[verifier::external_body]
fn random_bytes(seed: u64) -> (bytes: [u8; 16])
    ensures
        bytes@ == seeded_bytes(seed),
{
    let mut rng = rand::rngs::StdRng::seed_from_u64(seed);
    let mut bytes = [0u8; 16];
    rng.fill_bytes(&mut bytes);
    bytes
}

/// Has `uuid::Builder` mark sixteen bytes as version 4 of the common
/// variant and writes the identifier with `to_hyphenated`: the marked bytes
/// in lower-case hexadecimal with four hyphens.
#[verifier::external_body]
fn format_random_uuid(bytes: [u8; 16]) -> (text: String)
    ensures
        text@ == hyphenated(tagged(bytes@)),
{
    uuid::Builder::from_bytes(bytes)
        .set_version(uuid::Version::Random)
        .set_variant(uuid::Variant::RFC4122)
        .build()
        .to_hyphenated()
        .to_string()
}

/// A fresh identifier, made from a clock reading.
pub fn uuidv4(seed: u64) -> (id: String)
    ensures
        id@ == hyphenated(tagged(seeded_bytes(seed))),
        id@.len() == 36,
{
    let bytes = random_bytes(seed);
    format_random_uuid(bytes)
}

} // verus!
