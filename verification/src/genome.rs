//! Genome derivation: byte-wise recombination of two parent genomes, and the
//! pseudo-random 16-byte values drawn for fresh assets and selector masks.
//!
//! `mix` is a pure function: for every byte position, the selector chooses,
//! bit by bit, which parent's bit survives.  `random_value` turns a randomness
//! seed, the caller identity and a per-call sequence number into a 16-byte
//! value deterministically, so replaying the same inputs reproduces the same
//! genome.

use vstd::prelude::*;

verus! {

/// One byte of a child genome: each selector bit picks parent `a`'s bit (bit
/// set) or parent `b`'s bit (bit clear).
pub open spec fn mix_byte(a: u8, b: u8, s: u8) -> u8 {
    (s & a) | (!s & b)
}

/// The whole child genome, byte by byte.
pub open spec fn mix_spec(a: Seq<u8>, b: Seq<u8>, sel: Seq<u8>) -> Seq<u8> {
    Seq::new(a.len(), |i: int| mix_byte(a[i], b[i], sel[i]))
}

/// Combine two parent genomes under a selector mask.
pub fn mix(dna_a: &[u8; 16], dna_b: &[u8; 16], selector: &[u8; 16]) -> (child: [u8; 16])
    ensures
        child@ == mix_spec(dna_a@, dna_b@, selector@),
{
    let mut child: [u8; 16] = [0u8; 16];
    for i in 0..16
        invariant
            forall|j: int| 0 <= j < i ==> child@[j] == mix_byte(dna_a@[j], dna_b@[j], selector@[j]),
    {
        child[i] = (selector[i] & dna_a[i]) | (!selector[i] & dna_b[i]);
    }
    proof {
        assert(child@ =~= mix_spec(dna_a@, dna_b@, selector@));
    }
    child
}

/// A `u64` as its eight little-endian bytes.
pub open spec fn u64_le_bytes(x: u64) -> Seq<u8> {
    seq![
        (x & 0xff) as u8,
        ((x >> 8) & 0xff) as u8,
        ((x >> 16) & 0xff) as u8,
        ((x >> 24) & 0xff) as u8,
        ((x >> 32) & 0xff) as u8,
        ((x >> 40) & 0xff) as u8,
        ((x >> 48) & 0xff) as u8,
        ((x >> 56) & 0xff) as u8,
    ]
}

/// A `u32` as its four little-endian bytes.
pub open spec fn u32_le_bytes(x: u32) -> Seq<u8> {
    seq![
        (x & 0xff) as u8,
        ((x >> 8) & 0xff) as u8,
        ((x >> 16) & 0xff) as u8,
        ((x >> 24) & 0xff) as u8,
    ]
}

/// An optional sequence number: a presence tag, then the number itself.
pub open spec fn option_u32_bytes(x: Option<u32>) -> Seq<u8> {
    match x {
        Option::None => seq![0u8],
        Option::Some(v) => seq![1u8] + u32_le_bytes(v),
    }
}

/// The bytes hashed to draw a pseudo-random value: the randomness seed,
/// then the caller identity, then the per-call sequence number.
pub open spec fn random_payload(seed: Seq<u8>, sender: u64, sequence: Option<u32>) -> Seq<u8> {
    seed + u64_le_bytes(sender) + option_u32_bytes(sequence)
}

/// The 16-byte digest that the hashing collaborator computes; it depends on
/// the input bytes alone.
pub uninterp spec fn blake2_128_of(data: Seq<u8>) -> Seq<u8>;

/// Relies on `sp_io::hashing::blake2_128`: a 128-bit digest of the input
/// bytes, a pure function of its argument.
#[verifier::external_body]
fn blake2_128(data: &Vec<u8>) -> (digest: [u8; 16])
    ensures
        digest@ == blake2_128_of(data@),
{
    sp_io::hashing::blake2_128(data.as_slice())
}

/// Draw the deterministic pseudo-random 16-byte value for one request:
/// hash the randomness seed together with the caller identity and the
/// per-call sequence number.
pub fn random_value(seed: &[u8; 32], sender: u64, sequence: Option<u32>) -> (value: [u8; 16])
    ensures
        value@ == blake2_128_of(random_payload(seed@, sender, sequence)),
{
    let mut payload: Vec<u8> = Vec::new();
    for i in 0..32
        invariant
            payload@ =~= seed@.subrange(0, i as int),
    {
        payload.push(seed[i]);
    }
    payload.push((sender & 0xff) as u8);
    payload.push(((sender >> 8) & 0xff) as u8);
    payload.push(((sender >> 16) & 0xff) as u8);
    payload.push(((sender >> 24) & 0xff) as u8);
    payload.push(((sender >> 32) & 0xff) as u8);
    payload.push(((sender >> 40) & 0xff) as u8);
    payload.push(((sender >> 48) & 0xff) as u8);
    payload.push(((sender >> 56) & 0xff) as u8);
    match sequence {
        Option::None => {
            payload.push(0u8);
        },
        Option::Some(v) => {
            payload.push(1u8);
            payload.push((v & 0xff) as u8);
            payload.push(((v >> 8) & 0xff) as u8);
            payload.push(((v >> 16) & 0xff) as u8);
            payload.push(((v >> 24) & 0xff) as u8);
        },
    }
    proof {
        assert(payload@ =~= random_payload(seed@, sender, sequence));
    }
    blake2_128(&payload)
}

} // verus!
