//! The calls into other crates, with what is relied on of each.

use vstd::prelude::*;

verus! {

/// SHA256_LEN is the length of a SHA-256 digest in bytes.
pub const SHA256_LEN: usize = 32;

/// PUBLIC_KEY_LEN is the length of an encoded Ed25519 public key in bytes.
pub const PUBLIC_KEY_LEN: usize = 32;

/// The SHA-256 digest of `data`, as `sha2::Sha256::digest` computes it.
pub uninterp spec fn sha256(data: Seq<u8>) -> Seq<u8>;

/// Hash `data` with `sha2::Sha256::digest`.
///
/// Relied on: the digest is a function of the bytes alone, and it is 32 bytes
/// long. Nothing is claimed about which bytes it holds.
#[verifier::external_body]
pub(crate) fn sha256_digest(data: &[u8]) -> (digest: Vec<u8>)
    ensures
        digest@ == sha256(data@),
        digest@.len() == SHA256_LEN,
{
    <sha2::Sha256 as sha2::Digest>::digest(data).to_vec()
}

/// The lowercase hexadecimal digit for `value`.
pub open spec fn hex_digit(value: int) -> char {
    if value < 10 {
        ('0' as int + value) as char
    } else {
        ('a' as int + value - 10) as char
    }
}

/// `data` as lowercase hexadecimal text, two digits for each byte.
pub open spec fn hex_text(data: Seq<u8>) -> Seq<char> {
    Seq::new(
        2 * data.len(),
        |i: int|
            if i % 2 == 0 {
                hex_digit(data[i / 2] as int / 16)
            } else {
                hex_digit(data[i / 2] as int % 16)
            },
    )
}

/// Render `data` with `hex::encode`.
///
/// Relied on: each byte gives its high and then its low lowercase hexadecimal
/// digit.
#[verifier::external_body]
pub(crate) fn hex_encode(data: &[u8]) -> (text: String)
    ensures
        text@ == hex_text(data@),
{
    hex::encode(data)
}

/// Whether `bytes` encodes an Ed25519 public key, as
/// `ed25519_dalek::PublicKey::from_bytes` decides it.
pub uninterp spec fn is_public_key(bytes: Seq<u8>) -> bool;

/// Ask `ed25519_dalek::PublicKey::from_bytes` whether `bytes` is a public key.
///
/// Relied on: the answer is a function of the bytes alone, and every accepted
/// key is 32 bytes long. Nothing is claimed about which 32-byte strings are
/// points of the curve.
#[verifier::external_body]
pub(crate) fn public_key_is_valid(bytes: &[u8]) -> (valid: bool)
    ensures
        valid == is_public_key(bytes@),
        valid ==> bytes@.len() == PUBLIC_KEY_LEN,
{
    ed25519_dalek::PublicKey::from_bytes(bytes).is_ok()
}

/// Draws is a source of random numbers.
pub trait Draws {
    /// Draw a number below `bound`.
    fn draw_below(&mut self, bound: u64) -> (draw: u64)
        requires
            bound > 0,
        ensures
            draw < bound,
    ;
}

/// The seedable generator of the rand crate.
#[verifier::external_type_specification]
#[verifier::external_body]
pub struct ExStdRng(rand::rngs::StdRng);

/// The per-thread generator of the rand crate.
#[verifier::external_type_specification]
#[verifier::external_body]
pub struct ExThreadRng(rand::rngs::ThreadRng);

/// Draw a number below `bound` with `rand::Rng::gen_range` from a seedable generator.
///
/// Relied on: the number lies in the half-open range. Which one it is depends
/// on the generator's hidden state.
#[verifier::external_body]
fn std_rng_below(rng: &mut rand::rngs::StdRng, bound: u64) -> (draw: u64)
    requires
        bound > 0,
    ensures
        draw < bound,
{
    rand::Rng::gen_range(rng, 0..bound)
}

/// Draw a number below `bound` with `rand::Rng::gen_range` from the per-thread generator.
///
/// Relied on: the number lies in the half-open range. Which one it is depends
/// on the generator's hidden state.
#[verifier::external_body]
fn thread_rng_below(rng: &mut rand::rngs::ThreadRng, bound: u64) -> (draw: u64)
    requires
        bound > 0,
    ensures
        draw < bound,
{
    rand::Rng::gen_range(rng, 0..bound)
}

/// Get the generator of this thread with `rand::thread_rng`.
///
/// Nothing is claimed about the numbers it will give. The call panics where the
/// operating system has no entropy to seed the generator with.
#[verifier::external_body]
pub(crate) fn thread_generator() -> (rng: rand::rngs::ThreadRng) {
    rand::thread_rng()
}

impl Draws for rand::rngs::StdRng {
    fn draw_below(&mut self, bound: u64) -> (draw: u64) {
        std_rng_below(self, bound)
    }
}

impl Draws for rand::rngs::ThreadRng {
    fn draw_below(&mut self, bound: u64) -> (draw: u64) {
        thread_rng_below(self, bound)
    }
}

} // verus!
