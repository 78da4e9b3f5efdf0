//! The random base-62 serial formatter: thirty-five letters and digits
//! drawn from a cryptographic stream seeded by the fed bytes.

use crate::serial::Serialer;
use core::convert::Infallible;
use rand::distributions::Alphanumeric;
use rand::Rng;
use rand::SeedableRng;
use rand_chacha::rand_core::block::BlockRng;
use rand_chacha::ChaCha20Core;
use vstd::prelude::*;

verus! {

/// A character of the base-62 alphabet: a digit or a letter of either
/// case.
pub open spec fn is_base62_char(c: char) -> bool {
    ('0' <= c && c <= '9') || ('a' <= c && c <= 'z') || ('A' <= c && c <= 'Z')
}

/// What the seeded sampler returns for a given thirty-two-byte seed: a
/// sequence of characters determined by the seed alone.
pub uninterp spec fn base62_of(seed: Seq<u8>) -> Seq<char>;

/// The fed bytes arranged as a seed: truncated, or padded with zeros, to
/// thirty-two bytes.
pub open spec fn spec_seed32(bytes: Seq<u8>) -> Seq<u8> {
    Seq::new(
        32,
        |i: int|
            if i < bytes.len() {
                bytes[i]
            } else {
                0
            },
    )
}

/// Relies on `rand_chacha::ChaCha20Core::from_seed` driven through
/// `BlockRng` and sampled with rand's `Alphanumeric` distribution: the
/// stream is a pure function of the seed, and every sample is an ASCII
/// letter or digit. The first thirty-five samples are taken.
#[verifier::external_body]
fn chacha_base62(seed: &[u8; 32]) -> (s: String)
    ensures
        s@ == base62_of(seed@),
        s@.len() == 35,
        forall|i: int| 0 <= i < s@.len() ==> is_base62_char(#[trigger] s@[i]),
{
    BlockRng::new(ChaCha20Core::from_seed(*seed)).sample_iter(Alphanumeric).take(35).map(
        char::from,
    ).collect()
}

/// The random base-62 formatter: the fed bytes seed a deterministic
/// cryptographic stream, and the serial is the first thirty-five
/// characters sampled from it.
#[derive(Debug)]
pub struct Random62Serialer {
    /// The fed bytes the stream is seeded from.
    seed: Vec<u8>,
}

impl Random62Serialer {
    /// A fresh formatter with nothing fed.
    pub fn new() -> (serialer: Random62Serialer)
        ensures
            serialer.fed().len() == 0,
    {
        Random62Serialer { seed: Vec::new() }
    }
}

impl Serialer for Random62Serialer {
    type Output = String;

    type Error = Infallible;

    /// The bytes fed so far.
    closed spec fn fed(&self) -> Seq<u8> {
        self.seed@
    }

    /// Produces the serial: thirty-five base-62 characters determined by
    /// the first thirty-two fed bytes, zero-padded when fewer were fed.
    /// The build never fails.
    fn build(self) -> (serial: Result<String, Infallible>)
        ensures
            serial is Ok,
            serial->Ok_0@ == base62_of(spec_seed32(self.fed())),
            serial->Ok_0@.len() == 35,
            forall|i: int|
                0 <= i < serial->Ok_0@.len() ==> is_base62_char(#[trigger] serial->Ok_0@[i]),
    {
        let mut seed = [0u8; 32];
        let mut i: usize = 0;
        while i < 32 && i < self.seed.len()
            invariant
                i <= 32,
                seed@.len() == 32,
                forall|j: int|
                    0 <= j < seed@.len() ==> seed@[j] == (if j < i && j < self.fed().len() {
                        self.fed()[j]
                    } else {
                        0
                    }),
            decreases 32 - i,
        {
            seed[i] = self.seed[i];
            i = i + 1;
        }
        proof {
            assert(seed@ =~= spec_seed32(self.fed()));
        }
        Ok(chacha_base62(&seed))
    }

    /// Appends `data` to the seed bytes.
    fn feed(&mut self, data: &[u8]) {
        self.seed.extend_from_slice(data);
    }
}

} // verus!
