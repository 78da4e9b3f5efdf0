//! A process-local dispenser of collision-free 64-bit identifiers.
//!
//! The core is a pre-allocated block pipeline: a monotone second-granularity
//! time anchor ([`cursor::Cursor`]) segregates refill generations, each refill
//! fills a bounded queue with fixed-size [`block::Block`]s of identity-carrying
//! tokens, and callers drain one block at a time into a per-thread cache.
//! Around the core stand several serial-number formatters.

use vstd::prelude::*;

pub mod block;
pub mod codec;
pub mod cursor;
pub mod frame;
pub mod serial;
pub mod token;

pub use block::Block;
pub use block::ConstructBlock;
pub use cursor::Cursor;
pub use frame::BlockFrame;
pub use serial::Serial;
pub use serial::Serialer;
pub use serial::TimeSerialer;
pub use token::Token;

verus! {

/// A value that can be consumed to produce one 64-bit identifier.
///
/// Consuming `self` makes it hard to draw two identifiers from one carrier by
/// accident; producing the identifier must neither fail nor suspend.
pub trait ID {
    fn id(self) -> u64;
}

/// One obfuscation round over a device identifier: rotate left by three bits,
/// then mix in the process-wide random value.
pub open spec fn spec_mix_round(id: u8, rv: u8) -> u8 {
    (((id % 32) * 8 + id / 32) as u8) ^ rv
}

/// Obfuscates a configured device identifier with the process-wide random
/// value `rv`, applying three rotate-and-mix rounds.
pub fn mix_device_id(id: u8, rv: u8) -> (mixed: u8)
    ensures
        mixed == spec_mix_round(spec_mix_round(spec_mix_round(id, rv), rv), rv),
{
    let mut mixed = id;
    mixed = ((mixed % 32) * 8 + mixed / 32) ^ rv;
    mixed = ((mixed % 32) * 8 + mixed / 32) ^ rv;
    mixed = ((mixed % 32) * 8 + mixed / 32) ^ rv;
    mixed
}

} // verus!
