//! Tokens: the identity-carrying items the dispenser hands out.

use crate::block::{Block, BLOCK_SIZE};
use crate::codec::{be32, lemma_be32_round_trip, u16_to_be_bytes, u32_from_be_bytes, u32_to_be_bytes};
use crate::cursor::Cursor;
use crate::frame::QUEUE_SIZE;
use crate::serial::{Serial, Serialer};
use crate::ID;
use vstd::arithmetic::div_mod::lemma_fundamental_div_mod;
use vstd::prelude::*;

verus! {

/// The identity bytes of a token: a big-endian `u16` drawn from the
/// dispenser (batch index times block size plus slot offset), a device
/// byte and a thread byte. An `Ident` alone may repeat; only together
/// with a [`Cursor`] does it identify a token.
#[derive(Debug, Copy, Clone, PartialEq, Eq, Structural)]
pub struct Ident {
    /// High byte of the dispensed 16-bit number.
    a: u8,
    /// Low byte of the dispensed 16-bit number.
    b: u8,
    /// The device byte: the configured device identifier, or a process byte.
    c: u8,
    /// The thread byte, derived from the calling thread's identifier.
    d: u8,
}

impl Ident {
    /// The 32-bit value of the four identity bytes read in big-endian order.
    pub closed spec fn value(self) -> int {
        be32(self.a, self.b, self.c, self.d)
    }

    /// An ident's value always fits in 32 bits.
    pub proof fn lemma_value_range(self)
        ensures
            0 <= self.value() < 0x1_0000_0000,
    {
    }

    /// Builds the identity bytes for dispensed number `n`, device byte `c`
    /// and thread byte `d`.
    pub fn new(n: u16, c: u8, d: u8) -> (ident: Ident)
        ensures
            ident.value() == n * 0x1_0000 + c * 0x100 + d,
    {
        let bytes = u16_to_be_bytes(n);
        proof {
            lemma_fundamental_div_mod(n as int, 0x100);
        }
        Ident { a: bytes[0], b: bytes[1], c, d }
    }

    /// Packs the four identity bytes into one 32-bit value.
    pub fn construct(self) -> (value: u32)
        ensures
            value == self.value(),
    {
        u32_from_be_bytes(self.a, self.b, self.c, self.d)
    }
}

/// One fully independent identifier: the cursor of the refill generation
/// it was constructed in, plus the identity bytes within that generation.
#[derive(Debug, Copy, Clone, PartialEq, Eq, Structural)]
pub struct Token {
    cursor: Cursor,
    ident: Ident,
}

/// The 64-bit identifier of a token constructed for generation cursor
/// `cursor`, dispensed number `number` and salt bytes `c` and `d`: the
/// cursor in the high 32 bits, the identity bytes in the low 32.
pub open spec fn spec_token_id(cursor: u32, number: int, c: u8, d: u8) -> int {
    cursor * 0x1_0000_0000 + number * 0x1_0000 + c * 0x100 + d
}

impl Token {
    /// The cursor of the generation this token belongs to.
    pub closed spec fn spec_cursor(self) -> Cursor {
        self.cursor
    }

    /// This token's identity bytes.
    pub closed spec fn spec_ident(self) -> Ident {
        self.ident
    }

    /// The 64-bit identifier: cursor in the high half, identity bytes in
    /// the low half.
    pub open spec fn id_spec(self) -> int {
        self.spec_cursor().raw() * 0x1_0000_0000 + self.spec_ident().value()
    }

    /// The eight bytes a token feeds to a serialer: the cursor and then the
    /// identity bytes, both big-endian.
    pub open spec fn spec_serial_bytes(self) -> Seq<u8> {
        let raw = self.spec_cursor().raw() as int;
        seq![
            (raw / 0x100_0000) as u8,
            (raw / 0x1_0000 % 0x100) as u8,
            (raw / 0x100 % 0x100) as u8,
            (raw % 0x100) as u8,
        ] + self.spec_ident().byte_seq()
    }

    /// Pairs a cursor with identity bytes.
    pub fn new(cursor: Cursor, ident: Ident) -> (token: Token)
        ensures
            token.spec_cursor() == cursor,
            token.spec_ident() == ident,
    {
        Token { cursor, ident }
    }

    /// The bytes this token feeds to a serialer, as one vector.
    pub fn serial_bytes(&self) -> (bytes: Vec<u8>)
        ensures
            bytes@ == self.spec_serial_bytes(),
    {
        let raw = self.cursor.into_inner();
        let head = u32_to_be_bytes(raw);
        proof {
            lemma_be32_round_trip(head[0], head[1], head[2], head[3]);
        }
        let mut bytes: Vec<u8> = Vec::new();
        bytes.push(head[0]);
        bytes.push(head[1]);
        bytes.push(head[2]);
        bytes.push(head[3]);
        bytes.push(self.ident.a);
        bytes.push(self.ident.b);
        bytes.push(self.ident.c);
        bytes.push(self.ident.d);
        proof {
            assert(bytes@ =~= self.spec_serial_bytes());
        }
        bytes
    }

    /// Constructs the block of [`BLOCK_SIZE`] tokens for batch index `n` of
    /// the generation anchored at `cursor`, with device byte `c` and thread
    /// byte `d`: slot `k` carries the dispensed number `n * BLOCK_SIZE + k`,
    /// so one generation's numbers cover the 16-bit space exactly once.
    pub fn construct_block(n: u16, cursor: Cursor, c: u8, d: u8) -> (block: Block<Token>)
        requires
            n < QUEUE_SIZE,
        ensures
            block.wf(),
            block.dispensed() == 0,
            block.items().len() == BLOCK_SIZE,
            forall|k: int|
                0 <= k < BLOCK_SIZE ==> {
                    &&& (#[trigger] block.items()[k]).spec_cursor() == cursor
                    &&& block.items()[k].spec_ident().value() == (n * 8 + k) * 0x1_0000 + c * 0x100
                        + d
                    &&& block.items()[k].id_spec() == spec_token_id(cursor.raw(), n * 8 + k, c, d)
                },
    {
        let base = n * 8;
        let array = [
            Token::new(cursor, Ident::new(base, c, d)),
            Token::new(cursor, Ident::new(base + 1, c, d)),
            Token::new(cursor, Ident::new(base + 2, c, d)),
            Token::new(cursor, Ident::new(base + 3, c, d)),
            Token::new(cursor, Ident::new(base + 4, c, d)),
            Token::new(cursor, Ident::new(base + 5, c, d)),
            Token::new(cursor, Ident::new(base + 6, c, d)),
            Token::new(cursor, Ident::new(base + 7, c, d)),
        ];
        Block::new(array)
    }
}

impl Ident {
    /// The four identity bytes in feeding order.
    pub closed spec fn byte_seq(self) -> Seq<u8> {
        seq![self.a, self.b, self.c, self.d]
    }
}

impl ID for Token {
    /// The token's 64-bit identifier, infallibly and without suspension.
    fn id(self) -> (id: u64)
        ensures
            id == self.id_spec(),
    {
        let high = self.cursor.into_inner();
        let low = self.ident.construct();
        proof {
            self.ident.lemma_value_range();
        }
        high as u64 * 0x1_0000_0000 + low as u64
    }
}

impl Serial for Token {
    /// Feeds the cursor bytes and then the identity bytes, both big-endian.
    fn serial<S: Serialer>(self, serialer: &mut S)
        ensures
            final(serialer).fed() == old(serialer).fed() + self.spec_serial_bytes(),
    {
        let bytes = self.serial_bytes();
        serialer.feed(bytes.as_slice());
        proof {
            assert(final(serialer).fed() =~= old(serialer).fed() + self.spec_serial_bytes());
        }
    }
}

/// Distinct construction coordinates give distinct identifiers: two tokens
/// built with the same salt bytes differ in their 64-bit identifiers
/// whenever their generation cursors differ or, within one generation,
/// their dispensed numbers differ. Since every refill owns a fresh cursor
/// and one refill passes each dispensed number exactly once, all tokens of
/// one process are pairwise distinct.
pub proof fn lemma_token_ids_distinct(
    cursor1: u32,
    number1: int,
    cursor2: u32,
    number2: int,
    c: u8,
    d: u8,
)
    requires
        0 <= number1 < 0x1_0000,
        0 <= number2 < 0x1_0000,
        cursor1 != cursor2 || number1 != number2,
    ensures
        spec_token_id(cursor1, number1, c, d) != spec_token_id(cursor2, number2, c, d),
{
}

/// Within one refill generation, distinct batch-index and slot pairs give
/// distinct dispensed numbers, so no two slots of one generation collide.
pub proof fn lemma_dispensed_numbers_distinct(n1: int, k1: int, n2: int, k2: int)
    requires
        0 <= n1 < QUEUE_SIZE,
        0 <= n2 < QUEUE_SIZE,
        0 <= k1 < BLOCK_SIZE,
        0 <= k2 < BLOCK_SIZE,
        n1 != n2 || k1 != k2,
    ensures
        n1 * 8 + k1 != n2 * 8 + k2,
        0 <= n1 * 8 + k1 < 0x1_0000,
{
}

} // verus!
