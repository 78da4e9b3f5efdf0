//! The dispenser core: cursor arithmetic, blocks, the refill protocol and
//! token identity.

use fastsend::block::BLOCK_SIZE;
use fastsend::codec::{u16_from_be_bytes, u16_to_be_bytes, u32_from_be_bytes, u32_to_be_bytes};
use fastsend::cursor::{CursorError, TIMEBASE};
use fastsend::frame::{batch_indices, shuffled_batch_indices, QUEUE_SIZE};
use fastsend::token::Ident;
use fastsend::{Block, BlockFrame, ConstructBlock, Cursor, Token, ID};
use std::collections::HashSet;

#[test]
fn device_id_mixing_is_deterministic() {
    assert_eq!(fastsend::mix_device_id(5, 0x3C), 216);
    assert_eq!(fastsend::mix_device_id(0, 0), 0);
    // Mixing folds the random value in; with one set it must matter.
    assert_ne!(fastsend::mix_device_id(5, 0x3C), fastsend::mix_device_id(5, 0));
}

#[test]
fn cursor_raw_round_trip() {
    for raw in [0u32, 1, 12345, u32::MAX] {
        let cursor = Cursor::from_raw(raw);
        assert_eq!(cursor.into_inner(), raw);
    }
}

#[test]
fn cursor_bootstrap_window() {
    assert_eq!(Cursor::bootstrap(TIMEBASE), Ok(0));
    assert_eq!(Cursor::bootstrap(TIMEBASE + 5000), Ok(5000));
    assert_eq!(
        Cursor::bootstrap(TIMEBASE - 1),
        Err(CursorError::BeforeEpoch)
    );
    assert_eq!(
        Cursor::bootstrap(TIMEBASE + u32::MAX as u64 + 1),
        Err(CursorError::Overflow)
    );
}

#[test]
fn cursor_at_adds_elapsed() {
    let cursor = Cursor::at(100, 23).unwrap();
    assert_eq!(cursor.into_inner(), 123);
}

#[test]
fn cursor_overflow_is_fatal() {
    // A synthetic clock at the far edge of the 32-bit range must not
    // produce a usable cursor.
    assert_eq!(Cursor::at(u32::MAX, 1), Err(CursorError::Overflow));
    assert_eq!(Cursor::at(1, u32::MAX as u64), Err(CursorError::Overflow));
    assert!(Cursor::at(u32::MAX, 0).is_ok());
}

#[test]
fn cursor_next_is_strict() {
    let cursor = Cursor::from_raw(50);
    // A frozen clock never advances the cursor.
    assert!(cursor.next_from(Cursor::from_raw(50)).is_none());
    assert!(cursor.next_from(Cursor::from_raw(49)).is_none());
    // The first strictly newer reading is accepted.
    let next = cursor.next_from(Cursor::from_raw(51)).unwrap();
    assert_eq!(next.into_inner(), 51);
}

#[test]
fn be_bytes_round_trip() {
    let bytes = u32_to_be_bytes(0x0102_A3F4);
    assert_eq!(bytes, [0x01, 0x02, 0xA3, 0xF4]);
    assert_eq!(
        u32_from_be_bytes(bytes[0], bytes[1], bytes[2], bytes[3]),
        0x0102_A3F4
    );
    let half = u16_to_be_bytes(0xBEEF);
    assert_eq!(half, [0xBE, 0xEF]);
    assert_eq!(u16_from_be_bytes(half[0], half[1]), 0xBEEF);
}

#[test]
fn block_dispenses_exactly_its_size() {
    let cursor = Cursor::from_raw(7);
    let mut block = Token::construct_block(0, cursor, 1, 2);
    assert_eq!(block.remaining(), BLOCK_SIZE);
    for k in 0..BLOCK_SIZE {
        assert_eq!(block.remaining(), BLOCK_SIZE - k);
        assert!(block.next().is_some());
    }
    assert_eq!(block.remaining(), 0);
    assert!(block.next().is_none());
    assert!(block.next().is_none());
}

#[test]
fn ident_packs_big_endian() {
    let ident = Ident::new(0x1234, 0x56, 0x78);
    assert_eq!(ident.construct(), 0x1234_5678);
}

#[test]
fn token_id_composes_cursor_and_ident() {
    let token = Token::new(Cursor::from_raw(0xAABB_CCDD), Ident::new(0x0102, 0x03, 0x04));
    assert_eq!(token.id(), 0xAABB_CCDD_0102_0304);
}

#[test]
fn token_id_recovers_cursor() {
    // The high half of the identifier is exactly the raw cursor.
    let token = Token::new(Cursor::from_raw(99), Ident::new(5, 6, 7));
    let id = token.id();
    assert_eq!((id >> 32) as u32, 99);
    assert_eq!((id & 0xFFFF_FFFF) as u32, Ident::new(5, 6, 7).construct());
}

#[test]
fn token_serial_bytes_are_cursor_then_ident() {
    let token = Token::new(Cursor::from_raw(0x0102_0304), Ident::new(0x0506, 0x07, 0x08));
    assert_eq!(
        token.serial_bytes(),
        vec![0x01, 0x02, 0x03, 0x04, 0x05, 0x06, 0x07, 0x08]
    );
}

#[test]
fn construct_block_covers_batch_slots() {
    let cursor = Cursor::from_raw(3);
    let mut block = Token::construct_block(5, cursor, 0xAA, 0xBB);
    for k in 0..8u64 {
        let token = block.next().unwrap();
        let number = 5 * 8 + k;
        let expected = (3u64 << 32) | (number << 16) | (0xAA << 8) | 0xBB;
        assert_eq!(token.id(), expected);
    }
}

#[test]
fn batch_indices_are_ascending() {
    let indices = batch_indices();
    assert_eq!(indices.len(), QUEUE_SIZE);
    for (i, n) in indices.iter().enumerate() {
        assert_eq!(*n, i);
    }
}

#[test]
fn shuffled_batch_indices_are_a_permutation() {
    let indices = shuffled_batch_indices();
    assert_eq!(indices.len(), QUEUE_SIZE);
    let mut sorted = indices.clone();
    sorted.sort_unstable();
    for (i, n) in sorted.iter().enumerate() {
        assert_eq!(*n, i);
    }
    // A uniformly random permutation of 8192 indices is never the
    // identity in practice; this would fail if nothing were shuffled.
    assert_ne!(indices, batch_indices());
}

#[test]
fn refill_lock_is_single_flight() {
    let mut frame: BlockFrame<Token> = BlockFrame::new(Cursor::from_raw(0));
    assert!(frame.try_begin_refill());
    // A second claimant must lose while the first still holds the lock.
    assert!(!frame.try_begin_refill());
    frame.end_refill();
    assert!(frame.try_begin_refill());
    frame.end_refill();
}

#[test]
fn cursor_cell_is_monotone() {
    let mut frame: BlockFrame<Token> = BlockFrame::new(Cursor::from_raw(10));
    assert!(frame.try_begin_refill());
    // Stale candidates are rejected and the cursor stands still.
    assert!(!frame.advance_cursor(Cursor::from_raw(10)));
    assert!(!frame.advance_cursor(Cursor::from_raw(9)));
    assert_eq!(frame.current_cursor().into_inner(), 10);
    assert!(frame.advance_cursor(Cursor::from_raw(11)));
    assert_eq!(frame.current_cursor().into_inner(), 11);
    frame.end_refill();
}

#[test]
fn queue_never_exceeds_capacity() {
    let mut frame: BlockFrame<Token> = BlockFrame::new(Cursor::from_raw(0));
    assert!(frame.try_begin_refill());
    assert!(frame.advance_cursor(Cursor::from_raw(1)));
    let cursor = frame.current_cursor();
    let mut pushed = 0usize;
    // Offer one more block than the queue can hold.
    for n in 0..(QUEUE_SIZE as u16 + 1) {
        let block = Token::construct_block(n % QUEUE_SIZE as u16, cursor, 1, 2);
        if frame.push_block(block) {
            pushed += 1;
        }
        assert!(frame.queue_len() <= QUEUE_SIZE);
    }
    assert_eq!(pushed, QUEUE_SIZE);
    assert_eq!(frame.queue_len(), QUEUE_SIZE);
    frame.end_refill();
}

#[derive(Debug, Copy, Clone, PartialEq, Eq, Hash)]
struct Probe(usize);

impl ConstructBlock for Probe {
    fn construct_block(n: usize, _cursor: Cursor) -> Block<Probe> {
        let base = n * BLOCK_SIZE;
        Block::new([
            Probe(base),
            Probe(base + 1),
            Probe(base + 2),
            Probe(base + 3),
            Probe(base + 4),
            Probe(base + 5),
            Probe(base + 6),
            Probe(base + 7),
        ])
    }
}

#[test]
fn refill_fills_the_queue_once() {
    let mut frame: BlockFrame<Probe> = BlockFrame::new(Cursor::from_raw(0));
    let indices = shuffled_batch_indices();
    let (won, pushed) = frame.refill(&indices, Cursor::from_raw(1));
    assert!(won);
    assert_eq!(pushed, QUEUE_SIZE);
    assert_eq!(frame.queue_len(), QUEUE_SIZE);
    assert_eq!(frame.current_cursor().into_inner(), 1);
    // A refill against a full queue wins the lock but enqueues nothing.
    let (won2, pushed2) = frame.refill(&indices, Cursor::from_raw(2));
    assert!(won2);
    assert_eq!(pushed2, 0);
    assert_eq!(frame.queue_len(), QUEUE_SIZE);
    assert_eq!(frame.current_cursor().into_inner(), 2);
}

#[test]
fn refill_preserves_batch_identity() {
    // Every batch index of one generation appears exactly once, whatever
    // order the shuffle put them in.
    let mut frame: BlockFrame<Probe> = BlockFrame::new(Cursor::from_raw(0));
    let indices = shuffled_batch_indices();
    frame.refill(&indices, Cursor::from_raw(1));
    let mut seen: HashSet<usize> = HashSet::new();
    while let Some(mut block) = frame.next_block() {
        while let Some(probe) = block.next() {
            assert!(seen.insert(probe.0));
        }
    }
    assert_eq!(seen.len(), QUEUE_SIZE * BLOCK_SIZE);
}

fn drain_ids(count: usize) -> (HashSet<u64>, u32) {
    let mut frame: BlockFrame<Token> = BlockFrame::new(Cursor::from_raw(0));
    let mut cache: Option<Block<Token>> = None;
    let mut ids: HashSet<u64> = HashSet::new();
    while ids.len() < count {
        let needs_block = match &cache {
            Some(block) => block.remaining() == 0,
            None => true,
        };
        if needs_block {
            match frame.next_block() {
                Some(block) => cache = Some(block),
                None => {
                    let raw = frame.current_cursor().into_inner();
                    assert!(frame.try_begin_refill());
                    assert!(frame.advance_cursor(Cursor::from_raw(raw + 1)));
                    let cursor = frame.current_cursor();
                    let mut n: u16 = 0;
                    loop {
                        let block = Token::construct_block(n, cursor, 7, 9);
                        if !frame.push_block(block) {
                            break;
                        }
                        if n as usize == QUEUE_SIZE - 1 {
                            break;
                        }
                        n += 1;
                    }
                    frame.end_refill();
                }
            }
        } else {
            let token = cache.as_mut().unwrap().next().unwrap();
            assert!(ids.insert(token.id()), "duplicate identifier");
        }
    }
    (ids, frame.current_cursor().into_inner())
}

#[test]
fn sequential_ids_are_unique() {
    let (ids, _) = drain_ids(10999);
    assert_eq!(ids.len(), 10999);
}

#[test]
fn forced_drain_crosses_generations() {
    // One more identifier than a whole generation provides: the refill
    // must run again, the cursor must advance, and nothing may collide.
    let (ids, cursor) = drain_ids(QUEUE_SIZE * BLOCK_SIZE + 1);
    assert_eq!(ids.len(), QUEUE_SIZE * BLOCK_SIZE + 1);
    assert!(cursor >= 2);
}

#[test]
fn interleaved_consumers_stay_distinct() {
    // Two consumers draining blocks from one dispenser turn by turn still
    // never see the same identifier.
    let mut frame: BlockFrame<Token> = BlockFrame::new(Cursor::from_raw(0));
    assert!(frame.try_begin_refill());
    assert!(frame.advance_cursor(Cursor::from_raw(1)));
    let cursor = frame.current_cursor();
    for n in 0..64u16 {
        assert!(frame.push_block(Token::construct_block(n, cursor, 1, 2)));
    }
    frame.end_refill();
    let mut one = frame.next_block().unwrap();
    let mut two = frame.next_block().unwrap();
    let mut ids: HashSet<u64> = HashSet::new();
    loop {
        let a = one.next();
        let b = two.next();
        if a.is_none() && b.is_none() {
            break;
        }
        if let Some(token) = a {
            assert!(ids.insert(token.id()));
        }
        if let Some(token) = b {
            assert!(ids.insert(token.id()));
        }
    }
    assert_eq!(ids.len(), 2 * BLOCK_SIZE);
}
