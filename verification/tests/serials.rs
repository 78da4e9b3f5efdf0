//! The time-stamped serial formatter, its dedup slot, and the
//! auto-increment formatter.

use fastsend::serial::auto_increment::{AutoIncrement, IncrState, FAILED, UNINITIALIZED};
use fastsend::serial::{LocalStamp, SerialSlot, GLOBAL_SLOT_SIZE};
use fastsend::token::Ident;
use fastsend::{Cursor, Serialer, TimeSerialer, Token};
use std::collections::HashSet;

fn stamp(year: u32, month: u32, day: u32, hour: u32, minute: u32, second: u32) -> LocalStamp {
    LocalStamp {
        year,
        month,
        day,
        hour,
        minute,
        second,
    }
}

#[test]
fn time_serial_has_expected_digits() {
    let serialer = TimeSerialer::new();
    let s = serialer.compose(&stamp(2021, 12, 9, 11, 30, 31), 42);
    assert_eq!(s, "202112091130310426945");
    assert_eq!(s.len(), 21);
}

#[test]
fn time_serial_digest_tracks_fed_bytes() {
    let mut serialer = TimeSerialer::new();
    serialer.feed(&[1, 2, 3]);
    let s = serialer.compose(&stamp(2021, 12, 9, 11, 30, 31), 42);
    assert_eq!(s, "202112091130310420547");
    // Feeding in pieces digests the same as feeding at once.
    let mut split = TimeSerialer::default();
    split.feed(&[1]);
    split.feed(&[2, 3]);
    assert_eq!(split.compose(&stamp(2021, 12, 9, 11, 30, 31), 42), s);
}

#[test]
fn time_serial_pads_every_field() {
    let serialer = TimeSerialer::new();
    let s = serialer.compose(&stamp(1999, 1, 2, 3, 4, 5), 7);
    assert_eq!(&s[..14], "19990102030405");
    assert_eq!(&s[14..17], "007");
}

#[test]
fn token_feeds_its_eight_bytes() {
    let token = Token::new(Cursor::from_raw(0x01020304), Ident::new(0x0506, 0x07, 0x08));
    let mut serialer = TimeSerialer::new();
    let bytes = token.serial_bytes();
    serialer.feed(&bytes);
    let mut direct = TimeSerialer::new();
    direct.feed(&[1, 2, 3, 4, 5, 6, 7, 8]);
    let at = stamp(2021, 12, 9, 11, 30, 31);
    assert_eq!(serialer.compose(&at, 0), direct.compose(&at, 0));
}

#[test]
fn slot_rejects_duplicates() {
    let mut slot = SerialSlot::new();
    let serial = String::from("202112091130310420547");
    assert!(slot.try_insert(&serial, 100));
    assert!(!slot.try_insert(&serial, 101));
    assert!(slot.contains(&serial));
    assert!(!slot.contains(&String::from("something else")));
    assert_eq!(slot.len(), 1);
}

#[test]
fn slot_cleanup_drops_settled_seconds() {
    let mut slot = SerialSlot::new();
    assert!(slot.try_insert(&String::from("a"), 1));
    assert!(slot.try_insert(&String::from("b"), 1));
    assert!(slot.try_insert(&String::from("c"), 2));
    assert!(slot.try_insert(&String::from("d"), 3));
    // Distinct seconds are 1, 2, 3; the median is 2, so the second-1
    // serials can never recur and are dropped.
    assert_eq!(slot.cleanup(), Some(2));
    assert_eq!(slot.len(), 2);
    assert!(!slot.contains(&String::from("a")));
    assert!(!slot.contains(&String::from("b")));
    assert!(slot.contains(&String::from("c")));
    assert!(slot.contains(&String::from("d")));
}

#[test]
fn slot_cleanup_spares_a_single_second() {
    // Trimming a slot that spans one second would disarm the dedup
    // check, so nothing is removed.
    let mut slot = SerialSlot::new();
    assert!(slot.try_insert(&String::from("a"), 9));
    assert!(slot.try_insert(&String::from("b"), 9));
    assert_eq!(slot.cleanup(), None);
    assert_eq!(slot.len(), 2);
    let mut empty = SerialSlot::new();
    assert_eq!(empty.cleanup(), None);
}

#[test]
fn time_serials_stay_unique_under_load() {
    // Ten thousand nine hundred ninety-nine serials from one driver:
    // colliding digest digits are pushed into later seconds, and every
    // serial stays 21 digits with its generation time up front.
    let mut issued: HashSet<String> = HashSet::new();
    let mut count = 0usize;
    for i in 0..10999u32 {
        let mut serialer = TimeSerialer::new();
        serialer.feed(&i.to_be_bytes());
        let mut ts: u64 = 0;
        loop {
            let at = stamp(
                2021,
                12,
                9,
                ((ts / 3600) % 24) as u32,
                ((ts / 60) % 60) as u32,
                (ts % 60) as u32,
            );
            let serial = serialer.compose(&at, 42);
            assert_eq!(serial.len(), 21);
            let expected_prefix = format!(
                "{:04}{:02}{:02}{:02}{:02}{:02}",
                2021,
                12,
                9,
                (ts / 3600) % 24,
                (ts / 60) % 60,
                ts % 60
            );
            assert_eq!(&serial[..14], expected_prefix);
            if issued.insert(serial) {
                count += 1;
                break;
            }
            ts += 1;
        }
    }
    assert_eq!(count, 10999);
    assert_eq!(issued.len(), 10999);
    assert!(GLOBAL_SLOT_SIZE < issued.len());
}

struct PlusOne;

impl AutoIncrement for PlusOne {
    fn incr(&mut self, current: i64) -> i64 {
        current + 1
    }
}

struct Stuck;

impl AutoIncrement for Stuck {
    fn incr(&mut self, current: i64) -> i64 {
        current
    }
}

struct NotReady;

impl AutoIncrement for NotReady {
    fn incr(&mut self, _current: i64) -> i64 {
        UNINITIALIZED
    }
}

#[test]
fn incr_serial_renders_prefix_padding_and_suffix() {
    let mut state = IncrState::<PlusOne>::builder()
        .with_start(10)
        .with_prefix("INV")
        .with_padding(6)
        .build(PlusOne);
    let serial = state.incr().build().unwrap();
    // Ident 11 padded to six digits, suffix counter stepped from 0 to 01.
    assert_eq!(serial, "INV00001101");
    let serial2 = state.incr().build().unwrap();
    // Suffix 1 rotates to 2 and bumps to 3.
    assert_eq!(serial2, "INV00001203");
}

#[test]
fn incr_padding_needs_a_prefix() {
    let mut bare = IncrState::<PlusOne>::builder()
        .with_start(0)
        .with_padding(6)
        .build(PlusOne);
    // Without a prefix the padding request is ignored.
    assert_eq!(bare.incr().build().unwrap(), "101");
}

#[test]
fn incr_reports_uninitialized_engine() {
    let mut state = IncrState::<NotReady>::builder().build(NotReady);
    assert_eq!(state.incr().build(), Err(UNINITIALIZED));
}

#[test]
fn incr_reports_stalled_engine() {
    let mut state = IncrState::<Stuck>::builder().with_start(5).build(Stuck);
    assert_eq!(state.incr().build(), Err(FAILED));
}

#[test]
fn incr_suffix_seed_shifts_the_suffix() {
    let mut seeded = IncrState::<PlusOne>::builder()
        .with_start(0)
        .with_suffix_seed(0xAB)
        .build(PlusOne);
    // 0xAB rotates to 0x57 and bumps to 0x58 = 88.
    assert_eq!(seeded.incr().build().unwrap(), "188");
}

#[test]
fn incr_idents_grow_strictly() {
    let mut state = IncrState::<PlusOne>::builder().with_start(0).build(PlusOne);
    let mut seen: HashSet<String> = HashSet::new();
    for _ in 0..100 {
        assert!(seen.insert(state.incr().build().unwrap()));
    }
    assert_eq!(seen.len(), 100);
}
