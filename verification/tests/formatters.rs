//! The ticket, UUID and random base-62 formatters.

use fastsend::serial::random62::Random62Serialer;
use fastsend::serial::ticket::{
    format_u16, to_u16, TicketInspect, TicketSerialError, TicketSerialer,
};
use fastsend::serial::uuid::UUIDSerialer;
use fastsend::serial::{oneshot, to_string_radix};
use fastsend::token::Ident;
use fastsend::{Cursor, Serialer, Token};

#[test]
fn radix_strings_render_known_values() {
    assert_eq!(to_string_radix(255, 16, 2, true), "FF");
    assert_eq!(to_string_radix(0, 26, 2, false), "AA");
    assert_eq!(to_string_radix(35, 36, 1, true), "Z");
    assert_eq!(to_string_radix(7, 10, 5, true), "00007");
    // Values wider than the requested size are never truncated.
    assert_eq!(to_string_radix(256, 16, 2, true), "100");
}

#[test]
fn u16_helpers_match_big_endian() {
    assert_eq!(to_u16(&[0x12, 0x34]), 0x1234);
    assert_eq!(to_u16(&[0x7F]), 0x7F);
    assert_eq!(format_u16(0x1234, true), "04660");
    assert_eq!(format_u16(35, false), "000Z");
}

struct Accept;

impl TicketInspect<String> for Accept {
    fn inspect(&mut self, _candidate: &str) -> Result<bool, String> {
        Ok(false)
    }
}

struct AlwaysTaken;

impl TicketInspect<String> for AlwaysTaken {
    fn inspect(&mut self, _candidate: &str) -> Result<bool, String> {
        Ok(true)
    }
}

struct Failing;

impl TicketInspect<String> for Failing {
    fn inspect(&mut self, _candidate: &str) -> Result<bool, String> {
        Err(String::from("authority unreachable"))
    }
}

struct TakenTimes(usize);

impl TicketInspect<String> for TakenTimes {
    fn inspect(&mut self, _candidate: &str) -> Result<bool, String> {
        if self.0 > 0 {
            self.0 -= 1;
            Ok(true)
        } else {
            Ok(false)
        }
    }
}

fn fed_ticket() -> TicketSerialer {
    let mut serialer = TicketSerialer::new();
    serialer.feed(&[0, 0, 0, 0, 0x12, 0x34, 5, 6]);
    serialer
}

#[test]
fn ticket_renders_deterministic_parts() {
    // The date and time parts depend on the local clock's reading of the
    // fed seconds; the digit parts and the check code do not.
    let ticket = fed_ticket().build_with(&mut Accept).unwrap();
    let parts: Vec<&str> = ticket.split('-').collect();
    assert_eq!(parts.len(), 5);
    assert_eq!(parts[0].len(), 4);
    assert_eq!(parts[1].len(), 5);
    assert_eq!(parts[2], "04660");
    assert_eq!(parts[3], "01286");
    assert_eq!(parts[4], "EY");
}

#[test]
fn ticket_short_form_drops_middle_and_check() {
    let ticket = fed_ticket().short_repr().build_with(&mut Accept).unwrap();
    let parts: Vec<&str> = ticket.split('-').collect();
    assert_eq!(parts.len(), 3);
    assert_eq!(parts[2], "01286");
}

#[test]
fn ticket_no_sep_joins_everything() {
    let ticket = fed_ticket().no_sep().build_with(&mut Accept).unwrap();
    assert!(!ticket.contains('-'));
    assert_eq!(ticket.len(), 4 + 5 + 5 + 5 + 2);
    assert!(ticket.ends_with("EY"));
}

#[test]
fn ticket_lowercase_lowers_letters() {
    let ticket = fed_ticket().lowercase().build_with(&mut Accept).unwrap();
    assert_eq!(ticket, ticket.to_ascii_lowercase());
    assert!(ticket.ends_with("ey"));
    let parts: Vec<&str> = ticket.split('-').collect();
    assert_eq!(parts[2], "04660");
}

#[test]
fn ticket_alphabet_widens_the_digits() {
    let ticket = fed_ticket().alphabet().build_with(&mut Accept).unwrap();
    let parts: Vec<&str> = ticket.split('-').collect();
    // 0x1234 in base 36, four wide.
    assert_eq!(parts[2], "03LG");
    assert_eq!(parts[3].len(), 4);
}

#[test]
fn ticket_gives_up_after_max_retries() {
    let result = fed_ticket().build_with(&mut AlwaysTaken);
    assert!(matches!(result, Err(TicketSerialError::MaxRetry)));
    // A retry budget of one never even asks the authority.
    let result = fed_ticket().retry_times(1).build_with(&mut AlwaysTaken);
    assert!(matches!(result, Err(TicketSerialError::MaxRetry)));
}

#[test]
fn ticket_reports_authority_failure() {
    let result = fed_ticket().build_with(&mut Failing);
    match result {
        Err(TicketSerialError::InspectFailed(message)) => {
            assert_eq!(message, "authority unreachable");
        }
        other => panic!("expected an inspect failure, got {:?}", other.is_ok()),
    }
}

#[test]
fn ticket_borrows_seconds_on_collisions() {
    // Three collisions push the build three seconds later; the
    // non-temporal parts stay the same.
    let with_retries = fed_ticket().build_with(&mut TakenTimes(3)).unwrap();
    let immediate = fed_ticket().build_with(&mut Accept).unwrap();
    let a: Vec<&str> = with_retries.split('-').collect();
    let b: Vec<&str> = immediate.split('-').collect();
    assert_eq!(a[2], b[2]);
    assert_eq!(a[3], b[3]);
    assert_eq!(a[4], b[4]);
    assert_ne!(a[1], b[1]);
}

#[test]
fn uuid_v3_digests_md5() {
    let uuid = UUIDSerialer::new_v3().build().unwrap();
    assert_eq!(uuid.to_uuid(false), "d41d8cd9-8f00-3204-a980-0998ecf8427e");
    assert_eq!(uuid.to_uuid(true), "D41D8CD9-8F00-3204-A980-0998ECF8427E");

    let mut fed = UUIDSerialer::new_v3();
    fed.feed(b"hello");
    let uuid = fed.build().unwrap();
    assert_eq!(uuid.to_uuid(false), "5d41402a-bc4b-3a76-b971-9d911017c592");
}

#[test]
fn uuid_v5_digests_truncated_sha1() {
    let uuid = UUIDSerialer::new_v5().build().unwrap();
    assert_eq!(uuid.to_uuid(false), "da39a3ee-5e6b-5b0d-b255-bfef95601890");

    let mut fed = UUIDSerialer::new_v5();
    fed.feed(b"abc");
    let uuid = fed.build().unwrap();
    assert_eq!(uuid.to_uuid(false), "a9993e36-4706-516a-ba3e-25717850c26c");
}

#[test]
fn uuid_v4_is_random_but_well_formed() {
    let one = UUIDSerialer::new_v4().build().unwrap().to_uuid(false);
    let two = UUIDSerialer::new_v4().build().unwrap().to_uuid(false);
    for rendered in [&one, &two] {
        assert_eq!(rendered.len(), 36);
        let parts: Vec<&str> = rendered.split('-').collect();
        assert_eq!(parts.len(), 5);
        assert_eq!(
            [
                parts[0].len(),
                parts[1].len(),
                parts[2].len(),
                parts[3].len(),
                parts[4].len()
            ],
            [8, 4, 4, 4, 12]
        );
        assert!(parts[2].starts_with('4'));
        let variant = parts[3].chars().next().unwrap();
        assert!(matches!(variant, '8' | '9' | 'a' | 'b'));
    }
    // Two draws from a cryptographic source never coincide.
    assert_ne!(one, two);
}

#[test]
fn uuid_v4_ignores_fed_bytes() {
    let mut fed = UUIDSerialer::new_v4();
    fed.feed(b"ignored");
    let rendered = fed.build().unwrap().to_uuid(false);
    assert_eq!(rendered.len(), 36);
}

#[test]
fn random62_is_deterministic_in_its_seed() {
    let mut one = Random62Serialer::new();
    one.feed(b"seed material");
    let mut two = Random62Serialer::new();
    two.feed(b"seed material");
    let a = one.build().unwrap();
    let b = two.build().unwrap();
    assert_eq!(a, b);
    assert_eq!(a.len(), 35);
    assert!(a.chars().all(|c| c.is_ascii_alphanumeric()));
}

#[test]
fn random62_differs_across_seeds() {
    let mut one = Random62Serialer::new();
    one.feed(b"seed material");
    let two = Random62Serialer::new();
    let a = one.build().unwrap();
    let b = two.build().unwrap();
    assert_ne!(a, b);
    assert_eq!(b.len(), 35);
}

#[test]
fn random62_pads_short_seeds_with_zeros() {
    // A seed shorter than thirty-two bytes reads as zero-padded, so it
    // draws the same serial as its explicitly padded form.
    let mut short = Random62Serialer::new();
    short.feed(&[1, 2, 3]);
    let mut padded = Random62Serialer::new();
    let mut bytes = [0u8; 32];
    bytes[0] = 1;
    bytes[1] = 2;
    bytes[2] = 3;
    padded.feed(&bytes);
    assert_eq!(short.build().unwrap(), padded.build().unwrap());
}

#[test]
fn oneshot_feeds_then_builds() {
    let token = Token::new(Cursor::from_raw(1), Ident::new(2, 3, 4));
    let direct = {
        let mut serialer = UUIDSerialer::new_v3();
        serialer.feed(&token.serial_bytes());
        serialer.build().unwrap()
    };
    let shot = oneshot(UUIDSerialer::new_v3(), token).unwrap();
    assert_eq!(shot, direct);
}
