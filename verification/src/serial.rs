//! Serial-number generation: the `Serial` / `Serialer` pair, the formatters'
//! shared digit machinery, and the time-stamped serial formatter.

use chrono::Datelike;
use chrono::TimeZone;
use chrono::Timelike;
use vstd::prelude::*;

pub mod auto_increment;
pub mod random62;
pub mod ticket;
pub mod uuid;

verus! {

/// Consumes a value and feeds its identifying bytes to a [`Serialer`],
/// much as `Hash` feeds a `Hasher`.
pub trait Serial {
    fn serial<S: Serialer>(self, serialer: &mut S);
}

/// A serial-number builder in the mould of `Hasher`: data is fed in as
/// bytes, and `build` consumes the builder to produce one serial number.
/// Distinct builder instances are meant to yield distinct serial numbers,
/// whether or not they were fed the same data.
pub trait Serialer {
    /// The serial-number type this builder produces.
    type Output;

    /// The error returned when a serial number cannot be built.
    type Error;

    /// The bytes fed to this builder so far.
    spec fn fed(&self) -> Seq<u8>;

    /// Consumes the builder and produces the serial number.
    fn build(self) -> Result<Self::Output, Self::Error> where Self: Sized;

    /// Appends `data` to the bytes the serial number will be built from.
    fn feed(&mut self, data: &[u8])
        ensures
            final(self).fed() == old(self).fed() + data@,
    ;

}

/// Feeds `data` to `serialer` and builds the serial number in one step.
pub fn oneshot<SR: Serialer, S: Serial>(serialer: SR, data: S) -> Result<SR::Output, SR::Error> {
    let mut serialer = serialer;
    data.serial(&mut serialer);
    serialer.build()
}

/// The byte for digit value `d` of a radix-36 alphabet: `digit_first`
/// puts `'0'..'9'` before `'A'..'Z'`, its opposite puts the letters first.
pub open spec fn spec_radix_byte(d: int, digit_first: bool) -> u8 {
    if digit_first {
        if d < 10 {
            (0x30 + d) as u8
        } else {
            (0x41 + (d - 10)) as u8
        }
    } else {
        if d < 26 {
            (0x41 + d) as u8
        } else {
            (0x30 + (d - 26)) as u8
        }
    }
}

/// The radix-`radix` digits of `n`, most significant first, as alphabet
/// bytes. A value below the radix (or a degenerate radix) is one digit.
pub open spec fn spec_radix_digits(n: int, radix: int, digit_first: bool) -> Seq<u8>
    decreases n,
    via spec_radix_digits_decreases
{
    if n < radix || radix < 2 || n < 0 {
        seq![spec_radix_byte(n, digit_first)]
    } else {
        spec_radix_digits(n / radix, radix, digit_first).push(
            spec_radix_byte(n % radix, digit_first),
        )
    }
}

#[via_fn]
proof fn spec_radix_digits_decreases(n: int, radix: int, digit_first: bool) {
    if !(n < radix || radix < 2 || n < 0) {
        assert(0 <= n / radix && n / radix < n) by (nonlinear_arith)
            requires
                2 <= radix <= n,
        ;
    }
}

/// The radix digits of `n` left-padded with the alphabet's zero byte to
/// `width` bytes; digits beyond `width` are never truncated.
pub open spec fn spec_radix_padded(n: int, radix: int, digit_first: bool, width: int) -> Seq<u8> {
    let digits = spec_radix_digits(n, radix, digit_first);
    if digits.len() >= width {
        digits
    } else {
        Seq::new((width - digits.len()) as nat, |i: int| spec_radix_byte(0, digit_first)) + digits
    }
}

/// Appends the radix digits of `n`, most significant first, to `buf`.
pub fn push_radix_digits(buf: &mut Vec<u8>, n: u64, radix: u64, digit_first: bool)
    requires
        2 <= radix <= 36,
    ensures
        final(buf)@ == old(buf)@ + spec_radix_digits(n as int, radix as int, digit_first),
    decreases n,
{
    if n < radix {
        let d = n as u8;
        let byte = if digit_first {
            if d < 10 {
                0x30 + d
            } else {
                0x41 + (d - 10)
            }
        } else {
            if d < 26 {
                0x41 + d
            } else {
                0x30 + (d - 26)
            }
        };
        buf.push(byte);
        proof {
            assert(final(buf)@ =~= old(buf)@ + spec_radix_digits(
                n as int,
                radix as int,
                digit_first,
            ));
        }
    } else {
        proof {
            let ni: int = n as int;
            let ri: int = radix as int;
            assert(0 <= ni / ri && ni / ri < ni) by (nonlinear_arith)
                requires
                    2 <= ri && ri <= ni,
            ;
        }
        push_radix_digits(buf, n / radix, radix, digit_first);
        let d = (n % radix) as u8;
        let byte = if digit_first {
            if d < 10 {
                0x30 + d
            } else {
                0x41 + (d - 10)
            }
        } else {
            if d < 26 {
                0x41 + d
            } else {
                0x30 + (d - 26)
            }
        };
        buf.push(byte);
        proof {
            assert(final(buf)@ =~= old(buf)@ + spec_radix_digits(
                n as int,
                radix as int,
                digit_first,
            ));
        }
    }
}

/// How many radix digits `n` has.
pub fn radix_len(n: u64, radix: u64) -> (len: u64)
    requires
        2 <= radix <= 36,
    ensures
        len == spec_radix_digits(n as int, radix as int, true).len(),
        len == spec_radix_digits(n as int, radix as int, false).len(),
        len >= 1,
    decreases n,
{
    if n < radix {
        1
    } else {
        proof {
            let ni: int = n as int;
            let ri: int = radix as int;
            assert(0 <= ni / ri && ni / ri < ni && ni / ri <= ni / 2) by (nonlinear_arith)
                requires
                    2 <= ri && ri <= ni,
            ;
            lemma_radix_digits_len(ni / ri, ri);
        }
        let rest = radix_len(n / radix, radix);
        rest + 1
    }
}

/// The digit count of `n` is the same for both alphabets and is at most
/// `n + 1`, which keeps digit counting within machine bounds.
pub proof fn lemma_radix_digits_len(n: int, radix: int)
    requires
        2 <= radix,
        0 <= n,
    ensures
        spec_radix_digits(n, radix, true).len() == spec_radix_digits(n, radix, false).len(),
        spec_radix_digits(n, radix, true).len() <= n + 1,
    decreases n,
{
    if n < radix {
    } else {
        assert(0 <= n / radix && n / radix <= n - 1) by (nonlinear_arith)
            requires
                2 <= radix,
                radix <= n,
        ;
        lemma_radix_digits_len(n / radix, radix);
    }
}

/// Ten to the `k`.
pub open spec fn spec_pow10(k: nat) -> int
    decreases k,
{
    if k == 0 {
        1
    } else {
        10 * spec_pow10((k - 1) as nat)
    }
}

/// A value below `10^k` has at most `k` decimal digits.
pub proof fn lemma_decimal_len_le(n: int, k: nat)
    requires
        0 <= n,
        1 <= k,
        n < spec_pow10(k),
    ensures
        spec_radix_digits(n, 10, true).len() <= k,
    decreases k,
{
    if n < 10 {
    } else {
        assert(spec_pow10(k) == 10 * spec_pow10((k - 1) as nat));
        vstd::arithmetic::div_mod::lemma_fundamental_div_mod(n, 10);
        lemma_decimal_len_le(n / 10, (k - 1) as nat);
    }
}

/// A byte that can appear in a serial number: a decimal digit or an
/// upper-case letter.
pub open spec fn is_serial_byte(b: u8) -> bool {
    (0x30 <= b < 0x3A) || (0x41 <= b < 0x5B)
}

/// Every byte of a radix rendering is a digit or an upper-case letter —
/// in particular, plain ASCII.
pub proof fn lemma_radix_digits_ascii(n: int, radix: int, digit_first: bool)
    requires
        0 <= n,
        2 <= radix <= 36,
    ensures
        forall|i: int|
            0 <= i < spec_radix_digits(n, radix, digit_first).len() ==> is_serial_byte(
                #[trigger] spec_radix_digits(n, radix, digit_first)[i],
            ),
    decreases n,
{
    let whole = spec_radix_digits(n, radix, digit_first);
    if n < radix {
        assert(whole == seq![spec_radix_byte(n, digit_first)]);
        assert(is_serial_byte(whole[0]));
    } else {
        assert(0 <= n / radix && n / radix < n) by (nonlinear_arith)
            requires
                2 <= radix <= n,
        ;
        lemma_radix_digits_ascii(n / radix, radix, digit_first);
        let prefix = spec_radix_digits(n / radix, radix, digit_first);
        assert(whole == prefix.push(spec_radix_byte(n % radix, digit_first)));
        assert forall|i: int| 0 <= i < whole.len() implies is_serial_byte(whole[i]) by {
            if i < prefix.len() {
                assert(whole[i] == prefix[i]);
            } else {
                assert(whole[i] == spec_radix_byte(n % radix, digit_first));
            }
        }
    }
}

/// The padded rendering keeps to the same alphabet as the digits.
pub proof fn lemma_radix_padded_ascii(n: int, radix: int, digit_first: bool, width: int)
    requires
        0 <= n,
        2 <= radix <= 36,
    ensures
        forall|i: int|
            0 <= i < spec_radix_padded(n, radix, digit_first, width).len() ==> is_serial_byte(
                #[trigger] spec_radix_padded(n, radix, digit_first, width)[i],
            ),
{
    lemma_radix_digits_ascii(n, radix, digit_first);
}

/// The characters of a sequence of ASCII bytes, one character per byte.
pub open spec fn spec_ascii(bytes: Seq<u8>) -> Seq<char> {
    bytes.map_values(|b: u8| b as char)
}

/// Relies on `String::from_utf8`: bytes below 128 are ASCII, hence valid
/// UTF-8, and decode one byte to one character with the same code point.
#[verifier::external_body]
pub(crate) fn ascii_string(bytes: &Vec<u8>) -> (s: String)
    requires
        forall|i: int| 0 <= i < bytes@.len() ==> bytes@[i] < 128,
    ensures
        s@ == spec_ascii(bytes@),
{
    String::from_utf8(bytes.clone()).expect("ascii bytes are valid utf-8")
}

/// Appends the radix digits of `n` left-padded with the alphabet's zero
/// byte to `width` bytes.
pub fn push_radix_padded(buf: &mut Vec<u8>, n: u64, radix: u64, width: usize, digit_first: bool)
    requires
        2 <= radix <= 36,
    ensures
        final(buf)@ == old(buf)@ + spec_radix_padded(
            n as int,
            radix as int,
            digit_first,
            width as int,
        ),
{
    let len = radix_len(n, radix);
    let zero: u8 = if digit_first {
        0x30
    } else {
        0x41
    };
    let total: usize = if (width as u64) > len {
        width - (len as usize)
    } else {
        0
    };
    let mut pad: usize = total;
    while pad > 0
        invariant
            pad <= total,
            zero == spec_radix_byte(0, digit_first),
            buf@ == old(buf)@ + Seq::new((total - pad) as nat, |i: int| zero),
        decreases pad,
    {
        buf.push(zero);
        pad = pad - 1;
        proof {
            assert(buf@ =~= old(buf)@ + Seq::new((total - pad) as nat, |i: int| zero));
        }
    }
    push_radix_digits(buf, n, radix, digit_first);
    proof {
        assert(final(buf)@ =~= old(buf)@ + spec_radix_padded(
            n as int,
            radix as int,
            digit_first,
            width as int,
        ));
    }
}

/// Renders `n` in the given radix, most significant digit first, padded
/// with the alphabet's zero to at least `size` characters. `digit_first`
/// selects the alphabet `0..9A..Z`; its opposite selects `A..Z0..9`.
pub fn to_string_radix(n: usize, radix: usize, size: usize, digit_first: bool) -> (s: String)
    requires
        2 <= radix <= 36,
    ensures
        s@ == spec_ascii(spec_radix_padded(n as int, radix as int, digit_first, size as int)),
{
    let mut buf: Vec<u8> = Vec::new();
    push_radix_padded(&mut buf, n as u64, radix as u64, size, digit_first);
    proof {
        lemma_radix_padded_ascii(n as int, radix as int, digit_first, size as int);
    }
    ascii_string(&buf)
}

/// A local calendar date and time of day, held as plain fields so the
/// formatters can be specified and verified over them. Only the local
/// clock of the machine can produce one for an instant; see
/// [`local_stamp`].
#[derive(Debug, Copy, Clone, PartialEq, Eq, Structural)]
pub struct LocalStamp {
    pub year: u32,
    pub month: u32,
    pub day: u32,
    pub hour: u32,
    pub minute: u32,
    pub second: u32,
}

impl LocalStamp {
    /// The calendar ranges every stamp drawn from a clock satisfies.
    pub open spec fn wf(self) -> bool {
        &&& 1000 <= self.year <= 9999
        &&& 1 <= self.month <= 12
        &&& 1 <= self.day <= 31
        &&& self.hour < 24
        &&& self.minute < 60
        &&& self.second < 60
    }
}

/// Relies on chrono's `TimeZone::timestamp_opt` for `chrono::Local`
/// together with the `Datelike` and `Timelike` accessors (`year`, `month`,
/// `day`, `hour`, `minute`, `second`): for an in-range number of seconds
/// past the UNIX epoch the conversion yields a single local date-time
/// whose calendar fields lie in their documented ranges. Local offsets
/// stay under a day, so for the instants admitted here — 1970 up to the
/// year 2242 — the local year stays between 1969 and 9999.
#[verifier::external_body]
pub(crate) fn local_stamp(secs: i64) -> (stamp: LocalStamp)
    requires
        0 <= secs < 0x2_0000_0000,
    ensures
        stamp.wf(),
        stamp.year >= 1969,
{
    let dt = chrono::Local.timestamp_opt(secs, 0).unwrap();
    LocalStamp {
        year: dt.year() as u32,
        month: dt.month(),
        day: dt.day(),
        hour: dt.hour(),
        minute: dt.minute(),
        second: dt.second(),
    }
}

/// The fourteen date-time digits of a serial number: `YYYYMMDDhhmmss`.
pub open spec fn spec_stamp_digits(stamp: LocalStamp) -> Seq<u8> {
    spec_radix_padded(stamp.year as int, 10, true, 4) + spec_radix_padded(
        stamp.month as int,
        10,
        true,
        2,
    ) + spec_radix_padded(stamp.day as int, 10, true, 2) + spec_radix_padded(
        stamp.hour as int,
        10,
        true,
        2,
    ) + spec_radix_padded(stamp.minute as int, 10, true, 2) + spec_radix_padded(
        stamp.second as int,
        10,
        true,
        2,
    )
}

/// The folding digest of the fed bytes: every byte is mixed into a 64-bit
/// accumulator by an exclusive-or followed by a wrapping multiplication,
/// so equal feeds always digest alike.
pub open spec fn spec_fold64(bytes: Seq<u8>) -> u64
    decreases bytes.len(),
{
    if bytes.len() == 0 {
        0xcbf2_9ce4_8422_2325u64
    } else {
        vstd::wrapping::u64_specs::wrapping_mul(
            spec_fold64(bytes.drop_last()) ^ (bytes.last() as u64),
            0x100_0000_01b3,
        )
    }
}

/// The four trailing digits of a time serial: the folded digest of the
/// fed bytes, its halves mixed, reduced below ten thousand.
pub open spec fn spec_serial_ident(bytes: Seq<u8>) -> int {
    ((spec_fold64(bytes) ^ (spec_fold64(bytes) >> 32)) % 10000) as int
}

/// Computes the folding digest of `bytes`.
fn fold64(bytes: &Vec<u8>) -> (digest: u64)
    ensures
        digest == spec_fold64(bytes@),
{
    let mut digest: u64 = 0xcbf2_9ce4_8422_2325;
    let mut i: usize = 0;
    while i < bytes.len()
        invariant
            i <= bytes@.len(),
            digest == spec_fold64(bytes@.take(i as int)),
        decreases bytes@.len() - i,
    {
        digest = (digest ^ (bytes[i] as u64)).wrapping_mul(0x100_0000_01b3);
        i = i + 1;
        proof {
            assert(bytes@.take(i as int).drop_last() =~= bytes@.take(i as int - 1));
            assert(bytes@.take(i as int).last() == bytes@[i as int - 1]);
        }
    }
    proof {
        assert(bytes@.take(bytes@.len() as int) =~= bytes@);
    }
    digest
}

/// The full 21-digit time serial: fourteen date-time digits, three device
/// digits, four digest digits.
pub open spec fn spec_time_serial(stamp: LocalStamp, device: u8, bytes: Seq<u8>) -> Seq<char> {
    spec_ascii(
        spec_stamp_digits(stamp) + spec_radix_padded(device as int, 10, true, 3)
            + spec_radix_padded(spec_serial_ident(bytes), 10, true, 4),
    )
}

/// How many serials one second is expected to accommodate; once the dedup
/// slot holds more entries than this, it is due for a cleanup.
pub const GLOBAL_SLOT_SIZE: usize = 9999;

/// The time-based serial formatter: its serial numbers are 21 decimal
/// digits, and the generation second can be read off the first fourteen.
///
/// The formatter itself only collects fed bytes; composing a serial also
/// takes the current local time and the device digits, and uniqueness
/// within a second is settled against a dedup slot ([`SerialSlot`]) by
/// whoever drives the formatter.
#[derive(Debug)]
pub struct TimeSerialer(Vec<u8>);

impl TimeSerialer {
    /// The bytes fed so far.
    pub closed spec fn fed_bytes(&self) -> Seq<u8> {
        self.0@
    }

    /// A fresh formatter with nothing fed.
    pub fn new() -> (serialer: TimeSerialer)
        ensures
            serialer.fed_bytes().len() == 0,
    {
        TimeSerialer(Vec::new())
    }

    /// Appends `data` to the bytes the serial digits will be derived from.
    pub fn feed(&mut self, data: &[u8])
        ensures
            final(self).fed_bytes() == old(self).fed_bytes() + data@,
    {
        self.0.extend_from_slice(data);
    }

    /// Renders the 21-digit serial for the local time `stamp` and the
    /// device digits `device`: fourteen date-time digits, three device
    /// digits, and four digits digested from the fed bytes.
    pub fn compose(&self, stamp: &LocalStamp, device: u8) -> (s: String)
        requires
            stamp.wf(),
        ensures
            s@ == spec_time_serial(*stamp, device, self.fed_bytes()),
            s@.len() == 21,
    {
        let mut buf: Vec<u8> = Vec::new();
        push_radix_padded(&mut buf, stamp.year as u64, 10, 4, true);
        push_radix_padded(&mut buf, stamp.month as u64, 10, 2, true);
        push_radix_padded(&mut buf, stamp.day as u64, 10, 2, true);
        push_radix_padded(&mut buf, stamp.hour as u64, 10, 2, true);
        push_radix_padded(&mut buf, stamp.minute as u64, 10, 2, true);
        push_radix_padded(&mut buf, stamp.second as u64, 10, 2, true);
        push_radix_padded(&mut buf, device as u64, 10, 3, true);
        let digest = fold64(&self.0);
        let ident = (digest ^ (digest >> 32)) % 10000;
        push_radix_padded(&mut buf, ident, 10, 4, true);
        proof {
            assert(buf@ =~= spec_stamp_digits(*stamp) + spec_radix_padded(
                device as int,
                10,
                true,
                3,
            ) + spec_radix_padded(spec_serial_ident(self.fed_bytes()), 10, true, 4));
            lemma_compose_segments(*stamp, device, self.fed_bytes());
            assert forall|i: int| 0 <= i < buf@.len() implies buf@[i] < 128 by {
                lemma_compose_ascii(*stamp, device, self.fed_bytes(), i);
            }
        }
        let s = ascii_string(&buf);
        s
    }
}

impl Default for TimeSerialer {
    /// A fresh formatter with nothing fed.
    fn default() -> (serialer: TimeSerialer)
        ensures
            serialer.fed_bytes().len() == 0,
    {
        TimeSerialer::new()
    }
}

/// Each segment of a composed time serial has exactly its padded width,
/// so the whole serial is 21 digits.
proof fn lemma_compose_segments(stamp: LocalStamp, device: u8, bytes: Seq<u8>)
    requires
        stamp.wf(),
    ensures
        spec_radix_padded(stamp.year as int, 10, true, 4).len() == 4,
        spec_radix_padded(stamp.month as int, 10, true, 2).len() == 2,
        spec_radix_padded(stamp.day as int, 10, true, 2).len() == 2,
        spec_radix_padded(stamp.hour as int, 10, true, 2).len() == 2,
        spec_radix_padded(stamp.minute as int, 10, true, 2).len() == 2,
        spec_radix_padded(stamp.second as int, 10, true, 2).len() == 2,
        spec_radix_padded(device as int, 10, true, 3).len() == 3,
        spec_radix_padded(spec_serial_ident(bytes), 10, true, 4).len() == 4,
{
    reveal_with_fuel(spec_pow10, 5);
    assert(spec_pow10(4) == 10000 && spec_pow10(3) == 1000 && spec_pow10(2) == 100);
    lemma_decimal_len_le(stamp.year as int, 4);
    lemma_decimal_len_le(stamp.month as int, 2);
    lemma_decimal_len_le(stamp.day as int, 2);
    lemma_decimal_len_le(stamp.hour as int, 2);
    lemma_decimal_len_le(stamp.minute as int, 2);
    lemma_decimal_len_le(stamp.second as int, 2);
    lemma_decimal_len_le(device as int, 3);
    lemma_decimal_len_le(spec_serial_ident(bytes), 4);
}

/// The dedup slot for time serials: the serials issued recently, each with
/// the second it was issued in. A serial is only handed out once its text
/// is absent from the slot, so every issued serial is unique for as long
/// as its generation second stays represented.
pub struct SerialSlot {
    /// Issued serials with their generation seconds, in insertion order.
    entries: Vec<(String, i64)>,
}

impl SerialSlot {
    /// The recorded serials with their generation seconds.
    pub closed spec fn entries_view(self) -> Seq<(String, i64)> {
        self.entries@
    }

    /// Whether some recorded serial reads `key`.
    pub open spec fn spec_contains(self, key: Seq<char>) -> bool {
        exists|i: int|
            0 <= i < self.entries_view().len() && (#[trigger] self.entries_view()[i]).0@ == key
    }

    /// The distinct generation seconds currently represented.
    pub open spec fn spec_timestamps(self) -> Set<i64> {
        self.entries_view().map_values(spec_entry_second()).to_set()
    }

    /// An empty slot.
    pub fn new() -> (slot: SerialSlot)
        ensures
            slot.entries_view().len() == 0,
    {
        SerialSlot { entries: Vec::new() }
    }

    /// How many serials are recorded.
    pub fn len(&self) -> (n: usize)
        ensures
            n == self.entries_view().len(),
    {
        self.entries.len()
    }

    /// Whether `serial` was already issued.
    pub fn contains(&self, serial: &String) -> (found: bool)
        ensures
            found == self.spec_contains(serial@),
    {
        let mut i: usize = 0;
        while i < self.entries.len()
            invariant
                i <= self.entries@.len(),
                forall|j: int| 0 <= j < i ==> self.entries@[j].0@ != serial@,
            decreases self.entries@.len() - i,
        {
            if self.entries[i].0 == *serial {
                proof {
                    assert(self.entries_view()[i as int].0@ == serial@);
                    assert(self.spec_contains(serial@));
                }
                return true;
            }
            i = i + 1;
        }
        false
    }

    /// Records `serial` for second `timestamp` unless it was already
    /// issued; reports whether it was fresh.
    pub fn try_insert(&mut self, serial: &String, timestamp: i64) -> (fresh: bool)
        ensures
            fresh == !old(self).spec_contains(serial@),
            fresh ==> final(self).entries_view() == old(self).entries_view().push(
                (*serial, timestamp),
            ),
            !fresh ==> *final(self) == *old(self),
    {
        if self.contains(serial) {
            false
        } else {
            self.entries.push((serial.clone(), timestamp));
            true
        }
    }

    /// Trims the slot once it spans more than one second: serials issued
    /// strictly before the median of the distinct recorded seconds can
    /// never be issued again, so exactly those survive whose second is at
    /// least that median. With at most one distinct second nothing is
    /// removed — dropping everything would disarm the dedup check.
    pub fn cleanup(&mut self) -> (mid: Option<i64>)
        ensures
            (mid is None) <==> old(self).spec_timestamps().len() <= 1,
            mid is None ==> *final(self) == *old(self),
            mid is Some ==> {
                &&& old(self).spec_timestamps().contains(mid->0)
                &&& exists|t: i64| old(self).spec_timestamps().contains(t) && t < mid->0
                &&& final(self).entries_view() == old(self).entries_view().filter(
                    spec_kept_since(mid->0),
                )
            },
    {
        let ghost all = self.entries@.map_values(spec_entry_second());
        let mut list: Vec<i64> = Vec::new();
        let mut i: usize = 0;
        while i < self.entries.len()
            invariant
                i <= self.entries@.len(),
                all == self.entries@.map_values(spec_entry_second()),
                forall|p: int, q: int| 0 <= p < q < list@.len() ==> list@[p] < list@[q],
                list@.to_set() == all.take(i as int).to_set(),
            decreases self.entries@.len() - i,
        {
            let t = self.entries[i].1;
            let mut j: usize = 0;
            while j < list.len() && list[j] < t
                invariant
                    j <= list@.len(),
                    forall|p: int| 0 <= p < j ==> list@[p] < t,
                decreases list@.len() - j,
            {
                j = j + 1;
            }
            let ghost before = list@;
            if j == list.len() {
                list.push(t);
                proof {
                    assert(list@ =~= before.insert(j as int, t));
                }
            } else if list[j] != t {
                list.insert(j, t);
            }
            proof {
                assert(all.take(i + 1 as int).drop_last() =~= all.take(i as int));
                assert(all.take(i + 1 as int).last() == all[i as int]);
                assert(all[i as int] == t);
                assert(all.take(i + 1 as int).to_set() =~= all.take(i as int).to_set().insert(t));
                if j < before.len() && before[j as int] == t {
                    assert(before.to_set().contains(t));
                    assert(list@.to_set() =~= before.to_set().insert(t));
                } else {
                    assert(list@ == before.insert(j as int, t));
                    lemma_insert_to_set(before, t, j as int);
                    assert(list@.to_set() =~= before.to_set().insert(t));
                }
            }
            i = i + 1;
        }
        proof {
            assert(all.take(self.entries@.len() as int) =~= all);
        }
        if list.len() <= 1 {
            proof {
                if list@.len() == 0 {
                    assert(all.to_set() =~= Set::<i64>::empty()) by {
                        assert forall|t: i64| !all.to_set().contains(t) by {
                            assert(!list@.to_set().contains(t));
                        }
                    }
                    assert(all.to_set().len() == 0);
                } else {
                    lemma_sorted_distinct(list@);
                    list@.unique_seq_to_set();
                }
            }
            return None;
        }
        let idx = list.len() / 2;
        let mid = list[idx];
        proof {
            lemma_sorted_distinct(list@);
            list@.unique_seq_to_set();
            assert(list@.contains(mid)) by {
                assert(list@[idx as int] == mid);
            }
            assert(list@[0] < mid);
            assert(list@.contains(list@[0]));
            assert(all.to_set().contains(mid));
            assert(all.to_set().contains(list@[0]));
            assert(all.to_set().len() == list@.len());
        }
        let ghost pre = self.entries@;
        let mut kept: Vec<(String, i64)> = Vec::new();
        let mut k: usize = 0;
        while k < self.entries.len()
            invariant
                k <= self.entries@.len(),
                self.entries@ == pre,
                kept@ == pre.take(k as int).filter(spec_kept_since(mid)),
            decreases self.entries@.len() - k,
        {
            let entry_ts = self.entries[k].1;
            proof {
                reveal_with_fuel(Seq::filter, 2);
                assert(pre.take(k + 1 as int).drop_last() =~= pre.take(k as int));
                assert(pre.take(k + 1 as int).last() == pre[k as int]);
            }
            if entry_ts >= mid {
                let serial = self.entries[k].0.clone();
                kept.push((serial, entry_ts));
                proof {
                    assert(kept@ =~= pre.take(k + 1 as int).filter(spec_kept_since(mid)));
                }
            } else {
                proof {
                    assert(kept@ =~= pre.take(k + 1 as int).filter(spec_kept_since(mid)));
                }
            }
            k = k + 1;
        }
        proof {
            assert(pre.take(pre.len() as int) =~= pre);
        }
        self.entries = kept;
        proof {
            assert(old(self).entries_view() == pre);
            assert(old(self).spec_timestamps() == all.to_set());
            assert(old(self).spec_timestamps().contains(mid));
            assert(old(self).spec_timestamps().contains(list@[0]) && list@[0] < mid);
            assert(old(self).spec_timestamps().len() > 1);
            assert(pre.filter(spec_kept_since(mid)) == pre.take(pre.len() as int).filter(
                spec_kept_since(mid),
            ));
            assert(self.entries_view() == pre.filter(spec_kept_since(mid)));
        }
        Some(mid)
    }
}

/// The predicate by which a cleanup at median second `mid` keeps entries:
/// those issued at or after `mid`.
pub open spec fn spec_kept_since(mid: i64) -> spec_fn((String, i64)) -> bool {
    |e: (String, i64)| e.1 >= mid
}

/// The generation second of a slot entry.
pub open spec fn spec_entry_second() -> spec_fn((String, i64)) -> i64 {
    |e: (String, i64)| e.1
}

/// Inserting an element into a sequence inserts it into the element set.
proof fn lemma_insert_to_set(s: Seq<i64>, t: i64, j: int)
    requires
        0 <= j <= s.len(),
    ensures
        s.insert(j, t).to_set() =~= s.to_set().insert(t),
{
    let inserted = s.insert(j, t);
    assert forall|x: i64| inserted.to_set().contains(x) implies s.to_set().insert(t).contains(
        x,
    ) by {
        let idx = choose|idx: int| 0 <= idx < inserted.len() && inserted[idx] == x;
        if idx < j {
            assert(s[idx] == x);
        } else if idx == j {
        } else {
            assert(s[idx - 1] == x);
        }
    }
    assert forall|x: i64| s.to_set().insert(t).contains(x) implies inserted.to_set().contains(
        x,
    ) by {
        if x == t {
            assert(inserted[j] == x);
        } else {
            let idx = choose|idx: int| 0 <= idx < s.len() && s[idx] == x;
            if idx < j {
                assert(inserted[idx] == x);
            } else {
                assert(inserted[idx + 1] == x);
            }
        }
    }
}

/// A strictly ascending sequence has no duplicates.
proof fn lemma_sorted_distinct(s: Seq<i64>)
    requires
        forall|p: int, q: int| 0 <= p < q < s.len() ==> s[p] < s[q],
    ensures
        s.no_duplicates(),
{
}

/// Every byte of a composed time serial is an ASCII digit.
proof fn lemma_compose_ascii(stamp: LocalStamp, device: u8, bytes: Seq<u8>, i: int)
    requires
        stamp.wf(),
    ensures
        0 <= i < (spec_stamp_digits(stamp) + spec_radix_padded(device as int, 10, true, 3)
            + spec_radix_padded(spec_serial_ident(bytes), 10, true, 4)).len() ==> (
        spec_stamp_digits(stamp) + spec_radix_padded(device as int, 10, true, 3)
            + spec_radix_padded(spec_serial_ident(bytes), 10, true, 4))[i] < 128,
{
    lemma_radix_padded_ascii(stamp.year as int, 10, true, 4);
    lemma_radix_padded_ascii(stamp.month as int, 10, true, 2);
    lemma_radix_padded_ascii(stamp.day as int, 10, true, 2);
    lemma_radix_padded_ascii(stamp.hour as int, 10, true, 2);
    lemma_radix_padded_ascii(stamp.minute as int, 10, true, 2);
    lemma_radix_padded_ascii(stamp.second as int, 10, true, 2);
    lemma_radix_padded_ascii(device as int, 10, true, 3);
    lemma_radix_padded_ascii(spec_serial_ident(bytes), 10, true, 4);
}

} // verus!
