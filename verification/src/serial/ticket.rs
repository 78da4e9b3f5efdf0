//! The configurable ticket formatter: letter-and-digit serials for
//! devices, assets or events, checked for uniqueness against an external
//! authority and re-built one borrowed second later on a collision.

use crate::codec::{be16, be32, u16_from_be_bytes, u32_from_be_bytes};
use crate::serial::{
    ascii_string, lemma_radix_padded_ascii, local_stamp, push_radix_padded, spec_ascii,
    spec_radix_padded, LocalStamp,
};
use vstd::prelude::*;

verus! {

/// Why a ticket could not be built.
#[derive(Debug)]
pub enum TicketSerialError<E> {
    /// The external uniqueness check itself failed.
    InspectFailed(E),
    /// Every retry produced a candidate the authority already knew.
    MaxRetry,
    /// The fed data could not provide the ticket's build parameters.
    DataNotEnough,
}

/// The external uniqueness authority a ticket is checked against:
/// `Ok(true)` reports that the candidate serial is already taken and a
/// new candidate must be built.
pub trait TicketInspect<E> {
    fn inspect(&mut self, candidate: &str) -> Result<bool, E>;
}

/// The byte `b` of the fed data, read as if the data were padded with
/// zeros to at least eight bytes.
pub open spec fn spec_padded8(data: Seq<u8>, i: int) -> u8 {
    if 0 <= i < data.len() {
        data[i]
    } else {
        0
    }
}

/// The byte stream the build parameters are drawn from: the first eight
/// bytes zero-padded, then the rest of the fed data unchanged.
pub open spec fn spec_ticket_stream(data: Seq<u8>) -> Seq<u8> {
    if data.len() <= 8 {
        Seq::new(8, |i: int| spec_padded8(data, i))
    } else {
        Seq::new(8, |i: int| spec_padded8(data, i)) + data.skip(8)
    }
}

/// The seconds parameter of a ticket: the first four padded bytes,
/// big-endian.
pub open spec fn spec_ticket_ts(data: Seq<u8>) -> int {
    be32(spec_padded8(data, 0), spec_padded8(data, 1), spec_padded8(data, 2), spec_padded8(data, 3))
}

/// The middle digit sequence of a ticket: padded bytes four and five,
/// big-endian.
pub open spec fn spec_ticket_ddp1(data: Seq<u8>) -> int {
    be16(spec_padded8(data, 4), spec_padded8(data, 5))
}

/// The trailing digit bytes of a ticket: padded bytes six and seven, then
/// everything the fed data holds beyond its first eight bytes.
pub open spec fn spec_ticket_ddp2(data: Seq<u8>) -> Seq<u8> {
    if data.len() <= 8 {
        seq![spec_padded8(data, 6), spec_padded8(data, 7)]
    } else {
        seq![spec_padded8(data, 6), spec_padded8(data, 7)] + data.skip(8)
    }
}

/// One step of the check-code mix: rotate the accumulator left five bits,
/// then fold in the byte.
pub open spec fn spec_mix(auth: u8, b: u8) -> u8 {
    (((auth % 8) * 32 + auth / 8) as u8) ^ b
}

/// The check code of a byte stream: every byte folded into an
/// all-ones accumulator by [`spec_mix`].
pub open spec fn spec_auth(stream: Seq<u8>) -> u8
    decreases stream.len(),
{
    if stream.len() == 0 {
        0xFF
    } else {
        spec_mix(spec_auth(stream.drop_last()), stream.last())
    }
}

/// The ticket's year part counts from this year, which keeps it to two
/// base-26 letters until far into the twenty-sixth century.
pub const YEAR_OFFSET: u32 = 1918;

/// The date bytes of a ticket: the year distance in two base-26 letters,
/// the month and day as single wide-radix digits counted from zero.
pub open spec fn spec_ticket_head(stamp: LocalStamp) -> Seq<u8> {
    spec_radix_padded(stamp.year - YEAR_OFFSET, 26, false, 2) + spec_radix_padded(
        stamp.month - 1,
        12,
        true,
        1,
    ) + spec_radix_padded(stamp.day - 1, 31, true, 1)
}

/// The time bytes of a ticket: the hour as one base-24 digit, minute and
/// second as two base-36 digits each.
pub open spec fn spec_ticket_left(stamp: LocalStamp) -> Seq<u8> {
    spec_radix_padded(stamp.hour as int, 24, true, 1) + spec_radix_padded(
        stamp.minute as int,
        36,
        true,
        2,
    ) + spec_radix_padded(stamp.second as int, 36, true, 2)
}

/// A 16-bit number rendered for a ticket: five decimal digits, or four
/// base-36 digits when letters are allowed.
pub open spec fn spec_format_u16(n: int, decimal_only: bool) -> Seq<u8> {
    if decimal_only {
        spec_radix_padded(n, 10, true, 5)
    } else {
        spec_radix_padded(n, 36, true, 4)
    }
}

/// The trailing digit bytes rendered two bytes at a time: each pair is
/// read big-endian and formatted; a final lone byte is formatted alone.
pub open spec fn spec_ticket_tail(ddp2: Seq<u8>, decimal_only: bool) -> Seq<u8>
    decreases ddp2.len(),
{
    if ddp2.len() == 0 {
        Seq::empty()
    } else if ddp2.len() == 1 {
        spec_format_u16(ddp2[0] as int, decimal_only)
    } else {
        spec_format_u16(be16(ddp2[0], ddp2[1]), decimal_only) + spec_ticket_tail(
            ddp2.skip(2),
            decimal_only,
        )
    }
}

/// A lower-cased serial byte: letters gain the case bit, digits and the
/// separator pass through.
pub open spec fn spec_lower_byte() -> spec_fn(u8) -> u8 {
    |b: u8|
        if 0x41 <= b < 0x5B {
            (b + 0x20) as u8
        } else {
            b
        }
}

/// The full ticket, before casing: date, time, middle digits, trailing
/// digits and check code, separated when a separator is configured; the
/// short form drops the middle digits and the check code.
pub open spec fn spec_ticket_bytes(
    stamp: LocalStamp,
    ddp1: int,
    ddp2: Seq<u8>,
    auth: u8,
    short_repr: bool,
    minus_sep: bool,
    decimal_only: bool,
) -> Seq<u8> {
    let sep: Seq<u8> = if minus_sep {
        seq![0x2Du8]
    } else {
        Seq::empty()
    };
    let head = spec_ticket_head(stamp);
    let left = spec_ticket_left(stamp);
    let tail = spec_ticket_tail(ddp2, decimal_only);
    if short_repr {
        head + sep + left + sep + tail
    } else {
        head + sep + left + sep + spec_format_u16(ddp1, decimal_only) + sep + tail + sep
            + spec_radix_padded((auth % 255) as int, 26, false, 2)
    }
}

/// The characters of the finished ticket for one local time.
pub open spec fn spec_ticket_serial(
    stamp: LocalStamp,
    data: Seq<u8>,
    short_repr: bool,
    minus_sep: bool,
    lowercase: bool,
    decimal_only: bool,
) -> Seq<char> {
    let bytes = spec_ticket_bytes(
        stamp,
        spec_ticket_ddp1(data),
        spec_ticket_ddp2(data),
        spec_auth(spec_ticket_stream(data)),
        short_repr,
        minus_sep,
        decimal_only,
    );
    if lowercase {
        spec_ascii(bytes.map_values(spec_lower_byte()))
    } else {
        spec_ascii(bytes)
    }
}

/// Reads one or two bytes as a 16-bit number, big-endian.
pub fn to_u16(s: &[u8]) -> (n: u16)
    requires
        1 <= s@.len() <= 2,
    ensures
        s@.len() == 2 ==> n == be16(s@[0], s@[1]),
        s@.len() == 1 ==> n == s@[0],
{
    if s.len() == 2 {
        u16_from_be_bytes(s[0], s[1])
    } else {
        s[0] as u16
    }
}

/// Appends the rendering of a 16-bit number for a ticket.
fn push_format_u16(buf: &mut Vec<u8>, n: u16, decimal_only: bool)
    ensures
        final(buf)@ == old(buf)@ + spec_format_u16(n as int, decimal_only),
{
    if decimal_only {
        push_radix_padded(buf, n as u64, 10, 5, true);
    } else {
        push_radix_padded(buf, n as u64, 36, 4, true);
    }
}

/// Renders a 16-bit number for a ticket as its own string.
pub fn format_u16(n: u16, decimal_only: bool) -> (s: String)
    ensures
        s@ == spec_ascii(spec_format_u16(n as int, decimal_only)),
{
    let mut buf: Vec<u8> = Vec::new();
    push_format_u16(&mut buf, n, decimal_only);
    proof {
        lemma_radix_padded_ascii(n as int, 10, true, 5);
        lemma_radix_padded_ascii(n as int, 36, true, 4);
    }
    ascii_string(&buf)
}

/// Appends the date bytes of a ticket.
fn build_head(buf: &mut Vec<u8>, stamp: &LocalStamp)
    requires
        stamp.wf(),
        stamp.year >= YEAR_OFFSET,
    ensures
        final(buf)@ == old(buf)@ + spec_ticket_head(*stamp),
{
    push_radix_padded(buf, (stamp.year - YEAR_OFFSET) as u64, 26, 2, false);
    push_radix_padded(buf, (stamp.month - 1) as u64, 12, 1, true);
    push_radix_padded(buf, (stamp.day - 1) as u64, 31, 1, true);
    proof {
        assert(final(buf)@ =~= old(buf)@ + spec_ticket_head(*stamp));
    }
}

/// Appends the time bytes of a ticket.
fn build_left(buf: &mut Vec<u8>, stamp: &LocalStamp)
    requires
        stamp.wf(),
    ensures
        final(buf)@ == old(buf)@ + spec_ticket_left(*stamp),
{
    push_radix_padded(buf, stamp.hour as u64, 24, 1, true);
    push_radix_padded(buf, stamp.minute as u64, 36, 2, true);
    push_radix_padded(buf, stamp.second as u64, 36, 2, true);
    proof {
        assert(final(buf)@ =~= old(buf)@ + spec_ticket_left(*stamp));
    }
}

/// Appends the rendering of the trailing digit bytes from index `i` on,
/// two bytes per rendered number.
fn push_tail_from(buf: &mut Vec<u8>, ddp2: &Vec<u8>, i: usize, decimal_only: bool)
    requires
        i <= ddp2@.len(),
    ensures
        final(buf)@ == old(buf)@ + spec_ticket_tail(ddp2@.skip(i as int), decimal_only),
    decreases ddp2@.len() - i,
{
    let remaining = ddp2.len() - i;
    if remaining == 0 {
        proof {
            assert(final(buf)@ =~= old(buf)@ + spec_ticket_tail(
                ddp2@.skip(i as int),
                decimal_only,
            ));
        }
    } else if remaining == 1 {
        push_format_u16(buf, ddp2[i] as u16, decimal_only);
        proof {
            assert(ddp2@.skip(i as int)[0] == ddp2@[i as int]);
            assert(final(buf)@ =~= old(buf)@ + spec_ticket_tail(
                ddp2@.skip(i as int),
                decimal_only,
            ));
        }
    } else {
        let n = u16_from_be_bytes(ddp2[i], ddp2[i + 1]);
        push_format_u16(buf, n, decimal_only);
        proof {
            assert(ddp2@.skip(i as int)[0] == ddp2@[i as int]);
            assert(ddp2@.skip(i as int)[1] == ddp2@[i + 1 as int]);
            assert(ddp2@.skip(i as int).skip(2) =~= ddp2@.skip(i + 2 as int));
        }
        push_tail_from(buf, ddp2, i + 2, decimal_only);
        proof {
            assert(final(buf)@ =~= old(buf)@ + spec_ticket_tail(
                ddp2@.skip(i as int),
                decimal_only,
            ));
        }
    }
}

/// The configurable ticket formatter. Its configuration is set through
/// the builder-style methods; fed data supplies the build parameters; the
/// external authority passed to `build_with` settles uniqueness.
#[derive(Debug)]
pub struct TicketSerialer {
    /// Drop the middle digits and the check code.
    short_repr: bool,
    /// Join the parts with a minus separator.
    minus_sep: bool,
    /// Render the ticket in lower case.
    lowercase: bool,
    /// Keep the digit parts purely decimal.
    decimal_only: bool,
    /// How many candidates to try before giving up.
    retry_times: usize,
    /// The fed data the build parameters are drawn from.
    data: Vec<u8>,
}

impl TicketSerialer {
    /// Whether the short form is configured.
    pub closed spec fn spec_short_repr(&self) -> bool {
        self.short_repr
    }

    /// Whether the parts are joined with a separator.
    pub closed spec fn spec_minus_sep(&self) -> bool {
        self.minus_sep
    }

    /// Whether the ticket is lower-cased.
    pub closed spec fn spec_lowercase(&self) -> bool {
        self.lowercase
    }

    /// Whether the digit parts stay decimal.
    pub closed spec fn spec_decimal_only(&self) -> bool {
        self.decimal_only
    }

    /// How many candidates are tried before giving up.
    pub closed spec fn spec_retry_times(&self) -> int {
        self.retry_times as int
    }

    /// The fed bytes.
    pub closed spec fn spec_data(&self) -> Seq<u8> {
        self.data@
    }

    /// A formatter in the default configuration: full form, separated,
    /// upper case, decimal digit parts, ten tries.
    pub fn new() -> (serialer: TicketSerialer)
        ensures
            !serialer.spec_short_repr(),
            serialer.spec_minus_sep(),
            !serialer.spec_lowercase(),
            serialer.spec_decimal_only(),
            serialer.spec_retry_times() == 10,
            serialer.spec_data().len() == 0,
    {
        TicketSerialer {
            short_repr: false,
            minus_sep: true,
            lowercase: false,
            decimal_only: true,
            retry_times: 10,
            data: Vec::new(),
        }
    }

    /// Switches to the short form without middle digits and check code.
    pub fn short_repr(self) -> (serialer: TicketSerialer)
        ensures
            serialer.spec_short_repr(),
            serialer.spec_minus_sep() == self.spec_minus_sep(),
            serialer.spec_lowercase() == self.spec_lowercase(),
            serialer.spec_decimal_only() == self.spec_decimal_only(),
            serialer.spec_retry_times() == self.spec_retry_times(),
            serialer.spec_data() == self.spec_data(),
    {
        TicketSerialer { short_repr: true, ..self }
    }

    /// Drops the separator between the parts.
    pub fn no_sep(self) -> (serialer: TicketSerialer)
        ensures
            !serialer.spec_minus_sep(),
            serialer.spec_short_repr() == self.spec_short_repr(),
            serialer.spec_lowercase() == self.spec_lowercase(),
            serialer.spec_decimal_only() == self.spec_decimal_only(),
            serialer.spec_retry_times() == self.spec_retry_times(),
            serialer.spec_data() == self.spec_data(),
    {
        TicketSerialer { minus_sep: false, ..self }
    }

    /// Renders the ticket in lower case.
    pub fn lowercase(self) -> (serialer: TicketSerialer)
        ensures
            serialer.spec_lowercase(),
            serialer.spec_short_repr() == self.spec_short_repr(),
            serialer.spec_minus_sep() == self.spec_minus_sep(),
            serialer.spec_decimal_only() == self.spec_decimal_only(),
            serialer.spec_retry_times() == self.spec_retry_times(),
            serialer.spec_data() == self.spec_data(),
    {
        TicketSerialer { lowercase: true, ..self }
    }

    /// Allows letters in the digit parts.
    pub fn alphabet(self) -> (serialer: TicketSerialer)
        ensures
            !serialer.spec_decimal_only(),
            serialer.spec_short_repr() == self.spec_short_repr(),
            serialer.spec_minus_sep() == self.spec_minus_sep(),
            serialer.spec_lowercase() == self.spec_lowercase(),
            serialer.spec_retry_times() == self.spec_retry_times(),
            serialer.spec_data() == self.spec_data(),
    {
        TicketSerialer { decimal_only: false, ..self }
    }

    /// Sets how many candidates are tried before giving up.
    pub fn retry_times(self, n: usize) -> (serialer: TicketSerialer)
        ensures
            serialer.spec_retry_times() == n,
            serialer.spec_short_repr() == self.spec_short_repr(),
            serialer.spec_minus_sep() == self.spec_minus_sep(),
            serialer.spec_lowercase() == self.spec_lowercase(),
            serialer.spec_decimal_only() == self.spec_decimal_only(),
            serialer.spec_data() == self.spec_data(),
    {
        TicketSerialer { retry_times: n, ..self }
    }

    /// Appends `data` to the bytes the build parameters are drawn from.
    pub fn feed(&mut self, data: &[u8])
        ensures
            final(self).spec_data() == old(self).spec_data() + data@,
            final(self).spec_short_repr() == old(self).spec_short_repr(),
            final(self).spec_minus_sep() == old(self).spec_minus_sep(),
            final(self).spec_lowercase() == old(self).spec_lowercase(),
            final(self).spec_decimal_only() == old(self).spec_decimal_only(),
            final(self).spec_retry_times() == old(self).spec_retry_times(),
    {
        self.data.extend_from_slice(data);
    }

    /// The byte of the fed data at `i`, as if it were zero-padded to
    /// eight bytes.
    fn padded_byte(&self, i: usize) -> (b: u8)
        requires
            i < 8,
        ensures
            b == spec_padded8(self.spec_data(), i as int),
    {
        if i < self.data.len() {
            self.data[i]
        } else {
            0
        }
    }

    /// The check code of the fed data's byte stream.
    fn auth_code(&self) -> (auth: u8)
        ensures
            auth == spec_auth(spec_ticket_stream(self.spec_data())),
    {
        let ghost stream = spec_ticket_stream(self.spec_data());
        let mut auth: u8 = 0xFF;
        let mut i: usize = 0;
        while i < 8
            invariant
                i <= 8,
                stream == spec_ticket_stream(self.spec_data()),
                stream.len() >= 8,
                forall|j: int| 0 <= j < 8 ==> stream[j] == spec_padded8(self.spec_data(), j),
                auth == spec_auth(stream.take(i as int)),
            decreases 8 - i,
        {
            let b = self.padded_byte(i);
            auth = ((auth % 8) * 32 + auth / 8) ^ b;
            i = i + 1;
            proof {
                assert(stream.take(i as int).drop_last() =~= stream.take(i as int - 1));
                assert(stream.take(i as int).last() == stream[i as int - 1]);
            }
        }
        let mut k: usize = 8;
        while k < self.data.len()
            invariant
                8 <= k,
                self.data@.len() > 8 ==> k <= self.data@.len(),
                self.data@.len() <= 8 ==> k == 8,
                stream == spec_ticket_stream(self.spec_data()),
                stream.len() == if self.data@.len() <= 8 {
                    8int
                } else {
                    self.data@.len() as int
                },
                forall|j: int| 8 <= j < stream.len() ==> stream[j] == self.data@[j],
                auth == spec_auth(stream.take(k as int)),
            decreases self.data@.len() - k,
        {
            let b = self.data[k];
            auth = ((auth % 8) * 32 + auth / 8) ^ b;
            k = k + 1;
            proof {
                assert(stream.take(k as int).drop_last() =~= stream.take(k as int - 1));
                assert(stream.take(k as int).last() == stream[k as int - 1]);
            }
        }
        proof {
            assert(stream.take(stream.len() as int) =~= stream);
        }
        auth
    }

    /// Renders the candidate ticket for one local time.
    #[verifier::rlimit(100)]
    #[verifier::spinoff_prover]
    fn candidate(&self, stamp: &LocalStamp) -> (s: String)
        requires
            stamp.wf(),
            stamp.year >= YEAR_OFFSET,
        ensures
            s@ == spec_ticket_serial(
                *stamp,
                self.spec_data(),
                self.spec_short_repr(),
                self.spec_minus_sep(),
                self.spec_lowercase(),
                self.spec_decimal_only(),
            ),
    {
        let ghost data = self.spec_data();
        let mut buf: Vec<u8> = Vec::new();
        build_head(&mut buf, stamp);
        if self.minus_sep {
            buf.push(0x2D);
        }
        build_left(&mut buf, stamp);
        if self.minus_sep {
            buf.push(0x2D);
        }
        if !self.short_repr {
            let ddp1 = u16_from_be_bytes(self.padded_byte(4), self.padded_byte(5));
            push_format_u16(&mut buf, ddp1, self.decimal_only);
            if self.minus_sep {
                buf.push(0x2D);
            }
        }
        let mut ddp2: Vec<u8> = Vec::new();
        ddp2.push(self.padded_byte(6));
        ddp2.push(self.padded_byte(7));
        proof {
            assert(ddp2@ =~= spec_ticket_ddp2(data).take(2));
        }
        let mut m: usize = 8;
        while m < self.data.len()
            invariant
                8 <= m,
                self.data@.len() > 8 ==> m <= self.data@.len(),
                self.data@.len() <= 8 ==> m == 8,
                ddp2@ == spec_ticket_ddp2(data).take(m - 6),
                data == self.spec_data(),
            decreases self.data@.len() - m,
        {
            ddp2.push(self.data[m]);
            m = m + 1;
            proof {
                assert(ddp2@ =~= spec_ticket_ddp2(data).take(m - 6));
            }
        }
        proof {
            assert(ddp2@ =~= spec_ticket_ddp2(data));
        }
        push_tail_from(&mut buf, &ddp2, 0, self.decimal_only);
        proof {
            assert(ddp2@.skip(0) =~= ddp2@);
        }
        if !self.short_repr {
            if self.minus_sep {
                buf.push(0x2D);
            }
            let auth = self.auth_code();
            push_radix_padded(&mut buf, (auth % 255) as u64, 26, 2, false);
        }
        proof {
            assert(buf@ =~= spec_ticket_bytes(
                *stamp,
                spec_ticket_ddp1(data),
                spec_ticket_ddp2(data),
                spec_auth(spec_ticket_stream(data)),
                self.spec_short_repr(),
                self.spec_minus_sep(),
                self.spec_decimal_only(),
            ));
            lemma_ticket_bytes_ascii(
                *stamp,
                spec_ticket_ddp1(data),
                spec_ticket_ddp2(data),
                spec_auth(spec_ticket_stream(data)),
                self.spec_short_repr(),
                self.spec_minus_sep(),
                self.spec_decimal_only(),
            );
            assert(forall|i: int| 0 <= i < buf@.len() ==> buf@[i] < 128);
        }
        let rendered = if self.lowercase {
            let mut lowered: Vec<u8> = Vec::new();
            let mut t: usize = 0;
            while t < buf.len()
                invariant
                    t <= buf@.len(),
                    forall|j: int| 0 <= j < buf@.len() ==> buf@[j] < 128,
                    forall|j: int| 0 <= j < lowered@.len() ==> lowered@[j] < 128,
                    lowered@ == buf@.take(t as int).map_values(spec_lower_byte()),
                decreases buf@.len() - t,
            {
                let b = buf[t];
                if 0x41 <= b && b < 0x5B {
                    lowered.push(b + 0x20);
                } else {
                    lowered.push(b);
                }
                t = t + 1;
                proof {
                    assert(lowered@ =~= buf@.take(t as int).map_values(spec_lower_byte()));
                }
            }
            proof {
                assert(buf@.take(buf@.len() as int) =~= buf@);
            }
            lowered
        } else {
            buf
        };
        ascii_string(&rendered)
    }

    /// Builds one ticket: renders a candidate for the seconds carried in
    /// the first four fed bytes, asks the authority, and on a collision
    /// borrows one second and tries again, at most `retry_times - 1`
    /// times in all (a budget beyond the 32-bit range is capped there,
    /// which keeps every borrowed second inside the clock's domain). The
    /// candidate for some local time comes back on success; the
    /// authority's own failure, or running out of retries, comes back as
    /// the error — a ticket never fails for want of data, since missing
    /// bytes read as zero.
    pub fn build_with<E, I: TicketInspect<E>>(self, inspector: &mut I) -> (r: Result<
        String,
        TicketSerialError<E>,
    >)
        ensures
            r is Ok ==> exists|stamp: LocalStamp|
                #![auto]
                stamp.wf() && r->Ok_0@ == spec_ticket_serial(
                    stamp,
                    self.spec_data(),
                    self.spec_short_repr(),
                    self.spec_minus_sep(),
                    self.spec_lowercase(),
                    self.spec_decimal_only(),
                ),
            r is Err ==> (r->Err_0 is MaxRetry || r->Err_0 is InspectFailed),
            self.spec_retry_times() <= 1 ==> r is Err && r->Err_0 is MaxRetry,
    {
        let ts = u32_from_be_bytes(
            self.padded_byte(0),
            self.padded_byte(1),
            self.padded_byte(2),
            self.padded_byte(3),
        );
        let budget: usize = if self.retry_times > 0xFFFF_FFFF {
            0xFFFF_FFFF
        } else {
            self.retry_times
        };
        let mut cnt: usize = 0;
        let mut secs: u32 = 0;
        loop
            invariant
                cnt == 0 || cnt < budget,
                secs <= cnt,
                budget <= 0xFFFF_FFFF,
                budget <= self.spec_retry_times(),
                self.spec_retry_times() <= 1 ==> budget <= 1,
            decreases budget - cnt,
        {
            cnt = cnt + 1;
            if cnt >= budget {
                return Err(TicketSerialError::MaxRetry);
            }
            let stamp = local_stamp(ts as i64 + secs as i64);
            let candidate = self.candidate(&stamp);
            match inspector.inspect(candidate.as_str()) {
                Ok(duplicated) => {
                    if duplicated {
                        secs = secs + 1;
                    } else {
                        return Ok(candidate);
                    }
                },
                Err(e) => {
                    return Err(TicketSerialError::InspectFailed(e));
                },
            }
        }
    }
}

/// Every byte of an upper-case ticket is a serial byte or the separator,
/// hence plain ASCII.
proof fn lemma_ticket_bytes_ascii(
    stamp: LocalStamp,
    ddp1: int,
    ddp2: Seq<u8>,
    auth: u8,
    short_repr: bool,
    minus_sep: bool,
    decimal_only: bool,
)
    requires
        stamp.wf(),
        stamp.year >= YEAR_OFFSET,
        0 <= ddp1,
    ensures
        forall|i: int|
            0 <= i < spec_ticket_bytes(
                stamp,
                ddp1,
                ddp2,
                auth,
                short_repr,
                minus_sep,
                decimal_only,
            ).len() ==> #[trigger] spec_ticket_bytes(
                stamp,
                ddp1,
                ddp2,
                auth,
                short_repr,
                minus_sep,
                decimal_only,
            )[i] < 128,
{
    lemma_radix_padded_ascii(stamp.year - YEAR_OFFSET, 26, false, 2);
    lemma_radix_padded_ascii(stamp.month - 1, 12, true, 1);
    lemma_radix_padded_ascii(stamp.day - 1, 31, true, 1);
    lemma_radix_padded_ascii(stamp.hour as int, 24, true, 1);
    lemma_radix_padded_ascii(stamp.minute as int, 36, true, 2);
    lemma_radix_padded_ascii(stamp.second as int, 36, true, 2);
    lemma_radix_padded_ascii(ddp1, 10, true, 5);
    lemma_radix_padded_ascii(ddp1, 36, true, 4);
    lemma_radix_padded_ascii((auth % 255) as int, 26, false, 2);
    lemma_ticket_tail_ascii(ddp2, decimal_only);
}

/// Every byte of the trailing digit rendering is a serial byte.
proof fn lemma_ticket_tail_ascii(ddp2: Seq<u8>, decimal_only: bool)
    ensures
        forall|i: int|
            0 <= i < spec_ticket_tail(ddp2, decimal_only).len() ==> #[trigger] spec_ticket_tail(
                ddp2,
                decimal_only,
            )[i] < 128,
    decreases ddp2.len(),
{
    let whole = spec_ticket_tail(ddp2, decimal_only);
    if ddp2.len() == 0 {
    } else if ddp2.len() == 1 {
        lemma_radix_padded_ascii(ddp2[0] as int, 10, true, 5);
        lemma_radix_padded_ascii(ddp2[0] as int, 36, true, 4);
        assert(whole == spec_format_u16(ddp2[0] as int, decimal_only));
        assert forall|i: int| 0 <= i < whole.len() implies whole[i] < 128 by {
            if decimal_only {
                assert(whole[i] == spec_radix_padded(ddp2[0] as int, 10, true, 5)[i]);
            } else {
                assert(whole[i] == spec_radix_padded(ddp2[0] as int, 36, true, 4)[i]);
            }
        }
    } else {
        lemma_radix_padded_ascii(be16(ddp2[0], ddp2[1]), 10, true, 5);
        lemma_radix_padded_ascii(be16(ddp2[0], ddp2[1]), 36, true, 4);
        lemma_ticket_tail_ascii(ddp2.skip(2), decimal_only);
        let first = spec_format_u16(be16(ddp2[0], ddp2[1]), decimal_only);
        let rest = spec_ticket_tail(ddp2.skip(2), decimal_only);
        assert(whole == first + rest);
        assert forall|i: int| 0 <= i < whole.len() implies whole[i] < 128 by {
            if i < first.len() {
                assert(whole[i] == first[i]);
                if decimal_only {
                    assert(first[i] == spec_radix_padded(be16(ddp2[0], ddp2[1]), 10, true, 5)[i]);
                } else {
                    assert(first[i] == spec_radix_padded(be16(ddp2[0], ddp2[1]), 36, true, 4)[i]);
                }
            } else {
                assert(whole[i] == rest[i - first.len()]);
            }
        }
    }
}

} // verus!
