//! UUID generation: version 3 over an MD5 digest, version 4 from a
//! cryptographic random source, version 5 over a truncated SHA-1 digest,
//! all rendered as the usual hyphenated, variant-1 hex form.

use crate::serial::{ascii_string, Serialer};
use core::convert::Infallible;
use rand::Rng;
use rand::SeedableRng;
use rand_chacha::rand_core::block::BlockRng;
use rand_chacha::ChaCha20Core;
use sha1::Digest;
use vstd::prelude::*;

verus! {

/// What `md5::compute` returns for the given bytes: a sixteen-byte digest
/// determined by the input alone.
pub uninterp spec fn md5_of(bytes: Seq<u8>) -> Seq<u8>;

/// What `sha1::Sha1::digest` returns for the given bytes: a twenty-byte
/// digest determined by the input alone.
pub uninterp spec fn sha1_of(bytes: Seq<u8>) -> Seq<u8>;

/// Relies on `md5::compute`: the digest is a pure function of the input
/// bytes and is sixteen bytes long.
#[verifier::external_body]
fn md5_digest(data: &Vec<u8>) -> (digest: [u8; 16])
    ensures
        digest@ == md5_of(data@),
{
    md5::compute(data.as_slice()).0
}

/// Relies on `sha1::Sha1::digest` (the one-shot `Digest` interface): the
/// twenty-byte digest is a pure function of the input bytes; its first
/// sixteen bytes are returned.
#[verifier::external_body]
fn sha1_digest16(data: &Vec<u8>) -> (digest: [u8; 16])
    ensures
        digest@ == sha1_of(data@).take(16),
{
    let whole = sha1::Sha1::digest(data.as_slice());
    let mut out = [0u8; 16];
    out.copy_from_slice(&whole[0..16]);
    out
}

/// Relies on `rand_chacha::ChaCha20Core::from_entropy` driven through
/// `BlockRng`: sixteen bytes from an operating-system-seeded
/// cryptographic generator. Nothing is assumed about the value.
#[verifier::external_body]
fn random_bytes16() -> (bytes: [u8; 16]) {
    BlockRng::new(ChaCha20Core::from_entropy()).gen()
}

/// The UUID versions this formatter can produce.
#[derive(Debug, Copy, Clone, PartialEq, Eq, Hash, Structural)]
pub enum Version {
    /// Digest-based, over MD5.
    V3,
    /// Random.
    V4,
    /// Digest-based, over SHA-1.
    V5,
}

/// The number a version renders as in the UUID's version nibble.
pub open spec fn spec_version_number(version: Version) -> int {
    match version {
        Version::V3 => 3,
        Version::V4 => 4,
        Version::V5 => 5,
    }
}

/// The hex byte for digit value `d`.
pub open spec fn spec_hex_digit(d: int, uppercase: bool) -> u8 {
    if d < 10 {
        (0x30 + d) as u8
    } else if uppercase {
        (0x41 + (d - 10)) as u8
    } else {
        (0x61 + (d - 10)) as u8
    }
}

/// The rendering of byte `i` of a UUID: two hex digits, preceded by a
/// hyphen at the group boundaries; byte six carries the version number in
/// its high nibble, byte eight carries the variant-one marker in its top
/// two bits.
pub open spec fn spec_uuid_chunk(bytes: Seq<u8>, version: Version, uppercase: bool, i: int) -> Seq<
    u8,
> {
    let b = bytes[i];
    if i == 6 {
        seq![
            0x2Du8,
            spec_hex_digit(spec_version_number(version), uppercase),
            spec_hex_digit((b % 16) as int, uppercase),
        ]
    } else if i == 8 {
        seq![
            0x2Du8,
            spec_hex_digit((b % 64 + 128) as int / 16, uppercase),
            spec_hex_digit((b % 64 + 128) as int % 16, uppercase),
        ]
    } else if i == 4 || i == 10 {
        seq![0x2Du8, spec_hex_digit((b / 16) as int, uppercase), spec_hex_digit((b % 16) as int, uppercase)]
    } else {
        seq![spec_hex_digit((b / 16) as int, uppercase), spec_hex_digit((b % 16) as int, uppercase)]
    }
}

/// The rendering of a UUID's bytes from index `i` on.
pub open spec fn spec_uuid_bytes_from(
    bytes: Seq<u8>,
    version: Version,
    uppercase: bool,
    i: int,
) -> Seq<u8>
    decreases 16 - i,
{
    if i < 0 || i >= 16 {
        Seq::empty()
    } else {
        spec_uuid_chunk(bytes, version, uppercase, i) + spec_uuid_bytes_from(
            bytes,
            version,
            uppercase,
            i + 1,
        )
    }
}

/// The characters of a UUID's hyphenated rendering.
pub open spec fn spec_uuid_chars(bytes: Seq<u8>, version: Version, uppercase: bool) -> Seq<char> {
    spec_uuid_bytes_from(bytes, version, uppercase, 0).map_values(|b: u8| b as char)
}

/// A universally unique identifier: sixteen bytes and the version they
/// were produced under.
#[derive(Debug, Copy, Clone, PartialEq, Eq, Hash)]
pub struct UUID {
    bytes: [u8; 16],
    version: Version,
}

impl UUID {
    /// The sixteen identifier bytes.
    pub closed spec fn spec_bytes(self) -> Seq<u8> {
        self.bytes@
    }

    /// The version this identifier was produced under.
    pub closed spec fn spec_version(self) -> Version {
        self.version
    }

    /// Renders the identifier in the usual hyphenated form, with the
    /// version nibble and the variant-one bits fixed up.
    pub fn to_uuid(&self, uppercase: bool) -> (s: String)
        ensures
            s@ == spec_uuid_chars(self.spec_bytes(), self.spec_version(), uppercase),
    {
        let mut buf: Vec<u8> = Vec::new();
        push_uuid_from(&mut buf, &self.bytes, self.version, uppercase, 0);
        proof {
            lemma_uuid_bytes_ascii(self.spec_bytes(), self.spec_version(), uppercase, 0);
        }
        ascii_string(&buf)
    }
}

/// Appends the hex rendering of one UUID byte, with its hyphen and the
/// version and variant fix-ups.
fn push_uuid_chunk(buf: &mut Vec<u8>, bytes: &[u8; 16], version: Version, uppercase: bool, i: usize)
    requires
        i < 16,
    ensures
        final(buf)@ == old(buf)@ + spec_uuid_chunk(bytes@, version, uppercase, i as int),
{
    let b = bytes[i];
    if i == 4 || i == 6 || i == 8 || i == 10 {
        buf.push(0x2D);
    }
    let high: u8 = if i == 6 {
        match version {
            Version::V3 => 3,
            Version::V4 => 4,
            Version::V5 => 5,
        }
    } else if i == 8 {
        (b % 64 + 128) / 16
    } else {
        b / 16
    };
    let low: u8 = if i == 8 {
        (b % 64 + 128) % 16
    } else {
        b % 16
    };
    buf.push(hex_digit(high, uppercase));
    buf.push(hex_digit(low, uppercase));
    proof {
        assert(final(buf)@ =~= old(buf)@ + spec_uuid_chunk(bytes@, version, uppercase, i as int));
    }
}

/// The hex byte for digit value `d`.
fn hex_digit(d: u8, uppercase: bool) -> (b: u8)
    requires
        d < 16,
    ensures
        b == spec_hex_digit(d as int, uppercase),
{
    if d < 10 {
        0x30 + d
    } else if uppercase {
        0x41 + (d - 10)
    } else {
        0x61 + (d - 10)
    }
}

/// Appends the hex rendering of a UUID's bytes from index `i` on.
fn push_uuid_from(buf: &mut Vec<u8>, bytes: &[u8; 16], version: Version, uppercase: bool, i: usize)
    ensures
        final(buf)@ == old(buf)@ + spec_uuid_bytes_from(bytes@, version, uppercase, i as int),
    decreases 16 - i,
{
    if i >= 16 {
        proof {
            assert(final(buf)@ =~= old(buf)@ + spec_uuid_bytes_from(
                bytes@,
                version,
                uppercase,
                i as int,
            ));
        }
    } else {
        push_uuid_chunk(buf, bytes, version, uppercase, i);
        push_uuid_from(buf, bytes, version, uppercase, i + 1);
        proof {
            assert(final(buf)@ =~= old(buf)@ + spec_uuid_bytes_from(
                bytes@,
                version,
                uppercase,
                i as int,
            ));
        }
    }
}

/// Every byte of a rendered UUID is a hyphen or a hex digit, hence ASCII.
proof fn lemma_uuid_bytes_ascii(bytes: Seq<u8>, version: Version, uppercase: bool, i: int)
    ensures
        forall|j: int|
            0 <= j < spec_uuid_bytes_from(bytes, version, uppercase, i).len()
                ==> #[trigger] spec_uuid_bytes_from(bytes, version, uppercase, i)[j] < 128,
    decreases 16 - i,
{
    if i < 0 || i >= 16 {
    } else {
        lemma_uuid_bytes_ascii(bytes, version, uppercase, i + 1);
        let whole = spec_uuid_bytes_from(bytes, version, uppercase, i);
        let first = spec_uuid_chunk(bytes, version, uppercase, i);
        let rest = spec_uuid_bytes_from(bytes, version, uppercase, i + 1);
        assert(whole == first + rest);
        assert forall|j: int| 0 <= j < whole.len() implies whole[j] < 128 by {
            if j < first.len() {
                assert(whole[j] == first[j]);
            } else {
                assert(whole[j] == rest[j - first.len()]);
            }
        }
    }
}

/// The UUID formatter: collects fed bytes and digests them — or, for
/// version 4, ignores them — into one identifier.
pub struct UUIDSerialer {
    /// The bytes a digest-based identifier is computed over.
    data: Vec<u8>,
    /// Which UUID version to produce.
    version: Version,
    /// Everything ever fed, whether or not the version digests it.
    fed: Ghost<Seq<u8>>,
}

impl UUIDSerialer {
    /// The bytes a digest will be computed over.
    pub closed spec fn spec_data(&self) -> Seq<u8> {
        self.data@
    }

    /// The version this formatter produces.
    pub closed spec fn spec_version(&self) -> Version {
        self.version
    }

    /// A version-3 formatter: MD5 over the fed bytes.
    pub fn new_v3() -> (serialer: UUIDSerialer)
        ensures
            serialer.spec_version() == Version::V3,
            serialer.spec_data().len() == 0,
            serialer.fed().len() == 0,
    {
        UUIDSerialer { data: Vec::new(), version: Version::V3, fed: Ghost(Seq::empty()) }
    }

    /// A version-4 formatter: random; fed bytes are ignored.
    pub fn new_v4() -> (serialer: UUIDSerialer)
        ensures
            serialer.spec_version() == Version::V4,
            serialer.spec_data().len() == 0,
            serialer.fed().len() == 0,
    {
        UUIDSerialer { data: Vec::new(), version: Version::V4, fed: Ghost(Seq::empty()) }
    }

    /// A version-5 formatter: truncated SHA-1 over the fed bytes.
    pub fn new_v5() -> (serialer: UUIDSerialer)
        ensures
            serialer.spec_version() == Version::V5,
            serialer.spec_data().len() == 0,
            serialer.fed().len() == 0,
    {
        UUIDSerialer { data: Vec::new(), version: Version::V5, fed: Ghost(Seq::empty()) }
    }
}

impl Serialer for UUIDSerialer {
    type Output = UUID;

    type Error = Infallible;

    /// Everything ever fed, whether or not the version digests it.
    closed spec fn fed(&self) -> Seq<u8> {
        self.fed@
    }

    /// Produces the identifier: an MD5 digest for version 3, fresh random
    /// bytes for version 4, a truncated SHA-1 digest for version 5. The
    /// build never fails.
    fn build(self) -> (uuid: Result<UUID, Infallible>)
        ensures
            uuid is Ok,
            uuid->Ok_0.spec_version() == self.spec_version(),
            self.spec_version() == Version::V3 ==> uuid->Ok_0.spec_bytes() == md5_of(
                self.spec_data(),
            ),
            self.spec_version() == Version::V5 ==> uuid->Ok_0.spec_bytes() == sha1_of(
                self.spec_data(),
            ).take(16),
    {
        match self.version {
            Version::V3 => Ok(UUID { bytes: md5_digest(&self.data), version: Version::V3 }),
            Version::V4 => Ok(UUID { bytes: random_bytes16(), version: Version::V4 }),
            Version::V5 => Ok(UUID { bytes: sha1_digest16(&self.data), version: Version::V5 }),
        }
    }

    /// Appends `data` to the digest input, except under version 4, whose
    /// identifier owes nothing to the fed bytes.
    fn feed(&mut self, data: &[u8])
        ensures
            final(self).spec_version() == old(self).spec_version(),
            final(self).spec_data() == if old(self).spec_version() == Version::V4 {
                old(self).spec_data()
            } else {
                old(self).spec_data() + data@
            },
    {
        if !matches!(self.version, Version::V4) {
            self.data.extend_from_slice(data);
        }
        proof {
            self.fed@ = self.fed@ + data@;
        }
    }
}

} // verus!
