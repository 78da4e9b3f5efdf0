//! The auto-increment serial formatter: a stateful counter produces ever
//! larger idents, each rendered with an optional prefix, zero padding and
//! a rotating two-digit suffix.

use crate::serial::{
    ascii_string, lemma_radix_padded_ascii, push_radix_padded, spec_ascii, spec_radix_padded,
    Serialer,
};
use vstd::prelude::*;
use vstd::string::StringExecFns;

verus! {

/// The ident reported while the counter state has not been initialized.
pub const UNINITIALIZED: i64 = -1;

/// The ident reported when an increment failed to move the counter forward.
pub const FAILED: i64 = i64::MIN;

/// The capability of producing the next counter value from the current
/// one. An increment only counts as successful when the returned value is
/// strictly greater than the current one; returning [`UNINITIALIZED`]
/// reports that the backing counter is not ready yet.
pub trait AutoIncrement {
    fn incr(&mut self, current: i64) -> i64;
}

/// One rotate-and-bump step of the suffix counter: rotate left one bit,
/// then add one, wrapping.
pub open spec fn spec_suffix_step(s: u8) -> u8 {
    ((((s % 128) * 2 + s / 128) + 1) % 256) as u8
}

/// The state behind an auto-increment serial sequence: the increment
/// engine, the last ident handed out, and the rendering configuration
/// every serial shares.
pub struct IncrState<AI: AutoIncrement> {
    /// Produces the next ident from the last one.
    engine: AI,
    /// Rendered in front of every serial.
    prefix: Option<String>,
    /// The rotating two-digit suffix counter.
    suffix: u8,
    /// How many digits the ident is padded to, when a prefix is set.
    padding: Option<usize>,
    /// The last ident handed out, or [`UNINITIALIZED`].
    last: i64,
}

impl<AI: AutoIncrement> IncrState<AI> {
    /// The last ident handed out.
    pub closed spec fn spec_last(&self) -> i64 {
        self.last
    }

    /// The suffix counter.
    pub closed spec fn spec_suffix(&self) -> u8 {
        self.suffix
    }

    /// The configured prefix characters, if any.
    pub closed spec fn spec_prefix(&self) -> Option<Seq<char>> {
        match self.prefix {
            Some(p) => Some(p@),
            None => None,
        }
    }

    /// The configured padding width, if any.
    pub closed spec fn spec_padding(&self) -> Option<usize> {
        self.padding
    }

    /// The state is well formed while the last ident is the sentinel or a
    /// proper, non-negative counter value.
    pub open spec fn wf(&self) -> bool {
        self.spec_last() == UNINITIALIZED || self.spec_last() >= 0
    }

    /// Starts configuring a fresh state.
    pub fn builder() -> (builder: IncrStateBuilder)
        ensures
            builder.spec_start() is None,
            builder.spec_prefix() is None,
            builder.spec_padding() is None,
            builder.spec_suffix_seed() == 0,
    {
        IncrStateBuilder::new()
    }

    /// Draws the next serial builder: asks the engine for the ident after
    /// the last one, keeps it only when it actually advanced, and bumps
    /// the suffix counter. The engine alone decides the ident, so the
    /// outcome is one of: the engine reported [`UNINITIALIZED`]; the
    /// engine failed to advance, reported as [`FAILED`]; or a strictly
    /// larger ident that becomes the new last value.
    pub fn incr(&mut self) -> (serialer: IncrSerialer)
        requires
            old(self).wf(),
        ensures
            final(self).wf(),
            final(self).spec_prefix() == old(self).spec_prefix(),
            final(self).spec_padding() == old(self).spec_padding(),
            final(self).spec_suffix() == spec_suffix_step(old(self).spec_suffix()),
            serialer.spec_suffix() == final(self).spec_suffix(),
            serialer.spec_prefix() == old(self).spec_prefix(),
            serialer.spec_padding() == match old(self).spec_padding() {
                Some(p) => p as int,
                None => 0,
            },
            serialer.fed().len() == 0,
            ({
                ||| (serialer.spec_ident() == UNINITIALIZED && final(self).spec_last() == old(self).spec_last())
                ||| (serialer.spec_ident() == FAILED && final(self).spec_last() == old(self).spec_last())
                ||| (serialer.spec_ident() > old(self).spec_last() && final(self).spec_last() == serialer.spec_ident())
            }),
    {
        let current = self.last;
        let new = self.engine.incr(current);
        let ident: i64;
        if new == UNINITIALIZED {
            ident = UNINITIALIZED;
        } else if new <= current {
            ident = FAILED;
        } else {
            self.last = new;
            ident = new;
        }
        self.suffix = ((self.suffix % 128) * 2 + self.suffix / 128).wrapping_add(1);
        IncrSerialer {
            ident,
            prefix: match &self.prefix {
                Some(p) => Some(p.clone()),
                None => None,
            },
            suffix: self.suffix,
            padding: match self.padding {
                Some(p) => p,
                None => 0,
            },
            fed: Ghost(Seq::empty()),
        }
    }
}

/// The characters of one auto-increment serial: the prefix, the ident
/// zero-padded to the configured width, and the two-digit suffix.
pub open spec fn spec_incr_serial(
    prefix: Option<Seq<char>>,
    ident: int,
    padding: int,
    suffix: u8,
) -> Seq<char> {
    let front = match prefix {
        Some(p) => p,
        None => Seq::empty(),
    };
    front + spec_ascii(
        spec_radix_padded(ident, 10, true, padding) + spec_radix_padded(
            (suffix % 100) as int,
            10,
            true,
            2,
        ),
    )
}

/// One pending auto-increment serial, drawn from an [`IncrState`] and
/// rendered by `build`. Fed data does not influence the serial.
pub struct IncrSerialer {
    ident: i64,
    prefix: Option<String>,
    suffix: u8,
    padding: usize,
    fed: Ghost<Seq<u8>>,
}

impl IncrSerialer {
    /// The ident this serial renders, or a sentinel.
    pub closed spec fn spec_ident(&self) -> i64 {
        self.ident
    }

    /// The prefix characters, if any.
    pub closed spec fn spec_prefix(&self) -> Option<Seq<char>> {
        match self.prefix {
            Some(p) => Some(p@),
            None => None,
        }
    }

    /// The two-digit suffix counter value.
    pub closed spec fn spec_suffix(&self) -> u8 {
        self.suffix
    }

    /// The padding width.
    pub closed spec fn spec_padding(&self) -> int {
        self.padding as int
    }
}

impl Serialer for IncrSerialer {
    type Output = String;

    type Error = i64;

    /// The bytes fed so far; they are recorded but never rendered.
    closed spec fn fed(&self) -> Seq<u8> {
        self.fed@
    }

    /// Renders the serial, or reports the sentinel carried since `incr`:
    /// an ident that never advanced comes back as the error.
    fn build(self) -> (serial: Result<String, i64>)
        ensures
            self.spec_ident() == UNINITIALIZED ==> serial == Result::<String, i64>::Err(
                UNINITIALIZED,
            ),
            self.spec_ident() == FAILED ==> serial == Result::<String, i64>::Err(FAILED),
            self.spec_ident() >= 0 ==> serial is Ok && serial->Ok_0@ == spec_incr_serial(
                self.spec_prefix(),
                self.spec_ident() as int,
                self.spec_padding(),
                self.spec_suffix(),
            ),
            serial is Err ==> serial->Err_0 == self.spec_ident(),
    {
        if self.ident < 0 {
            return Err(self.ident);
        }
        let mut digits: Vec<u8> = Vec::new();
        push_radix_padded(&mut digits, self.ident as u64, 10, self.padding, true);
        push_radix_padded(&mut digits, (self.suffix % 100) as u64, 10, 2, true);
        proof {
            lemma_radix_padded_ascii(self.ident as int, 10, true, self.padding as int);
            lemma_radix_padded_ascii((self.suffix % 100) as int, 10, true, 2);
        }
        let tail = ascii_string(&digits);
        let mut out = match &self.prefix {
            Some(p) => p.clone(),
            None => String::new(),
        };
        out.append(tail.as_str());
        proof {
            assert(out@ =~= spec_incr_serial(
                self.spec_prefix(),
                self.spec_ident() as int,
                self.spec_padding(),
                self.spec_suffix(),
            ));
        }
        Ok(out)
    }

    /// Records the fed bytes; the serial is determined by the state alone.
    fn feed(&mut self, data: &[u8]) {
        proof {
            self.fed@ = self.fed@ + data@;
        }
    }
}

/// Configuration for an [`IncrState`]: the starting ident, the prefix,
/// the padding width and the suffix seed.
pub struct IncrStateBuilder {
    start: Option<i64>,
    prefix: Option<String>,
    padding: Option<usize>,
    suffix_seed: u8,
}

impl IncrStateBuilder {
    /// The configured starting ident, if any.
    pub closed spec fn spec_start(&self) -> Option<i64> {
        self.start
    }

    /// The configured prefix characters, if any.
    pub closed spec fn spec_prefix(&self) -> Option<Seq<char>> {
        match self.prefix {
            Some(p) => Some(p@),
            None => None,
        }
    }

    /// The configured padding width, if any.
    pub closed spec fn spec_padding(&self) -> Option<usize> {
        self.padding
    }

    /// The seed the suffix counter starts from.
    pub closed spec fn spec_suffix_seed(&self) -> u8 {
        self.suffix_seed
    }

    /// A builder is well formed while any configured start is a proper,
    /// non-negative ident.
    pub open spec fn wf(&self) -> bool {
        match self.spec_start() {
            Some(v) => v >= 0,
            None => true,
        }
    }

    /// An empty configuration.
    pub fn new() -> (builder: IncrStateBuilder)
        ensures
            builder.wf(),
            builder.spec_start() is None,
            builder.spec_prefix() is None,
            builder.spec_padding() is None,
            builder.spec_suffix_seed() == 0,
    {
        IncrStateBuilder { start: None, prefix: None, padding: None, suffix_seed: 0 }
    }

    /// Sets the ident the sequence starts after; it must not be negative.
    pub fn with_start(self, value: i64) -> (builder: IncrStateBuilder)
        requires
            value >= 0,
        ensures
            builder.wf(),
            builder.spec_start() == Some(value),
            builder.spec_prefix() == self.spec_prefix(),
            builder.spec_padding() == self.spec_padding(),
            builder.spec_suffix_seed() == self.spec_suffix_seed(),
    {
        IncrStateBuilder { start: Some(value), ..self }
    }

    /// Sets the prefix rendered in front of every serial.
    pub fn with_prefix(self, prefix: &str) -> (builder: IncrStateBuilder)
        ensures
            builder.wf() == self.wf(),
            builder.spec_prefix() == Some(prefix@),
            builder.spec_start() == self.spec_start(),
            builder.spec_padding() == self.spec_padding(),
            builder.spec_suffix_seed() == self.spec_suffix_seed(),
    {
        IncrStateBuilder { prefix: Some(prefix.to_owned()), ..self }
    }

    /// Sets the padding width; it only takes effect once a prefix has
    /// been configured.
    pub fn with_padding(self, padding: usize) -> (builder: IncrStateBuilder)
        ensures
            builder.wf() == self.wf(),
            builder.spec_padding() == if self.spec_prefix() is Some {
                Some(padding)
            } else {
                self.spec_padding()
            },
            builder.spec_start() == self.spec_start(),
            builder.spec_prefix() == self.spec_prefix(),
            builder.spec_suffix_seed() == self.spec_suffix_seed(),
    {
        if self.prefix.is_some() {
            IncrStateBuilder { padding: Some(padding), ..self }
        } else {
            self
        }
    }

    /// Seeds the rotating suffix counter, typically with the process-wide
    /// random value, so serial suffixes do not start from the same point
    /// on every deployment.
    pub fn with_suffix_seed(self, seed: u8) -> (builder: IncrStateBuilder)
        ensures
            builder.wf() == self.wf(),
            builder.spec_suffix_seed() == seed,
            builder.spec_start() == self.spec_start(),
            builder.spec_prefix() == self.spec_prefix(),
            builder.spec_padding() == self.spec_padding(),
    {
        IncrStateBuilder { suffix_seed: seed, ..self }
    }

    /// Finishes the configuration around the given increment engine.
    pub fn build<AI: AutoIncrement>(self, engine: AI) -> (state: IncrState<AI>)
        requires
            self.wf(),
        ensures
            state.wf(),
            state.spec_last() == match self.spec_start() {
                Some(v) => v,
                None => UNINITIALIZED,
            },
            state.spec_prefix() == self.spec_prefix(),
            state.spec_padding() == self.spec_padding(),
            state.spec_suffix() == self.spec_suffix_seed(),
    {
        IncrState {
            engine,
            prefix: self.prefix,
            suffix: self.suffix_seed,
            padding: self.padding,
            last: match self.start {
                Some(v) => v,
                None => UNINITIALIZED,
            },
        }
    }
}

} // verus!
