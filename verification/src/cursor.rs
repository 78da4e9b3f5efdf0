//! The monotone time anchor that segregates refill generations.

use vstd::prelude::*;

verus! {

/// Seconds between the UNIX epoch and this library's own epoch,
/// 2021-12-10 12:27:33 UTC. Anchoring the 32-bit cursor there leaves
/// room for well over a century of process lifetimes.
pub const TIMEBASE: u64 = 1639110453;

/// Why a cursor could not be computed from the clock readings at hand.
#[derive(Debug, Copy, Clone, PartialEq, Eq, Structural)]
pub enum CursorError {
    /// The wall clock reading lies before the library's epoch.
    BeforeEpoch,
    /// The seconds since the epoch do not fit in 32 bits.
    Overflow,
}

/// A second-granularity time anchor: seconds elapsed since [`TIMEBASE`].
///
/// A cursor carries no per-instance state beyond its raw value; the rest of
/// the library relies only on cursors being handed out in strictly
/// increasing order across refill generations.
#[derive(Debug, Copy, Clone, PartialEq, Eq, PartialOrd, Ord, Structural)]
pub struct Cursor(u32);

impl Cursor {
    /// The raw 32-bit value of this cursor.
    pub closed spec fn raw(self) -> u32 {
        self.0
    }

    /// Recovers the raw 32-bit representation.
    pub fn into_inner(self) -> (raw: u32)
        ensures
            raw == self.raw(),
    {
        self.0
    }

    /// Rebuilds a cursor from its raw 32-bit representation.
    pub fn from_raw(raw: u32) -> (cursor: Cursor)
        ensures
            cursor.raw() == raw,
    {
        Cursor(raw)
    }

    /// The bootstrap seconds for a process whose wall clock reads
    /// `wall_secs` seconds past the UNIX epoch: the distance to
    /// [`TIMEBASE`], provided it is neither negative nor over 32 bits.
    pub fn bootstrap(wall_secs: u64) -> (r: Result<u32, CursorError>)
        ensures
            r is Ok <==> TIMEBASE <= wall_secs <= TIMEBASE + u32::MAX,
            r is Ok ==> r->Ok_0 == wall_secs - TIMEBASE,
            wall_secs < TIMEBASE ==> r == Result::<u32, CursorError>::Err(CursorError::BeforeEpoch),
            wall_secs > TIMEBASE + u32::MAX ==> r == Result::<u32, CursorError>::Err(CursorError::Overflow),
    {
        if wall_secs < TIMEBASE {
            Err(CursorError::BeforeEpoch)
        } else if wall_secs - TIMEBASE > u32::MAX as u64 {
            Err(CursorError::Overflow)
        } else {
            Ok((wall_secs - TIMEBASE) as u32)
        }
    }

    /// The cursor current at `elapsed` seconds after a bootstrap reading of
    /// `bootstrap` seconds, or an overflow error once their sum leaves the
    /// 32-bit range.
    pub fn at(bootstrap: u32, elapsed: u64) -> (r: Result<Cursor, CursorError>)
        ensures
            r is Ok <==> bootstrap + elapsed <= u32::MAX,
            r is Ok ==> r->Ok_0.raw() == bootstrap + elapsed,
            r is Err ==> r->Err_0 == CursorError::Overflow,
    {
        if elapsed > u32::MAX as u64 {
            Err(CursorError::Overflow)
        } else {
            match bootstrap.checked_add(elapsed as u32) {
                Some(raw) => Ok(Cursor(raw)),
                None => Err(CursorError::Overflow),
            }
        }
    }

    /// One attempt of the advance loop behind `next`: accepts `candidate`
    /// exactly when it lies strictly after `self`. A caller keeps computing
    /// fresh candidates from the clock until one is accepted, so the first
    /// accepted cursor is strictly greater than the one advanced from.
    pub fn next_from(self, candidate: Cursor) -> (r: Option<Cursor>)
        ensures
            r is Some <==> candidate.raw() > self.raw(),
            r is Some ==> r->0 == candidate && r->0.raw() > self.raw(),
    {
        if candidate.0 > self.0 {
            Some(candidate)
        } else {
            None
        }
    }
}

} // verus!
