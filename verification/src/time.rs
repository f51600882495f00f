//! Time scales and the real time that media ticks stand for.
use vstd::prelude::*;
use crate::attr::{fixed, AttrRead};
use crate::bytes::{be_u32, u32_from_be};
use crate::error::ParseError;
use crate::reader::{Reader, Stream};

verus! {

/// The number of nanoseconds in a second.
pub const NANOS_PER_SEC: u64 = 1_000_000_000;

/// A span of time, exact to the nanosecond.
#[derive(Clone, Copy, Debug, PartialEq, Eq, PartialOrd, Ord, Hash)]
pub struct Duration {
    secs: u64,
    nanos: u32,
}

impl Duration {
    /// The part beyond the whole seconds is less than a second.
    #[verifier::type_invariant]
    spec fn wf(self) -> bool {
        self.nanos < 1_000_000_000
    }

    /// The span of `nanos` nanoseconds.
    pub closed spec fn of_nanos(nanos: int) -> Duration {
        Duration { secs: (nanos / 1_000_000_000) as u64, nanos: (nanos % 1_000_000_000) as u32 }
    }

    /// The length of the span in nanoseconds.
    pub closed spec fn nanos(self) -> int {
        self.secs * 1_000_000_000 + self.nanos
    }

    /// A span made of a number of nanoseconds has that length, as far as the whole
    /// seconds fit in a `u64`.
    pub proof fn lemma_nanos_of_nanos(nanos: int)
        requires
            0 <= nanos <= u64::MAX * 1_000_000_000,
        ensures
            Self::of_nanos(nanos).nanos() == nanos,
    {
    }

    /// The span of `secs` whole seconds.
    pub fn from_secs(secs: u64) -> (d: Duration)
        ensures
            d == Self::of_nanos(secs * 1_000_000_000),
            d.nanos() == secs * 1_000_000_000,
    {
        Duration { secs, nanos: 0 }
    }

    /// The span of `nanos` nanoseconds.
    pub fn from_nanos(nanos: u64) -> (d: Duration)
        ensures
            d == Self::of_nanos(nanos as int),
            d.nanos() == nanos,
    {
        Duration { secs: nanos / NANOS_PER_SEC, nanos: (nanos % NANOS_PER_SEC) as u32 }
    }

    /// The whole seconds of the span.
    pub fn as_secs(&self) -> (secs: u64)
        ensures
            secs == self.nanos() / 1_000_000_000,
    {
        proof {
            use_type_invariant(self);
        }
        self.secs
    }

    /// The part of the span beyond its whole seconds, in nanoseconds.
    pub fn subsec_nanos(&self) -> (nanos: u32)
        ensures
            nanos == self.nanos() % 1_000_000_000,
    {
        proof {
            use_type_invariant(self);
        }
        self.nanos
    }

    /// The length of the span in nanoseconds.
    pub fn as_nanos(&self) -> (nanos: u128)
        ensures
            nanos == self.nanos(),
    {
        let whole: u128 = self.secs as u128 * 1_000_000_000u128;
        whole + self.nanos as u128
    }
}

/// The number of ticks that make one second.
#[derive(Clone, Copy, Debug, PartialEq, Eq)]
pub struct Timescale(pub u32);

impl DeepView for Timescale {
    type V = Timescale;

    open spec fn deep_view(&self) -> Timescale {
        *self
    }
}

impl AttrRead for Timescale {
    open spec fn decode(s: Stream) -> (Result<Timescale, ParseError>, Stream) {
        fixed(s, 4, |b: Seq<u8>| Timescale(u32_from_be(b)))
    }

    fn read_attr(reader: &mut Reader) -> (r: Result<Timescale, ParseError>) {
        let mut buf: [u8; 4] = [0u8; 4];
        match reader.read_exact(&mut buf) {
            Err(e) => Err(e),
            Ok(_) => Ok(Timescale(be_u32(&buf))),
        }
    }
}

impl Timescale {
    /// The real time of `ticks` ticks, rounded down to the nanosecond.
    pub open spec fn spec_decode_duration(&self, ticks: u32) -> Duration {
        Duration::of_nanos((ticks * 1_000_000_000) / (self.0 as int))
    }

    /// The real time of `ticks` ticks, rounded down to the nanosecond. A scale of
    /// zero ticks to the second has no such time.
    pub fn decode_duration(&self, ticks: u32) -> (d: Duration)
        requires
            self.0 != 0,
        ensures
            d == self.spec_decode_duration(ticks),
            d.nanos() == (ticks * 1_000_000_000) / (self.0 as int),
    {
        let nanos: u64 = (ticks as u64 * NANOS_PER_SEC) / (self.0 as u64);
        Duration::from_nanos(nanos)
    }
}

} // verus!
