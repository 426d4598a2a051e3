//! Points in time and lengths of time, as plain numbers.

use vstd::prelude::*;

verus! {

/// Nanoseconds in a second.
pub const NANOS_PER_SEC: u32 = 1_000_000_000;

/// A length of time.
#[derive(Debug, Clone, Copy, PartialEq, Eq, Hash, PartialOrd, Ord, Structural)]
pub struct Duration {
    pub secs: u64,
    pub nanos: u32,
}

impl Duration {
    /// Less than a second is in `nanos`.
    pub open spec fn wf(self) -> bool {
        self.nanos < NANOS_PER_SEC
    }

    /// The length in nanoseconds.
    pub open spec fn view(self) -> nat {
        (self.secs * NANOS_PER_SEC + self.nanos) as nat
    }

    pub fn zero() -> (r: Duration)
        ensures
            r.wf(),
            r@ == 0,
    {
        Duration { secs: 0, nanos: 0 }
    }

    pub fn from_secs(secs: u64) -> (r: Duration)
        ensures
            r.wf(),
            r@ == secs * NANOS_PER_SEC,
            r == (Duration { secs, nanos: 0 }),
    {
        Duration { secs, nanos: 0 }
    }

    pub fn from_millis(ms: u64) -> (r: Duration)
        ensures
            r.wf(),
            r@ == ms * 1_000_000,
            r == (Duration { secs: ms / 1000, nanos: ((ms % 1000) * 1_000_000) as u32 }),
    {
        Duration { secs: ms / 1000, nanos: (ms % 1000) as u32 * 1_000_000 }
    }

    pub fn is_zero(&self) -> (r: bool)
        ensures
            r == (self@ == 0),
    {
        self.secs == 0 && self.nanos == 0
    }

    /// Whether this is at least as long as `other`.
    pub fn at_least(&self, other: Duration) -> (r: bool)
        requires
            self.wf(),
            other.wf(),
        ensures
            r == (self@ >= other@),
    {
        self.secs > other.secs || (self.secs == other.secs && self.nanos >= other.nanos)
    }

    /// The time that is left of this after `other`; none where `other` is longer.
    pub fn saturating_sub(&self, other: Duration) -> (r: Duration)
        requires
            self.wf(),
            other.wf(),
        ensures
            r.wf(),
            r@ == (if self@ >= other@ {
                (self@ - other@) as nat
            } else {
                0
            }),
    {
        if !self.at_least(other) {
            return Duration { secs: 0, nanos: 0 };
        }
        if self.nanos >= other.nanos {
            Duration { secs: self.secs - other.secs, nanos: self.nanos - other.nanos }
        } else {
            Duration {
                secs: self.secs - other.secs - 1,
                nanos: self.nanos + 1_000_000_000 - other.nanos,
            }
        }
    }

    /// This and `other` one after the other.
    pub fn plus(&self, other: Duration) -> (r: Duration)
        requires
            self.wf(),
            other.wf(),
            self.secs + other.secs < u64::MAX,
        ensures
            r.wf(),
            r@ == self@ + other@,
    {
        let nanos: u32 = self.nanos + other.nanos;
        if nanos >= NANOS_PER_SEC {
            Duration { secs: self.secs + other.secs + 1, nanos: nanos - NANOS_PER_SEC }
        } else {
            Duration { secs: self.secs + other.secs, nanos }
        }
    }
}

/// The first second that a calendar date can be given for (in the year -262143).
pub const MIN_SECS: i64 = -8334601228800;

/// The last second that a calendar date can be given for (in the year 262142).
pub const MAX_SECS: i64 = 8210266876799;

/// A point in time: seconds since the Unix epoch and nanoseconds within the second.
#[derive(Debug, Clone, Copy, PartialEq, Eq, Hash, PartialOrd, Ord, Structural)]
pub struct Timestamp {
    secs: i64,
    nanos: u32,
}

/// The RFC 3339 form of a time, as `chrono` writes it.
pub uninterp spec fn rfc3339_text(secs: int, nanos: int) -> Seq<char>;

/// `chrono::DateTime::from_timestamp` and `to_rfc3339`, on a time in the range that `chrono` can
/// represent: the text is a function of the seconds and nanoseconds alone.
#[verifier::external_body]
fn rfc3339(secs: i64, nanos: u32) -> (r: String)
    requires
        nanos < NANOS_PER_SEC,
        MIN_SECS <= secs <= MAX_SECS,
    ensures
        r@ == rfc3339_text(secs as int, nanos as int),
{
    chrono::DateTime::from_timestamp(secs, nanos).unwrap_or_default().to_rfc3339()
}

/// The RFC 3339 form of a time with `Z` for its offset, as `chrono` writes it.
pub uninterp spec fn rfc3339_utc_text(secs: int, nanos: int) -> Seq<char>;

/// `chrono::DateTime::from_timestamp` and `to_rfc3339_opts`, on a time in the range that `chrono`
/// can represent: the text is a function of the seconds and nanoseconds alone.
#[verifier::external_body]
fn rfc3339_utc(secs: i64, nanos: u32) -> (r: String)
    requires
        nanos < NANOS_PER_SEC,
        MIN_SECS <= secs <= MAX_SECS,
    ensures
        r@ == rfc3339_utc_text(secs as int, nanos as int),
{
    chrono::DateTime::from_timestamp(secs, nanos).unwrap_or_default().to_rfc3339_opts(
        chrono::SecondsFormat::AutoSi,
        true,
    )
}

impl Timestamp {
    /// Less than a second is in `nanos`, and the second lies in the years that a calendar date
    /// can be given for.
    #[verifier::type_invariant]
    spec fn wf(self) -> bool {
        self.nanos < NANOS_PER_SEC && MIN_SECS <= self.secs <= MAX_SECS
    }

    /// The whole seconds.
    pub closed spec fn whole(self) -> int {
        self.secs as int
    }

    /// The nanoseconds within the second.
    pub closed spec fn part(self) -> int {
        self.nanos as int
    }

    /// Nanoseconds since the Unix epoch.
    pub open spec fn view(self) -> int {
        self.whole() * NANOS_PER_SEC + self.part()
    }

    /// The RFC 3339 form.
    pub open spec fn text(self) -> Seq<char> {
        rfc3339_text(self.whole(), self.part())
    }

    /// The RFC 3339 form with `Z` for the offset.
    pub open spec fn utc_text(self) -> Seq<char> {
        rfc3339_utc_text(self.whole(), self.part())
    }

    /// The time with these seconds and nanoseconds, if it is one.
    pub fn new(secs: i64, nanos: u32) -> (r: Option<Timestamp>)
        ensures
            match r {
                Some(t) => nanos < NANOS_PER_SEC && MIN_SECS <= secs <= MAX_SECS && t.whole() == secs
                    && t.part() == nanos,
                None => !(nanos < NANOS_PER_SEC && MIN_SECS <= secs <= MAX_SECS),
            },
    {
        if nanos < NANOS_PER_SEC && MIN_SECS <= secs && secs <= MAX_SECS {
            Some(Timestamp { secs, nanos })
        } else {
            None
        }
    }

    /// The seconds since the Unix epoch.
    pub fn seconds(&self) -> (r: i64)
        ensures
            r == self.whole(),
    {
        self.secs
    }

    /// The nanoseconds within the second.
    pub fn subsec_nanos(&self) -> (r: u32)
        ensures
            r == self.part(),
    {
        self.nanos
    }

    /// The time in RFC 3339 form.
    pub fn to_rfc3339(&self) -> (r: String)
        ensures
            r@ == self.text(),
    {
        proof {
            use_type_invariant(self);
        }
        rfc3339(self.secs, self.nanos)
    }

    /// The time in RFC 3339 form with `Z` for the offset.
    pub fn to_rfc3339_utc(&self) -> (r: String)
        ensures
            r@ == self.utc_text(),
    {
        proof {
            use_type_invariant(self);
        }
        rfc3339_utc(self.secs, self.nanos)
    }

    /// Whether more than `secs` seconds have passed from `then` to this time.
    pub fn later_than(&self, then: Timestamp, secs: i64) -> (r: bool)
        ensures
            r == (self@ - then@ > secs * NANOS_PER_SEC),
    {
        let a: i128 = self.secs as i128 * 1_000_000_000 + self.nanos as i128;
        let b: i128 = then.secs as i128 * 1_000_000_000 + then.nanos as i128;
        a - b > secs as i128 * 1_000_000_000
    }

    /// The whole seconds that have passed since `then`, rounded toward zero.
    pub fn seconds_since(&self, then: Timestamp) -> (r: i64)
        ensures
            r == (if self@ >= then@ {
                (self@ - then@) / (NANOS_PER_SEC as int)
            } else {
                -((then@ - self@) / (NANOS_PER_SEC as int))
            }),
    {
        proof {
            use_type_invariant(self);
            use_type_invariant(then);
        }
        let a: i128 = self.secs as i128 * 1_000_000_000 + self.nanos as i128;
        let b: i128 = then.secs as i128 * 1_000_000_000 + then.nanos as i128;
        if a >= b {
            ((a - b) / 1_000_000_000) as i64
        } else {
            (-((b - a) / 1_000_000_000)) as i64
        }
    }

    /// Whether this time is less than `d` before `now`.
    pub fn within(&self, now: Timestamp, d: Duration) -> (r: bool)
        ensures
            r == (now@ - self@ < d@),
    {
        let a: i128 = self.secs as i128 * 1_000_000_000 + self.nanos as i128;
        let b: i128 = now.secs as i128 * 1_000_000_000 + now.nanos as i128;
        b - a < d.secs as i128 * 1_000_000_000 + d.nanos as i128
    }
}

} // verus!
