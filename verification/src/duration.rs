//! Spans of time in whole nanoseconds.
use vstd::prelude::*;

verus! {

/// How many nanoseconds a second has.
pub const NANOS_PER_SEC: u32 = 1_000_000_000;

/// A span of time. Its view is its length in nanoseconds.
#[derive(Clone, Copy, Debug, PartialEq, Eq, Structural)]
pub struct Duration {
    secs: u64,
    nanos: u32,
}

impl View for Duration {
    type V = nat;

    closed spec fn view(&self) -> nat {
        self.secs as nat * NANOS_PER_SEC as nat + self.nanos as nat
    }
}

/// The longest span, plus a nanosecond.
pub open spec fn span_limit() -> nat {
    (u64::MAX as nat + 1) * NANOS_PER_SEC as nat
}

impl Duration {
    /// The nanoseconds are less than a second.
    #[verifier::type_invariant]
    closed spec fn normal(self) -> bool {
        self.nanos < NANOS_PER_SEC
    }

    /// `secs` seconds and `nanos` nanoseconds, if the nanoseconds are less than a second.
    pub fn new(secs: u64, nanos: u32) -> (duration: Option<Duration>)
        ensures
            match duration {
                Some(d) => nanos < NANOS_PER_SEC && d@ == secs as nat * NANOS_PER_SEC as nat
                    + nanos as nat,
                None => nanos >= NANOS_PER_SEC,
            },
    {
        if nanos < NANOS_PER_SEC {
            Some(Duration { secs, nanos })
        } else {
            None
        }
    }

    /// A span of whole milliseconds.
    pub fn from_millis(millis: u64) -> (duration: Duration)
        ensures
            duration@ == millis as nat * 1_000_000,
    {
        Duration { secs: millis / 1000, nanos: (millis % 1000) as u32 * 1_000_000 }
    }

    /// The whole seconds.
    pub fn as_secs(&self) -> (secs: u64)
        ensures
            secs == self@ / NANOS_PER_SEC as nat,
    {
        proof {
            use_type_invariant(self);
        }
        self.secs
    }

    /// The nanoseconds beyond the whole seconds.
    pub fn subsec_nanos(&self) -> (nanos: u32)
        ensures
            nanos == self@ % NANOS_PER_SEC as nat,
    {
        proof {
            use_type_invariant(self);
        }
        self.nanos
    }

    /// The length in nanoseconds.
    pub fn as_nanos(&self) -> (nanos: u128)
        ensures
            nanos == self@,
            self@ < span_limit(),
            self@ < 0x1_0000_0000_0000_0000 * 1_000_000_000,
    {
        proof {
            use_type_invariant(self);
        }
        self.secs as u128 * 1_000_000_000 + self.nanos as u128
    }

    /// The whole milliseconds.
    pub fn as_millis(&self) -> (millis: u128)
        ensures
            millis == self@ / 1_000_000,
    {
        self.as_nanos() / 1_000_000
    }

    /// The share of one in `n`, rounded down to a nanosecond.
    pub fn split(&self, n: u64) -> (share: Duration)
        requires
            n > 0,
        ensures
            share@ == self@ / n as nat,
            share@ * n <= self@ < (share@ + 1) * n,
    {
        let whole: u128 = self.as_nanos();
        let share: u128 = whole / n as u128;
        proof {
            vstd::arithmetic::div_mod::lemma_div_is_ordered_by_denominator(
                whole as int,
                1,
                n as int,
            );
            vstd::arithmetic::div_mod::lemma_div_basics(whole as int);
            assert(share <= whole);
            let w = whole as int;
            let m = n as int;
            vstd::arithmetic::div_mod::lemma_fundamental_div_mod(w, m);
            assert((w / m) * m <= w < (w / m + 1) * m) by (nonlinear_arith)
                requires
                    w == m * (w / m) + w % m,
                    0 <= w % m < m,
            ;
        }
        Duration {
            secs: (share / NANOS_PER_SEC as u128) as u64,
            nanos: (share % NANOS_PER_SEC as u128) as u32,
        }
    }
}

/// How the standard library writes a span of this many nanoseconds for debugging.
pub uninterp spec fn debug_text(nanos: nat) -> Seq<char>;

/// The `Debug` text of `std::time::Duration`. It depends on the span alone; which text it is, is
/// named rather than described.
#[verifier::external_body]
pub(crate) fn duration_debug(duration: &Duration) -> (text: String)
    ensures
        text@ == debug_text(duration@),
{
    format!("{:?}", std::time::Duration::new(duration.secs, duration.nanos))
}

/// The longest span is a nanosecond short of `2^64` seconds, and a second has a thousand million
/// nanoseconds.
pub proof fn law_span_constants()
    ensures
        NANOS_PER_SEC == 1_000_000_000,
        span_limit() == 0x1_0000_0000_0000_0000 * 1_000_000_000,
{
}

} // verus!
