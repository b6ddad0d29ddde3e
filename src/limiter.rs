//! A token bucket that gates how fast jobs enter the pipeline.
//!
//! The bucket holds at most `rate` tokens and refills continuously at `rate`
//! tokens per second; each admission takes one token. Time is a monotonic
//! clock reading in nanoseconds, supplied by the caller, and levels are kept in
//! billionths of a token so that a nanosecond of refill is a whole number.

use vstd::prelude::*;

verus! {

/// The rate used when the configured one is zero.
pub const DEFAULT_RATE: u32 = 1000;

/// Nanoseconds in a second; also the level of one whole token.
pub const NANOS_PER_SEC: u64 = 1_000_000_000;

/// The bucket's answer to a request for admission.
#[derive(PartialEq, Eq, Structural, Clone, Copy, Debug)]
pub enum Admission {
    /// Go ahead: one token was taken.
    Granted,
    /// Not yet: a token will be there after this many nanoseconds.
    Wait(u64),
}

/// The level after `elapsed` nanoseconds of refill, capped at the capacity.
pub open spec fn refilled(level: int, rate: int, elapsed: int) -> int {
    let filled = level + elapsed * rate;
    if filled < rate * NANOS_PER_SEC {
        filled
    } else {
        rate * NANOS_PER_SEC
    }
}

/// The least number of nanoseconds after which a bucket at `level` holds a
/// whole token.
pub open spec fn wait_for(level: int, rate: int) -> int {
    (NANOS_PER_SEC - level + rate - 1) / rate
}

pub open spec fn effective_rate(rate: u32) -> u64 {
    if rate == 0 {
        DEFAULT_RATE as u64
    } else {
        rate as u64
    }
}

pub struct TokenBucket {
    rate: u64,
    level: u64,
    last: Option<u64>,
    first: Ghost<int>,
    granted: Ghost<nat>,
}

impl TokenBucket {
    pub closed spec fn rate(&self) -> u64 {
        self.rate
    }

    /// The level, in billionths of a token, at the last clock reading.
    pub closed spec fn level(&self) -> u64 {
        self.level
    }

    /// The last clock reading, none before the first admission.
    pub closed spec fn last(&self) -> Option<u64> {
        self.last
    }

    /// The time of the first admission.
    pub closed spec fn first(&self) -> int {
        self.first@
    }

    /// How many admissions were granted.
    pub closed spec fn granted(&self) -> nat {
        self.granted@
    }

    pub closed spec fn wf(&self) -> bool {
        &&& 1 <= self.rate <= u32::MAX
        &&& self.level <= self.rate * NANOS_PER_SEC
        &&& match self.last {
            None => self.granted@ == 0 && self.level == 0,
            Some(t) => self.granted@ >= 1 && self.first@ <= t && self.level + (self.granted@ - 1)
                * NANOS_PER_SEC <= self.rate * (t - self.first@),
        }
    }

    /// A bucket for `rate` admissions per second. A zero rate is a
    /// misconfiguration: the bucket then runs at the default rate, and the
    /// second result says so, for the caller to warn.
    pub fn new(rate: u32) -> (r: (TokenBucket, bool))
        ensures
            r.0.wf(),
            r.0.rate() == effective_rate(rate),
            r.0.granted() == 0,
            r.0.last() is None,
            r.1 == (rate == 0),
    {
        let fell_back = rate == 0;
        let rate: u64 = if fell_back {
            DEFAULT_RATE as u64
        } else {
            rate as u64
        };
        (TokenBucket { rate, level: 0, last: None, first: Ghost(0), granted: Ghost(0) }, fell_back)
    }

    pub fn rate_per_sec(&self) -> (r: u64)
        ensures
            r == self.rate(),
    {
        self.rate
    }

    /// Asks for admission at clock reading `now`. The first request is
    /// granted at once and leaves the bucket empty; after that the bucket
    /// refills for the time since the last reading, and a request is granted
    /// when a whole token is there.
    pub fn acquire(&mut self, now: u64) -> (r: Admission)
        requires
            old(self).wf(),
            old(self).last() matches Some(t) ==> t <= now,
        ensures
            final(self).wf(),
            final(self).rate() == old(self).rate(),
            final(self).last() == Some(now),
            final(self).granted() == old(self).granted() + if r == Admission::Granted {
                1nat
            } else {
                0nat
            },
            match old(self).last() {
                None => r == Admission::Granted && final(self).level() == 0 && final(self).first()
                    == now,
                Some(t) => {
                    let l = refilled(old(self).level() as int, old(self).rate() as int, now - t);
                    &&& final(self).first() == old(self).first()
                    &&& if l >= NANOS_PER_SEC {
                        r == Admission::Granted && final(self).level() == l - NANOS_PER_SEC
                    } else {
                        r == Admission::Wait(wait_for(l, old(self).rate() as int) as u64)
                            && final(self).level() == l
                    }
                },
            },
    {
        match self.last {
            None => {
                self.last = Some(now);
                self.level = 0;
                self.first = Ghost(now as int);
                self.granted = Ghost(1);
                Admission::Granted
            },
            Some(t) => {
                let elapsed = now - t;
                let cap = self.rate * NANOS_PER_SEC;
                let ghost old_level = self.level as int;
                let ghost consumed = (self.granted@ - 1) * NANOS_PER_SEC;
                let l: u64 = if elapsed >= NANOS_PER_SEC {
                    proof {
                        assert(self.rate * NANOS_PER_SEC <= self.rate * elapsed) by (nonlinear_arith)
                            requires
                                elapsed >= NANOS_PER_SEC,
                                self.rate >= 1,
                        ;
                        assert(self.level + elapsed * self.rate >= cap);
                    }
                    cap
                } else {
                    proof {
                        assert(elapsed * self.rate <= NANOS_PER_SEC * u32::MAX) by (nonlinear_arith)
                            requires
                                elapsed < NANOS_PER_SEC,
                                self.rate <= u32::MAX,
                        ;
                    }
                    let filled = self.level + elapsed * self.rate;
                    if filled < cap {
                        filled
                    } else {
                        cap
                    }
                };
                proof {
                    let first = self.first@;
                    assert(l <= old_level + elapsed * self.rate);
                    assert(self.rate * (t - first) + elapsed * self.rate == self.rate * (now - first))
                        by (nonlinear_arith)
                        requires
                            elapsed == now - t,
                    ;
                    assert(l + consumed <= self.rate * (now - first));
                }
                self.last = Some(now);
                if l >= NANOS_PER_SEC {
                    self.level = l - NANOS_PER_SEC;
                    self.granted = Ghost(self.granted@ + 1);
                    Admission::Granted
                } else {
                    self.level = l;
                    Admission::Wait((NANOS_PER_SEC - l + self.rate - 1) / self.rate)
                }
            },
        }
    }
}

/// Admissions are spaced by the rate: when the bucket has granted `n`
/// admissions, at least `(n - 1) / rate` seconds separate the first of them
/// from the last clock reading, so from the `n`-th admission.
pub proof fn lemma_admission_spacing(b: TokenBucket)
    requires
        b.wf(),
        b.last() is Some,
    ensures
        (b.granted() - 1) * NANOS_PER_SEC <= b.rate() * (b.last()->0 - b.first()),
{
}

/// The wait that the bucket names is enough: after it, the refill reaches a
/// whole token.
pub proof fn lemma_wait_suffices(level: int, rate: int)
    requires
        0 <= level < NANOS_PER_SEC,
        rate >= 1,
    ensures
        level + wait_for(level, rate) * rate >= NANOS_PER_SEC,
        wait_for(level, rate) >= 1,
{
    let need = NANOS_PER_SEC - level;
    let w = (need + rate - 1) / rate;
    assert(w * rate >= need) by (nonlinear_arith)
        requires
            w == (need + rate - 1) / rate,
            rate >= 1,
            need >= 1,
    ;
    assert(w >= 1) by (nonlinear_arith)
        requires
            w == (need + rate - 1) / rate,
            rate >= 1,
            need >= 1,
    ;
}

} // verus!
