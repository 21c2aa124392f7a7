//! A signed time span with nanosecond precision, mirroring the classic
//! seconds-plus-subsecond-nanoseconds representation, bounded to
//! `i64::MAX` milliseconds either way.

use vstd::prelude::*;
use vstd::arithmetic::div_mod::lemma_fundamental_div_mod_converse;

verus! {

/// Nanoseconds in a second.
pub const NANOS_PER_SEC: u32 = 1_000_000_000;

/// The bound on a duration, in milliseconds, either way.
pub const MAX_MILLIS: i64 = i64::MAX;

/// Truncating division (rounds towards zero), for a positive divisor.
pub open spec fn div_trunc(a: int, b: int) -> int
    recommends
        b > 0,
{
    if a >= 0 {
        a / b
    } else {
        -((-a) / b)
    }
}

/// The unit a span displays as.
#[derive(Clone, Copy, Debug, PartialEq, Eq, Structural)]
pub enum TimeUnit {
    Year,
    Week,
    Day,
    Hour,
    Minute,
    Second,
    Millisecond,
    Microsecond,
    Nanosecond,
    /// The fallback for spans under a nanosecond: "a moment".
    Moment,
}

impl TimeUnit {
    /// The display word for the unit, singular.
    pub fn label(&self) -> (r: &'static str)
        ensures
            r@ == match *self {
                TimeUnit::Year => "year"@,
                TimeUnit::Week => "week"@,
                TimeUnit::Day => "day"@,
                TimeUnit::Hour => "hour"@,
                TimeUnit::Minute => "minute"@,
                TimeUnit::Second => "second"@,
                TimeUnit::Millisecond => "miliseconds"@,
                TimeUnit::Microsecond => "microsecond"@,
                TimeUnit::Nanosecond => "nanosecond"@,
                TimeUnit::Moment => "a moment"@,
            },
    {
        match *self {
            TimeUnit::Year => "year",
            TimeUnit::Week => "week",
            TimeUnit::Day => "day",
            TimeUnit::Hour => "hour",
            TimeUnit::Minute => "minute",
            TimeUnit::Second => "second",
            TimeUnit::Millisecond => "miliseconds",
            TimeUnit::Microsecond => "microsecond",
            TimeUnit::Nanosecond => "nanosecond",
            TimeUnit::Moment => "a moment",
        }
    }
}

/// What a span displays as: a count of the chosen unit, and whether the
/// count reads as plural.
#[derive(Clone, Copy, Debug, PartialEq, Eq, Structural)]
pub struct DurationWord {
    /// The count of the chosen unit; zero for a bare moment.
    pub value: i64,
    /// The chosen unit.
    pub unit: TimeUnit,
    /// Whether a trailing "s" belongs after the unit word.
    pub plural: bool,
}

/// A signed time span: whole seconds plus a non-negative subsecond
/// nanosecond part.  A negative span of -0.5 s is held as
/// `secs == -1, nanos == 500_000_000`.
#[derive(Clone, Copy, Debug, Hash, PartialEq, Eq, PartialOrd, Ord, Default, Structural)]
pub struct Duration {
    secs: i64,
    nanos: u32,
}

impl Duration {
    /// The span as a mathematical number of nanoseconds.
    pub closed spec fn total_nanos(self) -> int {
        self.secs * 1_000_000_000 + self.nanos
    }

    /// Well-formed: the subsecond part is a fraction of a second and the
    /// whole span is within `MAX_MILLIS` milliseconds either way.
    pub closed spec fn wf(self) -> bool {
        &&& self.nanos < 1_000_000_000
        &&& -(MAX_MILLIS as int) * 1_000_000 <= self.total_nanos() <= (MAX_MILLIS as int)
            * 1_000_000
    }

    /// The zero-length span.
    #[inline]
    pub fn zero() -> (r: Self)
        ensures
            r.wf(),
            r.total_nanos() == 0,
    {
        Duration { secs: 0, nanos: 0 }
    }

    /// The longest representable span: `MAX_MILLIS` milliseconds.
    #[inline]
    pub fn max_value() -> (r: Self)
        ensures
            r.wf(),
            r.total_nanos() == (MAX_MILLIS as int) * 1_000_000,
    {
        let r = Duration { secs: 9_223_372_036_854_775, nanos: 807_000_000 };
        proof {
            assert(r.total_nanos() == (MAX_MILLIS as int) * 1_000_000);
        }
        r
    }

    /// A span of `secs` whole seconds.
    #[inline]
    pub fn seconds(secs: i64) -> (r: Self)
        requires
            -9_223_372_036_854_775 <= secs <= 9_223_372_036_854_775,
        ensures
            r.wf(),
            r.total_nanos() == secs * 1_000_000_000,
    {
        Duration { secs, nanos: 0 }
    }

    /// A span of `weeks` weeks.
    #[inline]
    pub fn weeks(weeks: i64) -> (r: Self)
        requires
            -9_223_372_036_854_775 <= weeks * 604_800 <= 9_223_372_036_854_775,
        ensures
            r.wf(),
            r.total_nanos() == weeks * 604_800 * 1_000_000_000,
    {
        Duration { secs: weeks * 604_800, nanos: 0 }
    }

    /// A span of `days` days.
    #[inline]
    pub fn days(days: i64) -> (r: Self)
        requires
            -9_223_372_036_854_775 <= days * 86_400 <= 9_223_372_036_854_775,
        ensures
            r.wf(),
            r.total_nanos() == days * 86_400 * 1_000_000_000,
    {
        Duration { secs: days * 86_400, nanos: 0 }
    }

    /// A span of `hours` hours.
    #[inline]
    pub fn hours(hours: i64) -> (r: Self)
        requires
            -9_223_372_036_854_775 <= hours * 3_600 <= 9_223_372_036_854_775,
        ensures
            r.wf(),
            r.total_nanos() == hours * 3_600 * 1_000_000_000,
    {
        Duration { secs: hours * 3_600, nanos: 0 }
    }

    /// A span of `minutes` minutes.
    #[inline]
    pub fn minutes(minutes: i64) -> (r: Self)
        requires
            -9_223_372_036_854_775 <= minutes * 60 <= 9_223_372_036_854_775,
        ensures
            r.wf(),
            r.total_nanos() == minutes * 60 * 1_000_000_000,
    {
        Duration { secs: minutes * 60, nanos: 0 }
    }

    /// The magnitude of a non-positive-or-negative split: `n` as a
    /// non-negative number.
    fn abs_u64(n: i64) -> (r: u64)
        ensures
            r == (if n >= 0 {
                n as int
            } else {
                -(n as int)
            }),
    {
        if n >= 0 {
            n as u64
        } else {
            ((-1 - n) as u64) + 1
        }
    }

    /// A span of `millis` milliseconds.
    #[inline]
    pub fn milliseconds(millis: i64) -> (r: Self)
        requires
            millis >= -MAX_MILLIS,
        ensures
            r.wf(),
            r.total_nanos() == millis * 1_000_000,
    {
        Self::from_scaled(millis, 1_000, 1_000_000)
    }

    /// A span of `micros` microseconds.
    #[inline]
    pub fn microseconds(micros: i64) -> (r: Self)
        ensures
            r.wf(),
            r.total_nanos() == micros * 1_000,
    {
        Self::from_scaled(micros, 1_000_000, 1_000)
    }

    /// A span of `nanos` nanoseconds.
    #[inline]
    pub fn nanoseconds(nanos: i64) -> (r: Self)
        ensures
            r.wf(),
            r.total_nanos() == nanos,
    {
        Self::from_scaled(nanos, 1_000_000_000, 1)
    }

    /// A span of `n` units, where a second holds `per_sec` units of
    /// `unit_nanos` nanoseconds each.
    fn from_scaled(n: i64, per_sec: u64, unit_nanos: u64) -> (r: Self)
        requires
            per_sec * unit_nanos == 1_000_000_000,
            per_sec == 1_000 || per_sec == 1_000_000 || per_sec == 1_000_000_000,
            per_sec == 1_000 ==> n >= -MAX_MILLIS,
        ensures
            r.wf(),
            r.total_nanos() == n * unit_nanos,
    {
        let neg = n < 0;
        let m = Self::abs_u64(n);
        let q = m / per_sec;
        let rem = m % per_sec;
        let r = if !neg {
            Duration { secs: q as i64, nanos: (rem * unit_nanos) as u32 }
        } else if rem == 0 {
            Duration { secs: -(q as i64), nanos: 0 }
        } else {
            Duration {
                secs: -(q as i64) - 1,
                nanos: ((per_sec - rem) * unit_nanos) as u32,
            }
        };
        proof {
            assert(m == per_sec * q + rem);
            assert(q * (per_sec * unit_nanos) == (q * per_sec) * unit_nanos)
                by (nonlinear_arith);
            assert((per_sec * q + rem) * unit_nanos == (per_sec * q) * unit_nanos + rem
                * unit_nanos) by (nonlinear_arith);
            assert(rem * unit_nanos < 1_000_000_000) by (nonlinear_arith)
                requires
                    rem < per_sec,
                    per_sec * unit_nanos == 1_000_000_000,
                    unit_nanos >= 1,
            ;
            if neg {
                assert(r.total_nanos() == n * unit_nanos);
            }
            assert(-(MAX_MILLIS as int) * 1_000_000 <= r.total_nanos() <= (
            MAX_MILLIS as int) * 1_000_000) by (nonlinear_arith)
                requires
                    r.total_nanos() == n * unit_nanos,
                    unit_nanos == 1 || unit_nanos == 1_000 || unit_nanos == 1_000_000,
                    unit_nanos == 1_000_000 ==> n >= -MAX_MILLIS,
                    -i64::MAX - 1 <= n <= i64::MAX,
            ;
        }
        r
    }

    /// The number of whole seconds, rounded towards zero.
    #[inline]
    pub fn num_seconds(&self) -> (r: i64)
        requires
            self.wf(),
        ensures
            r == div_trunc(self.total_nanos(), 1_000_000_000),
    {
        let r = if self.secs < 0 && self.nanos > 0 {
            self.secs + 1
        } else {
            self.secs
        };
        proof {
            let t = self.total_nanos();
            if self.secs >= 0 {
                lemma_fundamental_div_mod_converse(
                    t,
                    1_000_000_000,
                    self.secs as int,
                    self.nanos as int,
                );
            } else if self.nanos == 0 {
                lemma_fundamental_div_mod_converse(
                    -t,
                    1_000_000_000,
                    -(self.secs as int),
                    0,
                );
            } else {
                lemma_fundamental_div_mod_converse(
                    -t,
                    1_000_000_000,
                    -(self.secs as int) - 1,
                    1_000_000_000 - self.nanos as int,
                );
            }
        }
        r
    }

    /// The number of whole weeks, rounded towards zero.
    #[inline]
    pub fn num_weeks(&self) -> (r: i64)
        requires
            self.wf(),
        ensures
            r == div_trunc(div_trunc(self.total_nanos(), 1_000_000_000), 604_800),
    {
        Self::div_trunc_exec(self.num_seconds(), 604_800)
    }

    /// The number of whole days, rounded towards zero.
    #[inline]
    pub fn num_days(&self) -> (r: i64)
        requires
            self.wf(),
        ensures
            r == div_trunc(div_trunc(self.total_nanos(), 1_000_000_000), 86_400),
    {
        Self::div_trunc_exec(self.num_seconds(), 86_400)
    }

    /// The number of whole hours, rounded towards zero.
    #[inline]
    pub fn num_hours(&self) -> (r: i64)
        requires
            self.wf(),
        ensures
            r == div_trunc(div_trunc(self.total_nanos(), 1_000_000_000), 3_600),
    {
        Self::div_trunc_exec(self.num_seconds(), 3_600)
    }

    /// The number of whole minutes, rounded towards zero.
    #[inline]
    pub fn num_minutes(&self) -> (r: i64)
        requires
            self.wf(),
        ensures
            r == div_trunc(div_trunc(self.total_nanos(), 1_000_000_000), 60),
    {
        Self::div_trunc_exec(self.num_seconds(), 60)
    }

    /// Truncating division of an `i64` by a positive constant.
    fn div_trunc_exec(a: i64, b: u32) -> (r: i64)
        requires
            b >= 1,
            a > i64::MIN,
        ensures
            r == div_trunc(a as int, b as int),
    {
        let neg = a < 0;
        let m = Self::abs_u64(a);
        let q = m / (b as u64);
        proof {
            assert(q * b <= m) by (nonlinear_arith)
                requires
                    q == m as int / b as int,
                    b >= 1,
            ;
        }
        if neg {
            -(q as i64)
        } else {
            q as i64
        }
    }

    /// The subsecond part relative to the truncated seconds: between
    /// `-999_999_999` and `999_999_999`, with the sign of the span.
    fn subsec_nanos_signed(&self) -> (r: i64)
        requires
            self.wf(),
        ensures
            r == self.total_nanos() - div_trunc(self.total_nanos(), 1_000_000_000)
                * 1_000_000_000,
            -1_000_000_000 < r < 1_000_000_000,
    {
        let r = if self.secs < 0 && self.nanos > 0 {
            (self.nanos as i64) - 1_000_000_000
        } else {
            self.nanos as i64
        };
        proof {
            let _ = self.num_seconds_ghost();
        }
        r
    }

    /// Restates `num_seconds` for proofs without an exec call.
    proof fn num_seconds_ghost(&self) -> (r: int)
        requires
            self.wf(),
        ensures
            r == div_trunc(self.total_nanos(), 1_000_000_000),
            r == if self.secs < 0 && self.nanos > 0 {
                self.secs + 1
            } else {
                self.secs as int
            },
    {
        let t = self.total_nanos();
        if self.secs >= 0 {
            lemma_fundamental_div_mod_converse(
                t,
                1_000_000_000,
                self.secs as int,
                self.nanos as int,
            );
            self.secs as int
        } else if self.nanos == 0 {
            lemma_fundamental_div_mod_converse(-t, 1_000_000_000, -(self.secs as int), 0);
            self.secs as int
        } else {
            lemma_fundamental_div_mod_converse(
                -t,
                1_000_000_000,
                -(self.secs as int) - 1,
                1_000_000_000 - self.nanos as int,
            );
            self.secs + 1
        }
    }

    /// The number of whole milliseconds, rounded towards zero.
    pub fn num_milliseconds(&self) -> (r: i64)
        requires
            self.wf(),
        ensures
            r == div_trunc(self.total_nanos(), 1_000_000),
    {
        let s = self.num_seconds();
        let sub = self.subsec_nanos_signed();
        proof {
            let t = self.total_nanos();
            let q = div_trunc(t, 1_000_000_000);
            assert(-9_223_372_036_854_775 <= q <= 9_223_372_036_854_775) by (nonlinear_arith)
                requires
                    q == div_trunc(t, 1_000_000_000),
                    -(MAX_MILLIS as int) * 1_000_000 <= t <= (MAX_MILLIS as int) * 1_000_000,
            ;
            let sb = t - q * 1_000_000_000;
            if t >= 0 {
                lemma_fundamental_div_mod_converse(
                    t,
                    1_000_000,
                    q * 1_000 + sb / 1_000_000,
                    sb % 1_000_000,
                );
            } else {
                lemma_fundamental_div_mod_converse(
                    -t,
                    1_000_000,
                    -(q * 1_000) + (-sb) / 1_000_000,
                    (-sb) % 1_000_000,
                );
            }
        }
        let sub_ms = Self::div_trunc_exec(sub, 1_000_000);
        s * 1_000 + sub_ms
    }

    /// The number of whole microseconds, rounded towards zero, where that
    /// fits an `i64`.
    pub fn num_microseconds(&self) -> (r: Option<i64>)
        requires
            self.wf(),
        ensures
            match r {
                Some(n) => n == div_trunc(self.total_nanos(), 1_000),
                None => !(-i64::MAX - 1 <= div_trunc(self.total_nanos(), 1_000)
                    <= i64::MAX),
            },
    {
        let s = self.num_seconds();
        let sub = self.subsec_nanos_signed();
        let sub_us = Self::div_trunc_exec(sub, 1_000);
        proof {
            let t = self.total_nanos();
            let q = div_trunc(t, 1_000_000_000);
            let sb = t - q * 1_000_000_000;
            if t >= 0 {
                lemma_fundamental_div_mod_converse(
                    t,
                    1_000,
                    q * 1_000_000 + sb / 1_000,
                    sb % 1_000,
                );
            } else {
                lemma_fundamental_div_mod_converse(
                    -t,
                    1_000,
                    -(q * 1_000_000) + (-sb) / 1_000,
                    (-sb) % 1_000,
                );
            }
        }
        match s.checked_mul(1_000_000) {
            Some(s_us) => s_us.checked_add(sub_us),
            None => None,
        }
    }

    /// The total number of nanoseconds, where that fits an `i64`.
    pub fn num_nanoseconds(&self) -> (r: Option<i64>)
        requires
            self.wf(),
        ensures
            match r {
                Some(n) => n == self.total_nanos(),
                None => !(-i64::MAX - 1 <= self.total_nanos() <= i64::MAX),
            },
    {
        let s = self.num_seconds();
        let sub = self.subsec_nanos_signed();
        proof {
            let _ = self.num_seconds_ghost();
        }
        match s.checked_mul(1_000_000_000) {
            Some(s_ns) => s_ns.checked_add(sub),
            None => None,
        }
    }

    /// Whether the whole span is inside the representable range.
    pub open spec fn spec_in_range(t: int) -> bool {
        -(MAX_MILLIS as int) * 1_000_000 <= t <= (MAX_MILLIS as int) * 1_000_000
    }

    /// Bounds on the seconds field that the range bound forces.
    proof fn lemma_secs_bounds(self)
        requires
            self.wf(),
        ensures
            -9_223_372_036_854_776 <= self.secs <= 9_223_372_036_854_775,
    {
        assert(-9_223_372_036_854_776 <= self.secs <= 9_223_372_036_854_775)
            by (nonlinear_arith)
            requires
                self.nanos < 1_000_000_000,
                -(MAX_MILLIS as int) * 1_000_000 <= self.secs * 1_000_000_000
                    + self.nanos <= (MAX_MILLIS as int) * 1_000_000,
        ;
    }

    /// Whether a seconds/nanoseconds pair is inside the representable
    /// range, tested against the two boundary pairs.
    fn pair_in_range(secs: i64, nanos: u32) -> (r: bool)
        requires
            nanos < 1_000_000_000,
        ensures
            r == Self::spec_in_range(secs * 1_000_000_000 + nanos),
    {
        let too_big = secs > 9_223_372_036_854_775 || (secs == 9_223_372_036_854_775
            && nanos > 807_000_000);
        let too_small = secs < -9_223_372_036_854_776 || (secs == -9_223_372_036_854_776
            && nanos < 193_000_000);
        proof {
            assert(9_223_372_036_854_775i64 * 1_000_000_000 + 807_000_000 == (
            MAX_MILLIS as int) * 1_000_000);
            assert((-9_223_372_036_854_776i64) * 1_000_000_000 + 193_000_000 == -(
            MAX_MILLIS as int) * 1_000_000);
        }
        !too_big && !too_small
    }

    /// The sum of two spans, or `None` where it leaves the representable
    /// range.
    pub fn checked_add(&self, rhs: &Duration) -> (r: Option<Duration>)
        requires
            self.wf(),
            rhs.wf(),
        ensures
            match r {
                Some(d) => d.wf() && d.total_nanos() == self.total_nanos()
                    + rhs.total_nanos(),
                None => !Self::spec_in_range(self.total_nanos() + rhs.total_nanos()),
            },
    {
        proof {
            self.lemma_secs_bounds();
            rhs.lemma_secs_bounds();
        }
        let mut secs = self.secs + rhs.secs;
        let mut nanos = self.nanos + rhs.nanos;
        if nanos >= 1_000_000_000 {
            nanos = nanos - 1_000_000_000;
            secs = secs + 1;
        }
        if Self::pair_in_range(secs, nanos) {
            Some(Duration { secs, nanos })
        } else {
            None
        }
    }

    /// The difference of two spans, or `None` where it leaves the
    /// representable range.
    pub fn checked_sub(&self, rhs: &Duration) -> (r: Option<Duration>)
        requires
            self.wf(),
            rhs.wf(),
        ensures
            match r {
                Some(d) => d.wf() && d.total_nanos() == self.total_nanos()
                    - rhs.total_nanos(),
                None => !Self::spec_in_range(self.total_nanos() - rhs.total_nanos()),
            },
    {
        proof {
            self.lemma_secs_bounds();
            rhs.lemma_secs_bounds();
        }
        let secs;
        let nanos;
        if self.nanos >= rhs.nanos {
            secs = self.secs - rhs.secs;
            nanos = self.nanos - rhs.nanos;
        } else {
            secs = self.secs - rhs.secs - 1;
            nanos = self.nanos + 1_000_000_000 - rhs.nanos;
        }
        if Self::pair_in_range(secs, nanos) {
            Some(Duration { secs, nanos })
        } else {
            None
        }
    }

    /// Whether this span is strictly shorter than `other` (towards minus
    /// infinity).  Agrees with the derived lexicographic order on the
    /// seconds and subsecond fields.
    pub fn less_than(&self, other: &Duration) -> (r: bool)
        requires
            self.wf(),
            other.wf(),
        ensures
            r == (self.total_nanos() < other.total_nanos()),
    {
        self.secs < other.secs || (self.secs == other.secs && self.nanos < other.nanos)
    }

    /// The span clamped below by zero, as a ramp function.
    #[must_use]
    pub fn ramp(self) -> (r: Self)
        requires
            self.wf(),
        ensures
            r.wf(),
            r.total_nanos() == (if self.total_nanos() >= 0 {
                self.total_nanos()
            } else {
                0
            }),
    {
        if self.secs < 0 {
            Self::zero()
        } else {
            self
        }
    }

    /// The number of whole seconds, rounded towards zero, as a number.
    pub open spec fn spec_num_seconds(self) -> int {
        div_trunc(self.total_nanos(), 1_000_000_000)
    }

    /// The number of whole weeks, as a number.
    pub open spec fn spec_num_weeks(self) -> int {
        div_trunc(self.spec_num_seconds(), 604_800)
    }

    /// The number of whole days, as a number.
    pub open spec fn spec_num_days(self) -> int {
        div_trunc(self.spec_num_seconds(), 86_400)
    }

    /// The number of whole hours, as a number.
    pub open spec fn spec_num_hours(self) -> int {
        div_trunc(self.spec_num_seconds(), 3_600)
    }

    /// The number of whole minutes, as a number.
    pub open spec fn spec_num_minutes(self) -> int {
        div_trunc(self.spec_num_seconds(), 60)
    }

    /// The number of whole milliseconds, as a number.
    pub open spec fn spec_num_millis(self) -> int {
        div_trunc(self.total_nanos(), 1_000_000)
    }

    /// The number of whole microseconds where it fits an `i64`, else zero.
    pub open spec fn spec_num_micros_or_zero(self) -> int {
        if -i64::MAX - 1 <= div_trunc(self.total_nanos(), 1_000) <= i64::MAX {
            div_trunc(self.total_nanos(), 1_000)
        } else {
            0
        }
    }

    /// The total nanoseconds where they fit an `i64`, else zero.
    pub open spec fn spec_num_nanos_or_zero(self) -> int {
        if -i64::MAX - 1 <= self.total_nanos() <= i64::MAX {
            self.total_nanos()
        } else {
            0
        }
    }

    /// The naive number of whole years, as a number.
    pub open spec fn spec_num_years(self) -> int {
        div_trunc(self.spec_num_days(), 365)
    }

    /// The value and unit the span displays as: the count of the largest
    /// unit of which the span holds at least one, or a bare moment.
    pub open spec fn spec_word(self) -> (int, TimeUnit) {
        if self.spec_num_years() > 0 {
            (self.spec_num_years(), TimeUnit::Year)
        } else if self.spec_num_weeks() > 0 {
            (self.spec_num_weeks(), TimeUnit::Week)
        } else if self.spec_num_days() > 0 {
            (self.spec_num_days(), TimeUnit::Day)
        } else if self.spec_num_hours() > 0 {
            (self.spec_num_hours(), TimeUnit::Hour)
        } else if self.spec_num_minutes() > 0 {
            (self.spec_num_minutes(), TimeUnit::Minute)
        } else if self.spec_num_seconds() > 0 {
            (self.spec_num_seconds(), TimeUnit::Second)
        } else if self.spec_num_millis() > 0 {
            (self.spec_num_millis(), TimeUnit::Millisecond)
        } else if self.spec_num_micros_or_zero() > 0 {
            (self.spec_num_micros_or_zero(), TimeUnit::Microsecond)
        } else if self.spec_num_nanos_or_zero() > 0 {
            (self.spec_num_nanos_or_zero(), TimeUnit::Nanosecond)
        } else {
            (0, TimeUnit::Moment)
        }
    }

    /// Pretty formatting in the style of "1 day", "3 hours", etc. —
    /// whatever the largest denominator is.  Returns the pieces; rendering
    /// the text is the caller's affair.
    pub fn display_as_word(self) -> (r: DurationWord)
        requires
            self.wf(),
        ensures
            (r.value as int, r.unit) == self.spec_word(),
            r.plural == (r.value > 1),
    {
        let years = self.num_years_naive();
        let weeks = self.num_weeks();
        let days = self.num_days();
        let hours = self.num_hours();
        let minutes = self.num_minutes();
        let seconds = self.num_seconds();
        let millis = self.num_milliseconds();
        let micros = match self.num_microseconds() {
            Some(n) => n,
            None => 0,
        };
        let nanos = match self.num_nanoseconds() {
            Some(n) => n,
            None => 0,
        };
        let (value, unit) = if years > 0 {
            (years, TimeUnit::Year)
        } else if weeks > 0 {
            (weeks, TimeUnit::Week)
        } else if days > 0 {
            (days, TimeUnit::Day)
        } else if hours > 0 {
            (hours, TimeUnit::Hour)
        } else if minutes > 0 {
            (minutes, TimeUnit::Minute)
        } else if seconds > 0 {
            (seconds, TimeUnit::Second)
        } else if millis > 0 {
            (millis, TimeUnit::Millisecond)
        } else if micros > 0 {
            (micros, TimeUnit::Microsecond)
        } else if nanos > 0 {
            (nanos, TimeUnit::Nanosecond)
        } else {
            (0i64, TimeUnit::Moment)
        };
        DurationWord { value, unit, plural: value > 1 }
    }

    /// A naive estimate of the number of whole years: whole days divided by
    /// 365.
    #[inline]
    pub fn num_years_naive(&self) -> (r: i64)
        requires
            self.wf(),
        ensures
            r == div_trunc(
                div_trunc(div_trunc(self.total_nanos(), 1_000_000_000), 86_400),
                365,
            ),
    {
        Self::div_trunc_exec(self.num_days(), 365)
    }
}

} // verus!
