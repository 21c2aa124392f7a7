//! Calendar-date helpers: a plain year/month/day date and the
//! roll-forward to the next monthly occurrence of an anchor day.

use vstd::prelude::*;

verus! {

/// Whether `y` is a leap year in the proleptic Gregorian calendar.
pub open spec fn spec_is_leap_year(y: int) -> bool {
    (y % 4 == 0 && y % 100 != 0) || y % 400 == 0
}

/// The number of days in month `m` of year `y`.
pub open spec fn spec_days_in_month(y: int, m: int) -> int {
    if m == 2 {
        if spec_is_leap_year(y) {
            29
        } else {
            28
        }
    } else if m == 4 || m == 6 || m == 9 || m == 11 {
        30
    } else {
        31
    }
}

/// The date one month later, with the day clamped to the target month's
/// length, as `(year, month, day)`.
pub open spec fn spec_add_month_clamped(y: int, m: int, d: int) -> (int, int, int) {
    let y2 = if m == 12 {
        y + 1
    } else {
        y
    };
    let m2 = if m == 12 {
        1
    } else {
        m + 1
    };
    if d <= spec_days_in_month(y2, m2) {
        (y2, m2, d)
    } else {
        (y2, m2, spec_days_in_month(y2, m2))
    }
}

/// The next monthly occurrence, strictly after month `(by, bm)` starts
/// being "used up": an anchor day `ad` lands on that day of `(by, bm)` if
/// the month still has it ahead (else one month later, clamped), or on the
/// month's last day if the month is too short.
pub open spec fn spec_monthly_after(ad: int, by: int, bm: int, bd: int) -> (int, int, int) {
    if ad <= spec_days_in_month(by, bm) {
        if ad <= bd {
            spec_add_month_clamped(by, bm, ad)
        } else {
            (by, bm, ad)
        }
    } else {
        (by, bm, spec_days_in_month(by, bm))
    }
}

/// A plain calendar date.  Years before 1 CE and after 262142 are out of
/// scope.
#[derive(Clone, Copy, Debug, PartialEq, Eq, PartialOrd, Ord, Hash, Structural)]
pub struct NaiveDate {
    pub year: i32,
    pub month: u8,
    pub day: u8,
}

impl NaiveDate {
    /// A valid date: the month exists and the day fits the month.
    pub open spec fn wf(self) -> bool {
        &&& 0 <= self.year <= 262_142
        &&& 1 <= self.month <= 12
        &&& 1 <= self.day <= spec_days_in_month(self.year as int, self.month as int)
    }

    /// Builds the given date, which must be valid.
    pub fn from_ymd(year: i32, month: u8, day: u8) -> (r: Self)
        requires
            0 <= year <= 262_142,
            1 <= month <= 12,
            1 <= day <= spec_days_in_month(year as int, month as int),
        ensures
            r.wf(),
            r == (NaiveDate { year, month, day }),
    {
        NaiveDate { year, month, day }
    }

    /// Whether `year` is a leap year.
    pub fn is_leap_year(year: i32) -> (r: bool)
        requires
            year >= 0,
        ensures
            r == spec_is_leap_year(year as int),
    {
        let y = year as u32;
        (y % 4 == 0 && y % 100 != 0) || y % 400 == 0
    }

    /// The number of days in month `month` of year `year`.
    pub fn days_in_month(year: i32, month: u8) -> (r: u8)
        requires
            year >= 0,
            1 <= month <= 12,
        ensures
            r == spec_days_in_month(year as int, month as int),
    {
        if month == 2 {
            if Self::is_leap_year(year) {
                29
            } else {
                28
            }
        } else if month == 4 || month == 6 || month == 9 || month == 11 {
            30
        } else {
            31
        }
    }

    /// The zero-based day of the month.
    #[inline]
    pub fn day0(&self) -> (r: u8)
        requires
            self.wf(),
        ensures
            r == self.day - 1,
    {
        self.day - 1
    }

    /// The next date, strictly after `other`'s position in its month, on
    /// which a payment anchored to `self`'s day of month falls: the same
    /// day in `other`'s month if still ahead, one month later (clamped to
    /// the month's length) if already passed, or the last day of `other`'s
    /// month if the month is too short for the anchor day.
    pub fn monthly_after(&self, other: NaiveDate) -> (r: NaiveDate)
        requires
            self.wf(),
            other.wf(),
            other.year < 262_142 || other.month < 12,
        ensures
            r.wf(),
            (r.year as int, r.month as int, r.day as int) == spec_monthly_after(
                self.day as int,
                other.year as int,
                other.month as int,
                other.day as int,
            ),
    {
        let month_len = Self::days_in_month(other.year, other.month);
        if self.day <= month_len {
            if self.day <= other.day {
                let year2 = if other.month == 12 {
                    other.year + 1
                } else {
                    other.year
                };
                let month2 = if other.month == 12 {
                    1
                } else {
                    other.month + 1
                };
                let len2 = Self::days_in_month(year2, month2);
                let day2 = if self.day <= len2 {
                    self.day
                } else {
                    len2
                };
                NaiveDate { year: year2, month: month2, day: day2 }
            } else {
                NaiveDate { year: other.year, month: other.month, day: self.day }
            }
        } else {
            NaiveDate { year: other.year, month: other.month, day: month_len }
        }
    }
}

} // verus!
