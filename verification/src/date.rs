//! Calendar dates as plain year/month/day values: validity, ordering, and
//! reading the ISO `YYYY-MM-DD` form that backends deliver.

use crate::numbers::digit_val;
use crate::numbers::digits_val;
use crate::numbers::is_digit;
use vstd::prelude::*;
use vstd::string::StrSliceExecFns;

verus! {

/// A calendar date, without time of day.
#[derive(Debug, Clone, Copy, PartialEq, Eq, Structural)]
pub struct Date {
    /// Calendar year.
    pub year: i32,
    /// Month, 1 to 12.
    pub month: u32,
    /// Day of month, 1-based.
    pub day: u32,
}

/// Inclusive start/end range for requested schedules.
#[derive(Debug, Clone, Copy, PartialEq, Eq, Structural)]
pub struct DateRange {
    /// Start date (inclusive).
    pub start: Date,
    /// End date (inclusive).
    pub end: Date,
}

/// Whether `y` is a leap year in the Gregorian calendar.
pub open spec fn is_leap_year(y: int) -> bool {
    y % 4 == 0 && (y % 100 != 0 || y % 400 == 0)
}

/// Number of days in the given month.
pub open spec fn days_in_month_spec(y: int, m: int) -> int {
    if m == 2 {
        if is_leap_year(y) {
            29
        } else {
            28
        }
    } else if m == 4 || m == 6 || m == 9 || m == 11 {
        30
    } else {
        31
    }
}

/// Whether year, month and day form a real calendar date.
pub open spec fn valid_ymd(y: int, m: int, d: int) -> bool {
    1 <= m <= 12 && 1 <= d <= days_in_month_spec(y, m)
}

/// Number of days in the given month.
pub fn days_in_month(year: i32, month: u32) -> (r: u32)
    requires
        1 <= month <= 12,
    ensures
        r == days_in_month_spec(year as int, month as int),
{
    if month == 2 {
        if year % 4 == 0 && (year % 100 != 0 || year % 400 == 0) {
            29
        } else {
            28
        }
    } else if month == 4 || month == 6 || month == 9 || month == 11 {
        30
    } else {
        31
    }
}

impl Date {
    /// Whether this value denotes a real calendar date.
    pub open spec fn is_valid(self) -> bool {
        valid_ymd(self.year as int, self.month as int, self.day as int)
    }

    /// Build a date after checking calendar validity, as
    /// `NaiveDate::from_ymd_opt` does.
    pub fn new(year: i32, month: u32, day: u32) -> (r: Option<Date>)
        ensures
            r is Some <==> valid_ymd(year as int, month as int, day as int),
            r matches Some(d) ==> d == (Date { year, month, day }) && d.is_valid(),
    {
        if 1 <= month && month <= 12 && 1 <= day && day <= days_in_month(year, month) {
            Some(Date { year, month, day })
        } else {
            None
        }
    }

    /// Order on dates: year first, then month, then day.
    pub open spec fn le_spec(self, other: Date) -> bool {
        if self.year != other.year {
            self.year < other.year
        } else if self.month != other.month {
            self.month < other.month
        } else {
            self.day <= other.day
        }
    }

    /// Whether `self` is on or before `other`.
    pub fn le(&self, other: &Date) -> (r: bool)
        ensures
            r == self.le_spec(*other),
    {
        if self.year != other.year {
            self.year < other.year
        } else if self.month != other.month {
            self.month < other.month
        } else {
            self.day <= other.day
        }
    }
}

/// Whether `d` lies within the inclusive range `r`.
pub open spec fn in_range(d: Date, r: DateRange) -> bool {
    r.start.le_spec(d) && d.le_spec(r.end)
}

/// Whether `d` lies within the inclusive range `r`.
pub fn date_in_range(d: &Date, r: &DateRange) -> (res: bool)
    ensures
        res == in_range(*d, *r),
{
    r.start.le(d) && d.le(&r.end)
}

/// The date a string in the ISO `YYYY-MM-DD` form denotes, if it is well
/// formed and names a real calendar date.
pub open spec fn parse_date_spec(s: Seq<char>) -> Option<Date> {
    if s.len() == 10 && s[4] == '-' && s[7] == '-' && is_digit(s[0]) && is_digit(s[1]) && is_digit(
        s[2],
    ) && is_digit(s[3]) && is_digit(s[5]) && is_digit(s[6]) && is_digit(s[8]) && is_digit(s[9]) {
        let y = digits_val(s.subrange(0, 4));
        let m = digits_val(s.subrange(5, 7));
        let d = digits_val(s.subrange(8, 10));
        if valid_ymd(y as int, m as int, d as int) {
            Some(Date { year: y as i32, month: m as u32, day: d as u32 })
        } else {
            None
        }
    } else {
        None
    }
}

/// The value of the two-digit run at `i`.
proof fn lemma_two_digits(s: Seq<char>, i: int)
    requires
        0 <= i,
        i + 2 <= s.len(),
    ensures
        digits_val(s.subrange(i, i + 2)) == digit_val(s[i]) * 10 + digit_val(s[i + 1]),
{
    let two = s.subrange(i, i + 2);
    assert(s.subrange(i, i + 1).drop_last() =~= s.subrange(i, i));
    assert(s.subrange(i, i).len() == 0);
    assert(digits_val(s.subrange(i, i)) == 0);
    assert(s.subrange(i, i + 1).last() == s[i]);
    assert(digits_val(s.subrange(i, i + 1)) == digit_val(s[i]));
    assert(two.drop_last() =~= s.subrange(i, i + 1));
    assert(two.last() == s[i + 1]);
}

/// The value of the four-digit run at `i`.
proof fn lemma_four_digits(s: Seq<char>, i: int)
    requires
        0 <= i,
        i + 4 <= s.len(),
    ensures
        digits_val(s.subrange(i, i + 4)) == ((digit_val(s[i]) * 10 + digit_val(s[i + 1])) * 10
            + digit_val(s[i + 2])) * 10 + digit_val(s[i + 3]),
{
    let four = s.subrange(i, i + 4);
    lemma_two_digits(s, i);
    assert(s.subrange(i, i + 3).drop_last() =~= s.subrange(i, i + 2));
    assert(s.subrange(i, i + 3).last() == s[i + 2]);
    assert(digits_val(s.subrange(i, i + 3)) == digits_val(s.subrange(i, i + 2)) * 10 + digit_val(
        s[i + 2],
    ));
    assert(four.drop_last() =~= s.subrange(i, i + 3));
    assert(four.last() == s[i + 3]);
}

/// Read a date in the ISO `YYYY-MM-DD` form.
pub fn parse_date(s: &str) -> (r: Option<Date>)
    ensures
        r == parse_date_spec(s@),
{
    let n: usize = s.unicode_len();
    if n != 10 {
        return None;
    }
    if s.get_char(4) != '-' || s.get_char(7) != '-' {
        return None;
    }
    let mut vals: [u32; 10] = [0, 0, 0, 0, 0, 0, 0, 0, 0, 0];
    let mut i: usize = 0;
    while i < 10
        invariant
            n == 10,
            n == s@.len(),
            i <= 10,
            forall|t: int|
                0 <= t < i && t != 4 && t != 7 ==> is_digit(#[trigger] s@[t]) && vals@[t]
                    == digit_val(s@[t]),
        decreases 10 - i,
    {
        if i != 4 && i != 7 {
            let c = s.get_char(i);
            let cu: u32 = c as u32;
            if cu < 48 || cu > 57 {
                return None;
            }
            vals[i] = cu - 48;
        }
        i += 1;
    }
    proof {
        assert forall|t: int| 0 <= t < 10 && t != 4 && t != 7 implies vals@[t] <= 9 by {
            assert(is_digit(s@[t]));
        }
    }
    let y: u32 = ((vals[0] * 10 + vals[1]) * 10 + vals[2]) * 10 + vals[3];
    let m: u32 = vals[5] * 10 + vals[6];
    let d: u32 = vals[8] * 10 + vals[9];
    proof {
        lemma_four_digits(s@, 0);
        lemma_two_digits(s@, 5);
        lemma_two_digits(s@, 8);
    }
    let date = Date::new(y as i32, m, d);
    proof {
        assert(y as nat == digits_val(s@.subrange(0, 4)));
        assert(m as nat == digits_val(s@.subrange(5, 7)));
        assert(d as nat == digits_val(s@.subrange(8, 10)));
    }
    date
}

} // verus!
