//! Calendar dates as plain values, with the calendar arithmetic that the
//! schedule needs taken from `chrono`.
use vstd::prelude::*;

use chrono::{Datelike, NaiveDate};

use crate::text::{all_digits, decimal, is_digit, lemma_decimal_digits, pad2};

verus! {

/// The first year that `chrono::NaiveDate` represents.
pub const MIN_YEAR: i32 = -262143;

/// The last year that `chrono::NaiveDate` represents.
pub const MAX_YEAR: i32 = 262142;

/// A day of the proleptic Gregorian calendar.
#[derive(Clone, Copy, Debug, PartialEq, Eq, Structural)]
pub struct Date {
    pub year: i32,
    pub month: u32,
    pub day: u32,
}

pub open spec fn is_leap_year(y: int) -> bool {
    (y % 4 == 0 && y % 100 != 0) || y % 400 == 0
}

pub open spec fn days_in_month(y: int, m: int) -> int {
    if m == 2 {
        if is_leap_year(y) {
            29
        } else {
            28
        }
    } else if m == 4 || m == 6 || m == 9 || m == 11 {
        30
    } else {
        31
    }
}

/// `(y, m, d)` names a day that `chrono::NaiveDate` represents.
pub open spec fn valid_ymd(y: int, m: int, d: int) -> bool {
    &&& MIN_YEAR <= y <= MAX_YEAR
    &&& 1 <= m <= 12
    &&& 1 <= d <= days_in_month(y, m)
}

/// The day after `(y, m, d)`.
pub open spec fn next_day(y: int, m: int, d: int) -> (int, int, int) {
    if d < days_in_month(y, m) {
        (y, m, d + 1)
    } else if m < 12 {
        (y, m + 1, 1)
    } else {
        (y + 1, 1, 1)
    }
}

/// The day before `(y, m, d)`.
pub open spec fn prev_day(y: int, m: int, d: int) -> (int, int, int) {
    if d > 1 {
        (y, m, d - 1)
    } else if m > 1 {
        (y, m - 1, days_in_month(y, m - 1))
    } else {
        (y - 1, 12, 31)
    }
}

/// The day before the day after a date is that date, and the day after the
/// day before it too: the keyboard's neighbour buttons lead back.
pub proof fn lemma_prev_next_day(y: int, m: int, d: int)
    requires
        valid_ymd(y, m, d),
    ensures
        ({
            let n = next_day(y, m, d);
            prev_day(n.0, n.1, n.2) == (y, m, d)
        }),
        ({
            let p = prev_day(y, m, d);
            next_day(p.0, p.1, p.2) == (y, m, d)
        }),
{
}

/// The day after a valid date short of the last one is valid, and so is the
/// day before one past the first.
pub proof fn lemma_neighbours_valid(y: int, m: int, d: int)
    requires
        valid_ymd(y, m, d),
    ensures
        !(y == MAX_YEAR && m == 12 && d == 31) ==> {
            let n = next_day(y, m, d);
            valid_ymd(n.0, n.1, n.2)
        },
        !(y == MIN_YEAR && m == 1 && d == 1) ==> {
            let p = prev_day(y, m, d);
            valid_ymd(p.0, p.1, p.2)
        },
{
}

/// `s` written with at least `w` digits, zeros in front.
pub open spec fn zero_pad(s: Seq<char>, w: nat) -> Seq<char> {
    if s.len() >= w {
        s
    } else {
        Seq::new((w - s.len()) as nat, |i: int| '0') + s
    }
}

/// How `chrono::NaiveDate` displays a date: `%Y-%m-%d`, the year with four
/// digits, or with a sign and at least four digits outside `0..=9999`.
pub open spec fn date_display(y: int, m: int, d: int) -> Seq<char> {
    let year = if 0 <= y <= 9999 {
        zero_pad(decimal(y as nat), 4)
    } else if y < 0 {
        seq!['-'] + zero_pad(decimal((-y) as nat), 4)
    } else {
        seq!['+'] + zero_pad(decimal(y as nat), 4)
    };
    year + seq!['-'] + pad2(m as nat) + seq!['-'] + pad2(d as nat)
}

pub proof fn lemma_zero_pad_digits(n: nat, w: nat)
    ensures
        all_digits(zero_pad(decimal(n), w)),
{
    lemma_decimal_digits(n);
    let s = zero_pad(decimal(n), w);
    if decimal(n).len() < w {
        let z = Seq::new((w - decimal(n).len()) as nat, |i: int| '0');
        assert forall|i: int| 0 <= i < s.len() implies is_digit(#[trigger] s[i]) by {
            if i < z.len() {
                assert(s[i] == z[i]);
            } else {
                assert(s[i] == decimal(n)[i - z.len()]);
            }
        }
    }
}

pub proof fn lemma_pad2_digits(n: nat)
    ensures
        all_digits(pad2(n)),
        pad2(n).len() >= 2,
{
    lemma_decimal_digits(n);
    let s = pad2(n);
    if n < 10 {
        assert forall|i: int| 0 <= i < s.len() implies is_digit(#[trigger] s[i]) by {
            if i > 0 {
                assert(s[i] == decimal(n)[i - 1]);
            }
        }
    } else {
        assert(decimal(n) =~= decimal(n / 10).push(crate::text::digit_char((n % 10) as int)));
        lemma_decimal_digits(n / 10);
    }
}

/// A displayed date holds digits, `-` and `+` only.
pub proof fn lemma_date_display_chars(y: int, m: int, d: int)
    requires
        1 <= m <= 12,
        1 <= d <= 31,
    ensures
        forall|i: int|
            0 <= i < date_display(y, m, d).len() ==> {
                let c = #[trigger] date_display(y, m, d)[i];
                is_digit(c) || c == '-' || c == '+'
            },
{
    let yn: nat = if y < 0 { (-y) as nat } else { y as nat };
    lemma_zero_pad_digits(yn, 4);
    lemma_pad2_digits(m as nat);
    lemma_pad2_digits(d as nat);
    let ys = if 0 <= y <= 9999 {
        zero_pad(decimal(y as nat), 4)
    } else if y < 0 {
        seq!['-'] + zero_pad(decimal((-y) as nat), 4)
    } else {
        seq!['+'] + zero_pad(decimal(y as nat), 4)
    };
    assert forall|i: int| 0 <= i < ys.len() implies {
        let c = #[trigger] ys[i];
        is_digit(c) || c == '-' || c == '+'
    } by {
        if !(0 <= y <= 9999) && i > 0 {
            assert(ys[i] == zero_pad(decimal(yn), 4)[i - 1]);
        }
    }
    let full = date_display(y, m, d);
    let a = ys + seq!['-'];
    let b = a + pad2(m as nat);
    let c = b + seq!['-'];
    assert(full =~= c + pad2(d as nat));
    assert forall|i: int| 0 <= i < full.len() implies {
        let ch = #[trigger] full[i];
        is_digit(ch) || ch == '-' || ch == '+'
    } by {
        if i < ys.len() {
            assert(full[i] == ys[i]);
        } else if i < a.len() {
        } else if i < b.len() {
            assert(full[i] == pad2(m as nat)[i - a.len()]);
        } else if i < c.len() {
        } else {
            assert(full[i] == pad2(d as nat)[i - c.len()]);
        }
    }
}

/// The number of days from 1970-01-01 to `(y, m, d)` in the proleptic
/// Gregorian calendar, counted in eras of 400 years that start on March 1st.
pub open spec fn days_from_civil(y: int, m: int, d: int) -> int {
    let yy = if m <= 2 {
        y - 1
    } else {
        y
    };
    let era = yy / 400;
    let year_of_era = yy - era * 400;
    let month_from_march = if m > 2 {
        m - 3
    } else {
        m + 9
    };
    let day_of_year = (153 * month_from_march + 2) / 5 + d - 1;
    let day_of_era = year_of_era * 365 + year_of_era / 4 - year_of_era / 100 + day_of_year;
    era * 146097 + day_of_era - 719468
}

/// The day of the week of `(y, m, d)`, 0 for Monday up to 6 for Sunday;
/// 1970-01-01 was a Thursday.
pub open spec fn weekday_of(y: int, m: int, d: int) -> int {
    (days_from_civil(y, m, d) + 3) % 7
}

/// What `chrono`'s `Datelike::iso_week().week()` returns for a valid date: the
/// ISO 8601 week number.
pub uninterp spec fn iso_week_of(y: int, m: int, d: int) -> int;

/// What `str::parse::<chrono::NaiveDate>()` returns, as year, month and day.
pub uninterp spec fn date_from_str(s: Seq<char>) -> Option<(i32, u32, u32)>;

/// `d` is neither the first nor the last day that dates reach, so both of
/// its neighbours exist.
pub open spec fn has_neighbours(d: Date) -> bool {
    &&& !(d.year == MIN_YEAR && d.month == 1 && d.day == 1)
    &&& !(d.year == MAX_YEAR && d.month == 12 && d.day == 31)
}

impl Date {
    /// Both the day before and the day after this date exist.
    pub fn has_neighbours(&self) -> (r: bool)
        ensures
            r == has_neighbours(*self),
    {
        !(self.year == MIN_YEAR && self.month == 1 && self.day == 1) && !(self.year == MAX_YEAR
            && self.month == 12 && self.day == 31)
    }

    pub open spec fn valid(self) -> bool {
        valid_ymd(self.year as int, self.month as int, self.day as int)
    }

    pub open spec fn ymd(self) -> (int, int, int) {
        (self.year as int, self.month as int, self.day as int)
    }

    /// `NaiveDate::from_ymd_opt`: the date, where it exists.
    pub fn from_ymd_opt(year: i32, month: u32, day: u32) -> (r: Option<Date>)
        ensures
            r == (if valid_ymd(year as int, month as int, day as int) {
                Some(Date { year, month, day })
            } else {
                None
            }),
    {
        if year < MIN_YEAR || year > MAX_YEAR || month < 1 || month > 12 || day < 1 {
            return None;
        }
        // A shift by a multiple of 400 years keeps leap years and makes the year positive.
        let shifted: u64 = (year as i64 + 400_000) as u64;
        let leap = (shifted % 4 == 0 && shifted % 100 != 0) || shifted % 400 == 0;
        assert(leap == is_leap_year(year as int)) by {
            assert(shifted as int == year as int + 400_000);
        }
        let dim: u32 = if month == 2 {
            if leap {
                29
            } else {
                28
            }
        } else if month == 4 || month == 6 || month == 9 || month == 11 {
            30
        } else {
            31
        };
        if day > dim {
            None
        } else {
            Some(Date { year, month, day })
        }
    }

    /// `Datelike::weekday().num_days_from_monday()`: the day of the week,
    /// counted from Monday as 0.
    #[verifier::external_body]
    pub(crate) fn weekday_from_monday(&self) -> (r: u32)
        requires
            self.valid(),
        ensures
            r as int == weekday_of(self.year as int, self.month as int, self.day as int),
            r < 7,
    {
        NaiveDate::from_ymd_opt(self.year, self.month, self.day).unwrap().weekday().num_days_from_monday()
    }

    /// The ISO 8601 week number, 1 to 53.
    #[verifier::external_body]
    pub(crate) fn iso_week(&self) -> (r: u32)
        requires
            self.valid(),
        ensures
            r as int == iso_week_of(self.year as int, self.month as int, self.day as int),
            1 <= r <= 53,
    {
        NaiveDate::from_ymd_opt(self.year, self.month, self.day).unwrap().iso_week().week()
    }

    /// The next day: `date + Duration::days(1)`.
    #[verifier::external_body]
    pub(crate) fn succ(&self) -> (r: Date)
        requires
            self.valid(),
            !(self.year == MAX_YEAR && self.month == 12 && self.day == 31),
        ensures
            r.ymd() == next_day(self.year as int, self.month as int, self.day as int),
            r.valid(),
    {
        let d = NaiveDate::from_ymd_opt(self.year, self.month, self.day).unwrap()
            + chrono::Duration::days(1);
        Date { year: d.year(), month: d.month(), day: d.day() }
    }

    /// The day before: `date - Duration::days(1)`.
    #[verifier::external_body]
    pub(crate) fn pred(&self) -> (r: Date)
        requires
            self.valid(),
            !(self.year == MIN_YEAR && self.month == 1 && self.day == 1),
        ensures
            r.ymd() == prev_day(self.year as int, self.month as int, self.day as int),
            r.valid(),
    {
        let d = NaiveDate::from_ymd_opt(self.year, self.month, self.day).unwrap()
            - chrono::Duration::days(1);
        Date { year: d.year(), month: d.month(), day: d.day() }
    }

    /// `NaiveDate`'s `Display`: `%Y-%m-%d`. Parsing gives the date back.
    #[verifier::external_body]
    pub(crate) fn to_date_string(&self) -> (r: String)
        requires
            self.valid(),
        ensures
            r@ == date_display(self.year as int, self.month as int, self.day as int),
            date_from_str(r@) == Some((self.year, self.month, self.day)),
    {
        NaiveDate::from_ymd_opt(self.year, self.month, self.day).unwrap().to_string()
    }

    /// `str::parse::<NaiveDate>()`, `None` where it fails.
    #[verifier::external_body]
    pub(crate) fn parse(s: &str) -> (r: Option<Date>)
        ensures
            r == (match date_from_str(s@) {
                Some((y, m, d)) => Some(Date { year: y, month: m, day: d }),
                None => None,
            }),
            r matches Some(d) ==> d.valid(),
    {
        match s.parse::<NaiveDate>() {
            Ok(d) => Some(Date { year: d.year(), month: d.month(), day: d.day() }),
            Err(_) => None,
        }
    }
}

} // verus!
