//! Calendar dates for the nightly-release timeline: validity, ordering by
//! day index, stepping by single days, and the `YYYY-MM-DD` notation.

use vstd::prelude::*;
use vstd::string::StrSliceExecFns;
use vstd::string::StringExecFns;
use chrono::Datelike;

verus! {

/// A calendar day in the proleptic Gregorian calendar, years 0 through 9999.
#[derive(Clone, Copy, Debug, PartialEq, Eq, Structural, Hash)]
pub struct GitDate {
    pub year: u16,
    pub month: u8,
    pub day: u8,
}

pub open spec fn is_leap_year(y: int) -> bool {
    y % 4 == 0 && (y % 100 != 0 || y % 400 == 0)
}

pub open spec fn days_in_month(y: int, m: int) -> int {
    if m == 2 {
        if is_leap_year(y) {
            29
        } else {
            28
        }
    } else if m == 4 || m == 6 || m == 9 || m == 11 {
        30
    } else {
        31
    }
}

/// Days in year `y` that lie before month `m`.
pub open spec fn days_before_month(y: int, m: int) -> int
    decreases m,
{
    if m <= 1 {
        0
    } else {
        days_before_month(y, m - 1) + days_in_month(y, m - 1)
    }
}

pub open spec fn days_in_year(y: int) -> int {
    days_before_month(y, 13)
}

/// Days before the first of January of year `y`, counted from year 0.
pub open spec fn days_before_year(y: int) -> int
    decreases y,
{
    if y <= 0 {
        0
    } else {
        days_before_year(y - 1) + days_in_year(y - 1)
    }
}

impl GitDate {
    pub open spec fn wf(self) -> bool {
        &&& self.year <= 9999
        &&& 1 <= self.month <= 12
        &&& 1 <= self.day <= days_in_month(self.year as int, self.month as int)
    }

    /// The number of days between year 0's January the first and this date.
    pub open spec fn day_index(self) -> int {
        days_before_year(self.year as int) + days_before_month(
            self.year as int,
            self.month as int,
        ) + self.day - 1
    }

    pub open spec fn spec_le(self, other: GitDate) -> bool {
        self.day_index() <= other.day_index()
    }
}

proof fn lemma_days_in_year_value(y: int)
    ensures
        days_in_year(y) == if is_leap_year(y) {
            366int
        } else {
            365int
        },
{
    reveal_with_fuel(days_before_month, 13);
}

proof fn lemma_days_before_year_bound(y: int)
    requires
        0 <= y,
    ensures
        days_before_year(y) <= 366 * y,
        0 <= days_before_year(y),
    decreases y,
{
    if y > 0 {
        lemma_days_before_year_bound(y - 1);
        lemma_days_in_year_value(y - 1);
    }
}

proof fn lemma_days_before_month_bound(y: int, m: int)
    requires
        1 <= m <= 13,
    ensures
        0 <= days_before_month(y, m) <= 31 * (m - 1),
    decreases m,
{
    if m > 1 {
        lemma_days_before_month_bound(y, m - 1);
    }
}

proof fn lemma_dbm_le_year(y: int, m: int)
    requires
        1 <= m <= 13,
    ensures
        days_before_month(y, m) <= days_before_month(y, 13),
    decreases 13 - m,
{
    if m < 13 {
        lemma_dbm_le_year(y, m + 1);
    }
}

proof fn lemma_dby_mono(y1: int, y2: int)
    requires
        0 <= y1 <= y2,
    ensures
        days_before_year(y1) <= days_before_year(y2),
    decreases y2 - y1,
{
    if y1 < y2 {
        lemma_dby_mono(y1, y2 - 1);
        lemma_days_in_year_value(y2 - 1);
    }
}

/// No supported date lies past the last day of year 9999.
pub proof fn lemma_day_index_le_max(d: GitDate)
    requires
        d.wf(),
    ensures
        d.day_index() <= (GitDate { year: 9999, month: 12, day: 31 }).day_index(),
{
    let y = d.year as int;
    let m = d.month as int;
    assert(days_before_month(y, m) + days_in_month(y, m) == days_before_month(y, m + 1));
    lemma_dbm_le_year(y, m + 1);
    assert(d.day_index() <= days_before_year(y) + days_before_month(y, 13) - 1);
    assert(days_before_year(y + 1) == days_before_year(y) + days_in_year(y));
    lemma_dby_mono(y + 1, 10000);
    assert(days_before_month(9999, 13) == days_before_month(9999, 12) + days_in_month(9999, 12));
    assert(days_before_year(10000) == days_before_year(9999) + days_in_year(9999));
}

fn days_in_month_x(y: u16, m: u8) -> (n: u8)
    requires
        1 <= m <= 12,
    ensures
        n == days_in_month(y as int, m as int),
{
    if m == 2 {
        let leap = y % 4 == 0 && (y % 100 != 0 || y % 400 == 0);
        if leap {
            29
        } else {
            28
        }
    } else if m == 4 || m == 6 || m == 9 || m == 11 {
        30
    } else {
        31
    }
}

fn days_in_year_x(y: u16) -> (n: u16)
    ensures
        n == days_in_year(y as int),
{
    proof {
        lemma_days_in_year_value(y as int);
    }
    let leap = y % 4 == 0 && (y % 100 != 0 || y % 400 == 0);
    if leap {
        366
    } else {
        365
    }
}

impl GitDate {
    /// Builds a date, rejecting invalid calendar values.
    pub fn from_ymd_opt(year: u16, month: u8, day: u8) -> (r: Option<GitDate>)
        ensures
            match r {
                Some(d) => d.wf() && d == (GitDate { year, month, day }),
                None => !(GitDate { year, month, day }).wf(),
            },
    {
        if year <= 9999 && 1 <= month && month <= 12 {
            let dim = days_in_month_x(year, month);
            if 1 <= day && day <= dim {
                return Some(GitDate { year, month, day });
            }
        }
        None
    }

    /// The number of days from year 0's January the first to this date.
    pub fn day_number(&self) -> (n: u32)
        requires
            self.wf(),
        ensures
            n == self.day_index(),
            n <= 3_700_000,
    {
        let mut acc: u32 = 0;
        let mut y: u16 = 0;
        proof {
            lemma_days_before_year_bound(self.year as int);
        }
        while y < self.year
            invariant
                self.wf(),
                y <= self.year,
                acc == days_before_year(y as int),
                acc <= 366 * 10000,
            decreases self.year - y,
        {
            proof {
                lemma_days_before_year_bound(y as int + 1);
            }
            acc = acc + days_in_year_x(y) as u32;
            y = y + 1;
        }
        let mut m: u8 = 1;
        while m < self.month
            invariant
                self.wf(),
                1 <= m <= self.month,
                acc == days_before_year(self.year as int) + days_before_month(
                    self.year as int,
                    m as int,
                ),
                acc <= 366 * 10000 + 31 * 12,
            decreases self.month - m,
        {
            proof {
                lemma_days_before_year_bound(self.year as int);
                lemma_days_before_month_bound(self.year as int, m as int + 1);
                lemma_days_before_month_bound(self.year as int, m as int);
            }
            acc = acc + days_in_month_x(self.year, m) as u32;
            m = m + 1;
        }
        proof {
            lemma_days_before_year_bound(self.year as int);
            lemma_days_before_month_bound(self.year as int, self.month as int);
        }
        acc + self.day as u32 - 1
    }

    /// The next calendar day, or `None` past the supported range.
    pub fn succ_opt(&self) -> (r: Option<GitDate>)
        requires
            self.wf(),
        ensures
            match r {
                Some(d) => d.wf() && d.day_index() == self.day_index() + 1,
                None => self.year == 9999 && self.month == 12 && self.day == 31,
            },
    {
        let dim = days_in_month_x(self.year, self.month);
        if self.day < dim {
            Some(GitDate { year: self.year, month: self.month, day: self.day + 1 })
        } else if self.month < 12 {
            Some(GitDate { year: self.year, month: self.month + 1, day: 1 })
        } else if self.year < 9999 {
            proof {
                lemma_days_in_year_value(self.year as int);
                reveal_with_fuel(days_before_month, 13);
            }
            Some(GitDate { year: self.year + 1, month: 1, day: 1 })
        } else {
            None
        }
    }

    /// The previous calendar day, or `None` before the supported range.
    pub fn pred_opt(&self) -> (r: Option<GitDate>)
        requires
            self.wf(),
        ensures
            match r {
                Some(d) => d.wf() && d.day_index() == self.day_index() - 1,
                None => self.year == 0 && self.month == 1 && self.day == 1,
            },
    {
        if self.day > 1 {
            Some(GitDate { year: self.year, month: self.month, day: self.day - 1 })
        } else if self.month > 1 {
            let dim = days_in_month_x(self.year, self.month - 1);
            Some(GitDate { year: self.year, month: self.month - 1, day: dim })
        } else if self.year > 0 {
            proof {
                lemma_days_in_year_value(self.year as int - 1);
                reveal_with_fuel(days_before_month, 13);
            }
            Some(GitDate { year: self.year - 1, month: 12, day: 31 })
        } else {
            None
        }
    }

    /// Steps `n` days back, or `None` if the range is left.
    pub fn sub_days(&self, n: u32) -> (r: Option<GitDate>)
        requires
            self.wf(),
        ensures
            match r {
                Some(d) => d.wf() && d.day_index() == self.day_index() - n,
                None => self.day_index() < n,
            },
    {
        let mut cur = *self;
        let mut left = n;
        while left > 0
            invariant
                cur.wf(),
                left <= n,
                cur.day_index() == self.day_index() - (n - left),
            decreases left,
        {
            match cur.pred_opt() {
                Some(d) => {
                    cur = d;
                },
                None => {
                    return None;
                },
            }
            left = left - 1;
        }
        Some(cur)
    }

    /// `self <= other` in calendar order.
    pub fn le(&self, other: &GitDate) -> (r: bool)
        requires
            self.wf(),
            other.wf(),
        ensures
            r == self.spec_le(*other),
    {
        self.day_number() <= other.day_number()
    }

    /// `self < other` in calendar order.
    pub fn lt(&self, other: &GitDate) -> (r: bool)
        requires
            self.wf(),
            other.wf(),
        ensures
            r == (self.day_index() < other.day_index()),
    {
        self.day_number() < other.day_number()
    }
}

/// The character for one decimal digit.
pub open spec fn digit_char(d: int) -> char {
    if d == 0 {
        '0'
    } else if d == 1 {
        '1'
    } else if d == 2 {
        '2'
    } else if d == 3 {
        '3'
    } else if d == 4 {
        '4'
    } else if d == 5 {
        '5'
    } else if d == 6 {
        '6'
    } else if d == 7 {
        '7'
    } else if d == 8 {
        '8'
    } else {
        '9'
    }
}

/// The value of one decimal digit character, or -1.
pub open spec fn digit_val_spec(c: char) -> int {
    if c == '0' {
        0
    } else if c == '1' {
        1
    } else if c == '2' {
        2
    } else if c == '3' {
        3
    } else if c == '4' {
        4
    } else if c == '5' {
        5
    } else if c == '6' {
        6
    } else if c == '7' {
        7
    } else if c == '8' {
        8
    } else if c == '9' {
        9
    } else {
        -1
    }
}

/// The ten characters of a date in `YYYY-MM-DD` notation.
pub open spec fn spec_yyyy_mm_dd(d: GitDate) -> Seq<char> {
    seq![
        digit_char(d.year as int / 1000),
        digit_char((d.year as int / 100) % 10),
        digit_char((d.year as int / 10) % 10),
        digit_char(d.year as int % 10),
        '-',
        digit_char(d.month as int / 10),
        digit_char(d.month as int % 10),
        '-',
        digit_char(d.day as int / 10),
        digit_char(d.day as int % 10),
    ]
}

fn digit_str(d: u32) -> (r: &'static str)
    requires
        d < 10,
    ensures
        r@.len() == 1,
        r@[0] == digit_char(d as int),
{
    proof {
        reveal_strlit("0");
        reveal_strlit("1");
        reveal_strlit("2");
        reveal_strlit("3");
        reveal_strlit("4");
        reveal_strlit("5");
        reveal_strlit("6");
        reveal_strlit("7");
        reveal_strlit("8");
        reveal_strlit("9");
    }
    match d {
        0 => "0",
        1 => "1",
        2 => "2",
        3 => "3",
        4 => "4",
        5 => "5",
        6 => "6",
        7 => "7",
        8 => "8",
        _ => "9",
    }
}

impl GitDate {
    /// Writes the date in `YYYY-MM-DD` notation.
    pub fn format_yyyy_mm_dd(&self) -> (r: String)
        requires
            self.wf(),
        ensures
            r@ == spec_yyyy_mm_dd(*self),
    {
        let y = self.year as u32;
        let m = self.month as u32;
        let d = self.day as u32;
        let mut s = String::new();
        s.append(digit_str(y / 1000));
        s.append(digit_str((y / 100) % 10));
        s.append(digit_str((y / 10) % 10));
        s.append(digit_str(y % 10));
        s.append("-");
        s.append(digit_str(m / 10));
        s.append(digit_str(m % 10));
        s.append("-");
        s.append(digit_str(d / 10));
        s.append(digit_str(d % 10));
        proof {
            reveal_strlit("-");
            assert(s@ =~= spec_yyyy_mm_dd(*self));
        }
        s
    }
}

/// What a well-formed `YYYY-MM-DD` string denotes, or `None`.
pub open spec fn spec_parse_ymd(s: Seq<char>) -> Option<GitDate> {
    if s.len() == 10 && s[4] == '-' && s[7] == '-' && digit_val_spec(s[0]) >= 0 && digit_val_spec(
        s[1],
    ) >= 0 && digit_val_spec(s[2]) >= 0 && digit_val_spec(s[3]) >= 0 && digit_val_spec(s[5]) >= 0
        && digit_val_spec(s[6]) >= 0 && digit_val_spec(s[8]) >= 0 && digit_val_spec(s[9]) >= 0 {
        let d = GitDate {
            year: (digit_val_spec(s[0]) * 1000 + digit_val_spec(s[1]) * 100 + digit_val_spec(s[2])
                * 10 + digit_val_spec(s[3])) as u16,
            month: (digit_val_spec(s[5]) * 10 + digit_val_spec(s[6])) as u8,
            day: (digit_val_spec(s[8]) * 10 + digit_val_spec(s[9])) as u8,
        };
        if d.wf() {
            Some(d)
        } else {
            None
        }
    } else {
        None
    }
}

fn digit_val(c: char) -> (r: Option<u8>)
    ensures
        match r {
            Some(v) => v < 10 && digit_val_spec(c) == v,
            None => digit_val_spec(c) == -1,
        },
{
    match c {
        '0' => Some(0),
        '1' => Some(1),
        '2' => Some(2),
        '3' => Some(3),
        '4' => Some(4),
        '5' => Some(5),
        '6' => Some(6),
        '7' => Some(7),
        '8' => Some(8),
        '9' => Some(9),
        _ => None,
    }
}

/// Reads a date written as `YYYY-MM-DD`; anything else is rejected.
pub fn parse_to_utc_date(s: &str) -> (r: Option<GitDate>)
    ensures
        r == spec_parse_ymd(s@),
{
    let n = s.unicode_len();
    if n != 10 {
        return None;
    }
    if s.get_char(4) != '-' || s.get_char(7) != '-' {
        return None;
    }
    let d0 = digit_val(s.get_char(0));
    let d1 = digit_val(s.get_char(1));
    let d2 = digit_val(s.get_char(2));
    let d3 = digit_val(s.get_char(3));
    let d5 = digit_val(s.get_char(5));
    let d6 = digit_val(s.get_char(6));
    let d8 = digit_val(s.get_char(8));
    let d9 = digit_val(s.get_char(9));
    match (d0, d1, d2, d3, d5, d6, d8, d9) {
        (
            Some(y0),
            Some(y1),
            Some(y2),
            Some(y3),
            Some(m0),
            Some(m1),
            Some(a0),
            Some(a1),
        ) => {
            let year = y0 as u16 * 1000 + y1 as u16 * 100 + y2 as u16 * 10 + y3 as u16;
            let month = m0 * 10 + m1;
            let day = a0 * 10 + a1;
            GitDate::from_ymd_opt(year, month, day)
        },
        _ => None,
    }
}

/// Relies on chrono's `Utc::now` and `Datelike`: the month number of the
/// current date ranges over 1 to 12 and the day number over 1 to 31.
#[verifier::external_body]
fn utc_today_ymd() -> (r: (i32, u32, u32))
    ensures
        1 <= r.1 <= 12,
        1 <= r.2 <= 31,
{
    let d = chrono::Utc::now().date_naive();
    (d.year(), d.month(), d.day())
}

/// The current day in Coordinated Universal Time, clamped to the supported
/// calendar span.
pub fn today() -> (r: GitDate)
    ensures
        r.wf(),
{
    let (y, m, d) = utc_today_ymd();
    if 0 <= y && y <= 9999 {
        if let Some(date) = GitDate::from_ymd_opt(y as u16, m as u8, d as u8) {
            return date;
        }
    }
    GitDate { year: 9999, month: 12, day: 31 }
}

} // verus!
