//! Calendar dates of the proleptic Gregorian calendar and their `YYYY-MM-DD` text.
use vstd::prelude::*;

verus! {

/// Whether `y` is a leap year of the proleptic Gregorian calendar.
pub open spec fn is_leap(y: int) -> bool {
    (y % 4 == 0 && y % 100 != 0) || y % 400 == 0
}

/// Number of days of month `m` (1 to 12) in year `y`.
pub open spec fn days_in_month(y: int, m: int) -> int {
    if m == 2 {
        if is_leap(y) { 29 } else { 28 }
    } else if m == 4 || m == 6 || m == 9 || m == 11 {
        30
    } else {
        31
    }
}

/// A year, month and day that name a real day with a four-digit year.
pub open spec fn valid_ymd(y: int, m: int, d: int) -> bool {
    0 <= y <= 9999 && 1 <= m <= 12 && 1 <= d <= days_in_month(y, m)
}

/// A day of the calendar. Values are only made through [`CalendarDate::new`],
/// so every one of them satisfies `wf`.
#[derive(Clone, Copy, Debug, PartialEq, Eq, Structural)]
pub struct CalendarDate {
    year: u16,
    month: u8,
    day: u8,
}

impl CalendarDate {
    pub closed spec fn spec_year(self) -> int {
        self.year as int
    }

    pub closed spec fn spec_month(self) -> int {
        self.month as int
    }

    pub closed spec fn spec_day(self) -> int {
        self.day as int
    }

    pub open spec fn wf(self) -> bool {
        valid_ymd(self.spec_year(), self.spec_month(), self.spec_day())
    }

    /// The date `y`-`m`-`d`, or `None` where the triple is no real day.
    pub fn new(y: i64, m: i64, d: i64) -> (r: Option<CalendarDate>)
        ensures
            r.is_some() <==> valid_ymd(y as int, m as int, d as int),
            r matches Some(c) ==> c.wf() && c.spec_year() == y && c.spec_month() == m
                && c.spec_day() == d,
    {
        if y < 0 || y > 9999 || m < 1 || m > 12 || d < 1 {
            return None;
        }
        let leap = (y % 4 == 0 && y % 100 != 0) || y % 400 == 0;
        let last: i64 = if m == 2 {
            if leap { 29 } else { 28 }
        } else if m == 4 || m == 6 || m == 9 || m == 11 {
            30
        } else {
            31
        };
        if d > last {
            return None;
        }
        Some(CalendarDate { year: y as u16, month: m as u8, day: d as u8 })
    }

    pub fn year(&self) -> (r: u16)
        ensures
            r == self.spec_year(),
    {
        self.year
    }

    pub fn month(&self) -> (r: u8)
        ensures
            r == self.spec_month(),
    {
        self.month
    }

    pub fn day(&self) -> (r: u8)
        ensures
            r == self.spec_day(),
    {
        self.day
    }
}

/// The character of the decimal digit `n` (0 to 9).
pub open spec fn digit_char(n: int) -> char {
    seq!['0', '1', '2', '3', '4', '5', '6', '7', '8', '9'][n]
}

/// `n` written with exactly `width` decimal digits, leading zeros included.
pub open spec fn padded(n: nat, width: nat) -> Seq<char>
    decreases width,
{
    if width == 0 {
        Seq::empty()
    } else {
        padded(n / 10, (width - 1) as nat).push(digit_char((n % 10) as int))
    }
}

/// The text `YYYY-MM-DD` of a date.
pub open spec fn iso_text(c: CalendarDate) -> Seq<char> {
    padded(c.spec_year() as nat, 4) + seq!['-'] + padded(c.spec_month() as nat, 2) + seq!['-']
        + padded(c.spec_day() as nat, 2)
}

/// The one-character text of digit `n`.
fn digit_text(n: u16) -> (r: &'static str)
    requires
        n < 10,
    ensures
        r@ == seq![digit_char(n as int)],
{
    proof {
        reveal_strlit("0");
        reveal_strlit("1");
        reveal_strlit("2");
        reveal_strlit("3");
        reveal_strlit("4");
        reveal_strlit("5");
        reveal_strlit("6");
        reveal_strlit("7");
        reveal_strlit("8");
        reveal_strlit("9");
    }
    match n {
        0 => "0",
        1 => "1",
        2 => "2",
        3 => "3",
        4 => "4",
        5 => "5",
        6 => "6",
        7 => "7",
        8 => "8",
        _ => "9",
    }
}

/// Appends `n` to `out` with exactly `width` digits.
fn push_padded(out: &mut String, n: u16, width: u16)
    ensures
        final(out)@ == old(out)@ + padded(n as nat, width as nat),
    decreases width,
{
    if width > 0 {
        push_padded(out, n / 10, width - 1);
        out.append(digit_text(n % 10));
    }
}

impl CalendarDate {
    /// The date as `YYYY-MM-DD`.
    pub fn to_iso_string(&self) -> (r: String)
        ensures
            r@ == iso_text(*self),
    {
        let mut out = String::new();
        push_padded(&mut out, self.year, 4);
        out.append("-");
        push_padded(&mut out, self.month as u16, 2);
        out.append("-");
        push_padded(&mut out, self.day as u16, 2);
        proof {
            reveal_strlit("-");
        }
        out
    }
}

} // verus!
