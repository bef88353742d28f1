//! Calendar dates: the publication date of an item.
//!
//! A [`Date`] holds a year, a month and a day of the proleptic Gregorian
//! calendar as plain integers. Parsing and printing are done by `chrono`;
//! everything else is decided here.

use chrono::Datelike;
use chrono::NaiveDate;
use vstd::prelude::*;
use vstd::string::StringExecFns;

verus! {

/// The earliest year a date can have.
pub const MIN_YEAR: i32 = -262143;

/// The latest year a date can have.
pub const MAX_YEAR: i32 = 262142;

/// Whether `year` has a 29th of February.
pub open spec fn is_leap_year(year: int) -> bool {
    year % 4 == 0 && (year % 100 != 0 || year % 400 == 0)
}

/// The number of days of `month` in `year`; 0 where `month` is no month.
pub open spec fn days_in_month(year: int, month: int) -> int {
    if month == 2 {
        if is_leap_year(year) {
            29
        } else {
            28
        }
    } else if month == 4 || month == 6 || month == 9 || month == 11 {
        30
    } else if 1 <= month <= 12 {
        31
    } else {
        0
    }
}

/// Whether year, month and day name a day of the calendar.
pub open spec fn valid_ymd(year: int, month: int, day: int) -> bool {
    &&& MIN_YEAR <= year <= MAX_YEAR
    &&& 1 <= month <= 12
    &&& 1 <= day <= days_in_month(year, month)
}

/// The character of the decimal digit `n`.
pub open spec fn digit(n: int) -> char {
    ((48 + n) as u8) as char
}

/// `n` in decimal, with zeros in front up to `width` characters.
pub open spec fn padded(n: nat, width: nat) -> Seq<char>
    decreases n, width,
{
    if n < 10 && width <= 1 {
        seq![digit(n as int)]
    } else {
        padded(
            n / 10,
            if width >= 1 {
                (width - 1) as nat
            } else {
                0
            },
        ).push(digit((n % 10) as int))
    }
}

/// A whole number as text: its digits, with a minus sign in front where it
/// is below zero.
pub open spec fn int_text(n: int) -> Seq<char> {
    if n < 0 {
        seq!['-'] + padded((-n) as nat, 1)
    } else {
        padded(n as nat, 1)
    }
}

/// The text of one digit.
fn digit_str(d: u32) -> (r: &'static str)
    requires
        d < 10,
    ensures
        r@ == seq![digit(d as int)],
{
    proof {
        reveal_strlit("0");
        reveal_strlit("1");
        reveal_strlit("2");
        reveal_strlit("3");
        reveal_strlit("4");
        reveal_strlit("5");
        reveal_strlit("6");
        reveal_strlit("7");
        reveal_strlit("8");
        reveal_strlit("9");
    }
    let r = if d == 0 {
        "0"
    } else if d == 1 {
        "1"
    } else if d == 2 {
        "2"
    } else if d == 3 {
        "3"
    } else if d == 4 {
        "4"
    } else if d == 5 {
        "5"
    } else if d == 6 {
        "6"
    } else if d == 7 {
        "7"
    } else if d == 8 {
        "8"
    } else {
        "9"
    };
    assert(r@ =~= seq![digit(d as int)]);
    r
}

/// A number below ten reads the same whatever width is asked for, up to one.
proof fn lemma_padded_narrow(n: nat)
    ensures
        padded(n, 0) == padded(n, 1),
    decreases n,
{
    if n >= 10 {
        assert(padded(n, 0) == padded(n / 10, 0).push(digit((n % 10) as int)));
        assert(padded(n, 1) == padded(n / 10, 0).push(digit((n % 10) as int)));
    }
}

/// The digits of `n`.
fn natural_string(n: u32) -> (r: String)
    ensures
        r@ == padded(n as nat, 1),
    decreases n,
{
    if n < 10 {
        String::from_str(digit_str(n))
    } else {
        let mut r = natural_string(n / 10);
        proof {
            lemma_padded_narrow((n / 10) as nat);
            assert(padded(n as nat, 1) == padded((n / 10) as nat, 0).push(digit((n % 10) as int)));
        }
        r.append(digit_str(n % 10));
        assert(r@ =~= padded(n as nat, 1));
        r
    }
}

/// A whole number as text.
pub fn int_string(n: i32) -> (r: String)
    ensures
        r@ == int_text(n as int),
{
    if n < 0 {
        let size: u32 = (0 - (n as i64)) as u32;
        proof {
            reveal_strlit("-");
        }
        let mut r = String::from_str("-");
        let digits = natural_string(size);
        r.append(digits.as_str());
        assert(r@ =~= int_text(n as int));
        r
    } else {
        natural_string(n as u32)
    }
}

/// A year as text: four digits from 0 to 9999, otherwise a sign and at
/// least four digits.
pub open spec fn year_text(year: int) -> Seq<char> {
    if 0 <= year < 10000 {
        padded(year as nat, 4)
    } else if year < 0 {
        seq!['-'] + padded((-year) as nat, 4)
    } else {
        seq!['+'] + padded(year as nat, 4)
    }
}

/// A date as text: the year, the month and the day, the last two with two
/// digits each, with a hyphen between them.
pub open spec fn day_text(year: int, month: int, day: int) -> Seq<char> {
    year_text(year) + seq!['-'] + padded(month as nat, 2) + seq!['-'] + padded(day as nat, 2)
}

/// The format that prints the year alone.
pub open spec fn year_format() -> Seq<char> {
    seq!['%', 'Y']
}

/// The format that prints year, month and day.
pub open spec fn day_format() -> Seq<char> {
    seq!['%', 'Y', '-', '%', 'm', '-', '%', 'd']
}

/// A date as text under one of the two formats.
pub open spec fn formatted(year: int, month: int, day: int, format: Seq<char>) -> Seq<char> {
    if format == year_format() {
        year_text(year)
    } else {
        day_text(year, month, day)
    }
}

/// What `chrono` reads out of `text` under the format `format`: the year,
/// month and day of the date, or `None` where the text does not match the
/// format or names no day.
pub uninterp spec fn parsed_date(text: Seq<char>, format: Seq<char>) -> Option<(int, int, int)>;

/// A day of the calendar.
#[derive(Clone, Copy, Debug, PartialEq, Eq, Structural)]
pub struct Date {
    year: i32,
    month: u32,
    day: u32,
}

impl View for Date {
    type V = (int, int, int);

    closed spec fn view(&self) -> (int, int, int) {
        (self.year as int, self.month as int, self.day as int)
    }
}

impl Date {
    #[verifier::type_invariant]
    spec fn inv(self) -> bool {
        valid_ymd(self.year as int, self.month as int, self.day as int)
    }

    /// The date of the given year, month and day, where there is such a day.
    pub fn new(year: i32, month: u32, day: u32) -> (r: Option<Date>)
        ensures
            r is Some <==> valid_ymd(year as int, month as int, day as int),
            r matches Some(d) ==> d@ == (year as int, month as int, day as int),
    {
        if year < MIN_YEAR || year > MAX_YEAR || month < 1 || month > 12 || day < 1 {
            return None;
        }
        let leap = year % 4 == 0 && (year % 100 != 0 || year % 400 == 0);
        let last: u32 = if month == 2 {
            if leap {
                29
            } else {
                28
            }
        } else if month == 4 || month == 6 || month == 9 || month == 11 {
            30
        } else {
            31
        };
        if day > last {
            return None;
        }
        Some(Date { year, month, day })
    }

    /// The year.
    pub fn year(&self) -> (r: i32)
        ensures
            r == self@.0,
            MIN_YEAR <= r <= MAX_YEAR,
    {
        proof {
            use_type_invariant(self);
        }
        self.year
    }

    /// The month, from 1 to 12.
    pub fn month(&self) -> (r: u32)
        ensures
            r == self@.1,
            1 <= r <= 12,
    {
        proof {
            use_type_invariant(self);
        }
        self.month
    }

    /// The day of the month, from 1.
    pub fn day(&self) -> (r: u32)
        ensures
            r == self@.2,
            1 <= r <= days_in_month(self@.0, self@.1),
    {
        proof {
            use_type_invariant(self);
        }
        self.day
    }

    /// The year as text, as it names the directory of the date.
    pub fn year_string(&self) -> (r: String)
        ensures
            r@ == year_text(self@.0),
    {
        proof {
            use_type_invariant(self);
            reveal_strlit("%Y");
        }
        assert("%Y"@ =~= year_format());
        format_date(self.year, self.month, self.day, "%Y")
    }

    /// The date as text, year first.
    pub fn to_string(&self) -> (r: String)
        ensures
            r@ == day_text(self@.0, self@.1, self@.2),
    {
        proof {
            use_type_invariant(self);
            reveal_strlit("%Y-%m-%d");
        }
        assert("%Y-%m-%d"@ =~= day_format());
        assert(day_format() != year_format()) by {
            assert(day_format().len() == 8);
            assert(year_format().len() == 2);
        }
        format_date(self.year, self.month, self.day, "%Y-%m-%d")
    }

    /// Reads a date out of `text`, which is to match `format`.
    ///
    /// The date is the one `chrono` finds; it is `None` where `chrono` finds
    /// none.
    pub fn parse_from_str(text: &str, format: &str) -> (r: Option<Date>)
        ensures
            view_of(r) == parsed_date(text@, format@),
    {
        Date::from_parsed(parse_ymd(text, format))
    }

    /// Two dates of the same year, month and day are the same date.
    pub proof fn lemma_view_injective(a: Date, b: Date)
        requires
            a@ == b@,
        ensures
            a == b,
    {
    }

    /// Makes a date of the year, month and day that a parse has handed
    /// back, and refuses what is no day of the calendar.
    pub fn from_parsed(found: Option<(i32, u32, u32)>) -> (r: Option<Date>)
        ensures
            view_of(r) == parse_outcome(
                match found {
                    Some(t) => Some((t.0 as int, t.1 as int, t.2 as int)),
                    None => None,
                },
            ),
    {
        match found {
            Some((y, m, d)) => Date::new(y, m, d),
            None => None,
        }
    }
}

/// The year, month and day of a date that may be absent.
pub open spec fn view_of(date: Option<Date>) -> Option<(int, int, int)> {
    match date {
        Some(d) => Some(d@),
        None => None,
    }
}

/// The year, month and day that a parse has found, where they name a day
/// of the calendar.
pub open spec fn parse_outcome(found: Option<(int, int, int)>) -> Option<(int, int, int)> {
    match found {
        Some((y, m, d)) => if valid_ymd(y, m, d) {
            found
        } else {
            None
        },
        None => None,
    }
}

/// Calls `chrono::NaiveDate::parse_from_str` and hands back the year, month
/// and day of the date it found. The contract gives that result its name,
/// [`parsed_date`], and claims that what is found is a day of the calendar,
/// as every date of `chrono` is; nothing is claimed of which texts parse.
#[verifier::external_body]
fn parse_ymd(text: &str, format: &str) -> (r: Option<(i32, u32, u32)>)
    ensures
        parsed_date(text@, format@) == match r {
            Some(t) => Some((t.0 as int, t.1 as int, t.2 as int)),
            None => None,
        },
        r matches Some(t) ==> valid_ymd(t.0 as int, t.1 as int, t.2 as int),
{
    match NaiveDate::parse_from_str(text, format) {
        Ok(date) => Some((date.year(), date.month(), date.day())),
        Err(_) => None,
    }
}

/// Calls `chrono::NaiveDate::format` with one of the two formats of this
/// library. The contract claims what `chrono` documents of the items `%Y`,
/// `%m` and `%d`: the year with four digits, and with a sign in front where
/// it lies outside 0 to 9999; the month and the day with two digits each.
#[verifier::external_body]
fn format_date(year: i32, month: u32, day: u32, format: &str) -> (r: String)
    requires
        valid_ymd(year as int, month as int, day as int),
        format@ == year_format() || format@ == day_format(),
    ensures
        r@ == formatted(year as int, month as int, day as int, format@),
{
    match NaiveDate::from_ymd_opt(year, month, day) {
        Some(date) => format!("{}", date.format(format)),
        None => String::new(),
    }
}

} // verus!
