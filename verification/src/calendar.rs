//! Civil calendar days and times of day, as plain values.
//!
//! A [`Date`] can only be built through [`Date::from_ymd`] (or by reading one
//! from text), so every `Date` that executable code holds names a day that
//! exists. Dates are compared field by field, year first.

use vstd::prelude::*;

verus! {

/// The earliest year a [`Date`] can lie in.
pub const MIN_YEAR: i32 = -262_143;

/// The latest year a [`Date`] can lie in.
pub const MAX_YEAR: i32 = 262_142;

/// Leap years of the proleptic Gregorian calendar; year 0 is 1 BCE.
pub open spec fn is_leap_year(year: int) -> bool {
    year % 4 == 0 && (year % 100 != 0 || year % 400 == 0)
}

/// The number of days of `month` in `year`, for the months 1 to 12.
pub open spec fn days_in_month(year: int, month: int) -> int {
    if month == 2 {
        if is_leap_year(year) {
            29
        } else {
            28
        }
    } else if month == 4 || month == 6 || month == 9 || month == 11 {
        30
    } else {
        31
    }
}

/// Whether year, month and day name a day that exists and that a [`Date`] can hold.
pub open spec fn is_calendar_day(year: int, month: int, day: int) -> bool {
    &&& MIN_YEAR <= year <= MAX_YEAR
    &&& 1 <= month <= 12
    &&& 1 <= day <= days_in_month(year, month)
}

/// A day of the proleptic Gregorian calendar.
#[derive(Clone, Copy, Debug, PartialEq, Eq, Structural)]
pub struct Date {
    pub(crate) year: i32,
    pub(crate) month: u32,
    pub(crate) day: u32,
}

/// A wall-clock time, to the second.
#[derive(Clone, Copy, Debug, PartialEq, Eq, Structural)]
pub struct TimeOfDay {
    pub hour: u32,
    pub minute: u32,
    pub second: u32,
}

impl TimeOfDay {
    /// Whether the three fields name a second of a day.
    pub open spec fn is_valid(self) -> bool {
        self.hour < 24 && self.minute < 60 && self.second < 60
    }

    /// Whether the three fields name a second of a day.
    pub fn check(&self) -> (ok: bool)
        ensures
            ok == self.is_valid(),
    {
        self.hour < 24 && self.minute < 60 && self.second < 60
    }
}

/// Whether `year` is a leap year.
pub fn leap_year(year: i32) -> (leap: bool)
    ensures
        leap == is_leap_year(year as int),
{
    // 2_147_484_000 is a multiple of 400 that lifts every year above zero.
    let lifted: i64 = year as i64 + 2_147_484_000;
    lifted % 4 == 0 && (lifted % 100 != 0 || lifted % 400 == 0)
}

/// The number of days of `month` in `year`.
pub fn month_length(year: i32, month: u32) -> (days: u32)
    ensures
        days == days_in_month(year as int, month as int),
{
    if month == 2 {
        if leap_year(year) {
            29
        } else {
            28
        }
    } else if month == 4 || month == 6 || month == 9 || month == 11 {
        30
    } else {
        31
    }
}

impl Date {
    /// What every `Date` in executable code meets: it names a day that exists.
    #[verifier::type_invariant]
    pub closed spec fn exists_in_calendar(self) -> bool {
        is_calendar_day(self.year as int, self.month as int, self.day as int)
    }

    /// The year; year 0 is 1 BCE.
    pub closed spec fn spec_year(&self) -> i32 {
        self.year
    }

    /// The month, 1 to 12.
    pub closed spec fn spec_month(&self) -> u32 {
        self.month
    }

    /// The day of the month, from 1.
    pub closed spec fn spec_day(&self) -> u32 {
        self.day
    }

    /// The day `year`-`month`-`day`, if there is such a day.
    pub fn from_ymd(year: i32, month: u32, day: u32) -> (date: Option<Date>)
        ensures
            date.is_some() == is_calendar_day(year as int, month as int, day as int),
            date matches Some(d) ==> d.year() == year && d.month() == month && d.day() == day
                && d.is_real(),
    {
        if year < MIN_YEAR || year > MAX_YEAR || month < 1 || month > 12 || day < 1 {
            return None;
        }
        if day > month_length(year, month) {
            return None;
        }
        Some(Date { year, month, day })
    }

    /// The year; year 0 is 1 BCE.
    #[verifier::when_used_as_spec(spec_year)]
    pub fn year(&self) -> (y: i32)
        ensures
            y == self.spec_year(),
    {
        self.year
    }

    /// The month, 1 to 12.
    #[verifier::when_used_as_spec(spec_month)]
    pub fn month(&self) -> (m: u32)
        ensures
            m == self.spec_month(),
    {
        self.month
    }

    /// The day of the month, from 1.
    #[verifier::when_used_as_spec(spec_day)]
    pub fn day(&self) -> (d: u32)
        ensures
            d == self.spec_day(),
    {
        self.day
    }

    /// Whether the fields name a day that exists. Every `Date` in executable
    /// code does; a `Date` that only a specification speaks of may not.
    pub open spec fn is_real(self) -> bool {
        is_calendar_day(self.year() as int, self.month() as int, self.day() as int)
    }

    /// `self` is an earlier day than `other`.
    pub open spec fn before(self, other: Date) -> bool {
        self.year() < other.year() || (self.year() == other.year() && (self.month()
            < other.month() || (self.month() == other.month() && self.day() < other.day())))
    }

    /// `self` is `other` or an earlier day.
    pub open spec fn not_after(self, other: Date) -> bool {
        !other.before(self)
    }

    /// Whether `self` is an earlier day than `other`.
    pub fn is_before(&self, other: &Date) -> (r: bool)
        ensures
            r == self.before(*other),
    {
        self.year < other.year || (self.year == other.year && (self.month < other.month || (
        self.month == other.month && self.day < other.day)))
    }

    /// Whether `self` is `other` or an earlier day.
    pub fn is_not_after(&self, other: &Date) -> (r: bool)
        ensures
            r == self.not_after(*other),
    {
        !other.is_before(self)
    }

    /// The date with these fields, whether or not there is such a day;
    /// [`Date::lemma_fields_of`] says that its fields are these.
    pub closed spec fn of(year: i32, month: u32, day: u32) -> Date {
        Date { year, month, day }
    }

    /// A date is what its fields say.
    pub proof fn lemma_of_fields(self)
        ensures
            Date::of(self.year(), self.month(), self.day()) == self,
    {
    }

    /// The fields of a date are those it was made of.
    pub proof fn lemma_fields_of(year: i32, month: u32, day: u32)
        ensures
            Date::of(year, month, day).year() == year,
            Date::of(year, month, day).month() == month,
            Date::of(year, month, day).day() == day,
    {
    }

    /// Two dates with the same year, month and day are the same date.
    pub proof fn lemma_same_fields(a: Date, b: Date)
        requires
            a.year() == b.year(),
            a.month() == b.month(),
            a.day() == b.day(),
        ensures
            a == b,
    {
    }

    /// Of two different dates one lies before the other.
    pub proof fn lemma_order_total(a: Date, b: Date)
        ensures
            a == b || a.before(b) || b.before(a),
            !(a.before(b) && b.before(a)),
            !a.before(a),
    {
        if !a.before(b) && !b.before(a) {
            Self::lemma_same_fields(a, b);
        }
    }
}

/// The month that lies `months` months before `month` of `year`, with the
/// day pulled back to that month's last day where the month is shorter.
pub open spec fn months_earlier(year: int, month: int, day: int, months: int) -> (int, int, int) {
    let total = year * 12 + (month - 1) - months;
    let y = total / 12;
    let m = total % 12 + 1;
    let last = days_in_month(y, m);
    (y, m, if day > last { last } else { day })
}

/// The day after `day` of `month` of `year`.
pub open spec fn day_after(year: int, month: int, day: int) -> (int, int, int) {
    if day < days_in_month(year, month) {
        (year, month, day + 1)
    } else if month < 12 {
        (year, month + 1, 1)
    } else {
        (year + 1, 1, 1)
    }
}

impl Date {
    /// The following day, or `None` where that lies after the last year a
    /// `Date` can hold.
    pub open spec fn next(self) -> Option<Date> {
        let (y, m, d) = day_after(self.year() as int, self.month() as int, self.day() as int);
        if y > MAX_YEAR {
            None
        } else {
            Some(Date::of(y as i32, m as u32, d as u32))
        }
    }

    /// The following day, or `None` where that lies after the last year a
    /// `Date` can hold.
    pub fn next_day(&self) -> (following: Option<Date>)
        ensures
            following == self.next(),
            following matches Some(d) ==> d.is_real() && (d.year() as int, d.month() as int, d.day() as int)
                == day_after(self.year() as int, self.month() as int, self.day() as int),
    {
        proof {
            use_type_invariant(self);
        }
        if self.day < month_length(self.year, self.month) {
            Some(Date { year: self.year, month: self.month, day: self.day + 1 })
        } else if self.month < 12 {
            Some(Date { year: self.year, month: self.month + 1, day: 1 })
        } else if self.year < MAX_YEAR {
            Some(Date { year: self.year + 1, month: 1, day: 1 })
        } else {
            None
        }
    }

    /// The day `months` calendar months before this one, or `None` where that
    /// day lies before the first year a `Date` can hold.
    pub open spec fn months_back(self, months: int) -> Option<Date> {
        let (y, m, d) = months_earlier(
            self.year() as int,
            self.month() as int,
            self.day() as int,
            months,
        );
        if y < MIN_YEAR {
            None
        } else {
            Some(Date::of(y as i32, m as u32, d as u32))
        }
    }

    /// The date as text, year first: `2024-01-31`.
    pub open spec fn text(self) -> Seq<char> {
        formatted_date(self.year() as int, self.month() as int, self.day() as int)
    }

    /// Whether `text` is the date as text. For the years 0 to 9999 that is
    /// four digits of year, two of month and two of day, with `-` between.
    pub open spec fn is_written(self, text: Seq<char>) -> bool {
        &&& text == self.text()
        &&& 0 <= self.year() <= 9999 ==> text == four_two_two(
            self.year() as int,
            self.month() as int,
            self.day() as int,
        )
    }

    /// The day `months` calendar months before this one, or `None` where that
    /// day lies before the first year a `Date` can hold.
    pub fn minus_months(&self, months: u32) -> (earlier: Option<Date>)
        ensures
            earlier == self.months_back(months as int),
            earlier matches Some(e) ==> e.is_real() && (e.year() as int, e.month() as int, e.day() as int)
                == months_earlier(
                self.year() as int,
                self.month() as int,
                self.day() as int,
                months as int,
            ),
    {
        proof {
            use_type_invariant(self);
        }
        let total: i64 = self.year as i64 * 12 + (self.month as i64 - 1) - months as i64;
        // 4_800_000_000 is a multiple of 12 that lifts every total above zero.
        let lifted: i64 = total + 4_800_000_000;
        let year_wide: i64 = lifted / 12 - 400_000_000;
        let month_index: i64 = lifted % 12;
        if year_wide < MIN_YEAR as i64 {
            return None;
        }
        let year: i32 = year_wide as i32;
        let month: u32 = month_index as u32 + 1;
        let last = month_length(year, month);
        let day: u32 = if self.day > last { last } else { self.day };
        Some(Date { year, month, day })
    }

    /// The date as text, year first: `2024-01-31`.
    pub fn to_text(&self) -> (text: String)
        ensures
            self.is_written(text@),
    {
        proof {
            use_type_invariant(self);
        }
        match format_ymd(*self) {
            Some(text) => text,
            None => vstd::pervasive::unreached(),
        }
    }

    /// Reads a date written year first, as in `2024-01-31`.
    pub fn parse(text: &str) -> (date: Option<Date>)
        ensures
            date == date_in_text(text@),
            date matches Some(d) ==> d.is_real(),
            reads_back(text@),
    {
        parse_date(text, "%Y-%m-%d")
    }
}

/// What [`chrono::NaiveDate::parse_from_str`] makes of `text` under `format`:
/// year, month and day, or `None` where it reports an error.
pub uninterp spec fn parsed_date(text: Seq<char>, format: Seq<char>) -> Option<(i32, u32, u32)>;

/// The text that `chrono::NaiveDate` displays for a day.
pub uninterp spec fn formatted_date(year: int, month: int, day: int) -> Seq<char>;

/// The digit for `n`, where `n` is 0 to 9.
pub open spec fn digit(n: int) -> char {
    seq!['0', '1', '2', '3', '4', '5', '6', '7', '8', '9'][n]
}

/// `n` in two digits, where `n` is 0 to 99.
pub open spec fn two_digits(n: int) -> Seq<char> {
    seq![digit(n / 10), digit(n % 10)]
}

/// A day as `YYYY-MM-DD`, where the year is 0 to 9999.
pub open spec fn four_two_two(year: int, month: int, day: int) -> Seq<char> {
    two_digits(year / 100) + two_digits(year % 100) + seq!['-'] + two_digits(month) + seq!['-']
        + two_digits(day)
}

/// The date that a text written year first stands for.
pub open spec fn date_in_text(text: Seq<char>) -> Option<Date> {
    match parsed_date(text, "%Y-%m-%d"@) {
        Some((year, month, day)) => Some(Date::of(year, month, day)),
        None => None,
    }
}

/// Where `text` is a day of the years 0 to 9999 written as `YYYY-MM-DD`,
/// `date` is that day.
pub open spec fn is_read_back(text: Seq<char>, date: Option<Date>) -> bool {
    forall|year: int, month: int, day: int|
        is_calendar_day(year, month, day) && 0 <= year <= 9999 && #[trigger] four_two_two(
            year,
            month,
            day,
        ) == text ==> (date matches Some(d) && d.year() == year && d.month() == month && d.day()
            == day)
}

/// Where `text` is a day of the years 0 to 9999 written as `YYYY-MM-DD`, it
/// stands for that day.
pub open spec fn reads_back(text: Seq<char>) -> bool {
    is_read_back(text, date_in_text(text))
}

/// Calls `chrono::NaiveDate::parse_from_str` and takes year, month and day
/// out of the date it returns. Trusted: the result is a function of the two
/// texts; a date that chrono hands out names a day that exists; and under
/// the format `%Y-%m-%d` a day of the years 0 to 9999 written as
/// `YYYY-MM-DD`, which is how chrono displays it, is read as that day.
#[verifier::external_body]
fn parse_date(text: &str, format: &str) -> (date: Option<Date>)
    ensures
        date matches Some(d) ==> d.is_real() && parsed_date(text@, format@) == Some(
            (d.year(), d.month(), d.day()),
        ),
        date is None ==> parsed_date(text@, format@) is None,
        format@ == "%Y-%m-%d"@ ==> is_read_back(text@, date),
{
    match chrono::NaiveDate::parse_from_str(text, format) {
        Ok(d) => Some(
            Date {
                year: chrono::Datelike::year(&d),
                month: chrono::Datelike::month(&d),
                day: chrono::Datelike::day(&d),
            },
        ),
        Err(_) => None,
    }
}

/// Calls `chrono::NaiveDate::from_ymd_opt` and displays the date it returns.
/// Trusted: chrono knows every day that exists between [`MIN_YEAR`] and
/// [`MAX_YEAR`]; the text it displays is a function of the day; and for the
/// years 0 to 9999 it writes the year in four digits, the month and the day
/// in two each, with `-` between.
#[verifier::external_body]
fn format_ymd(date: Date) -> (text: Option<String>)
    ensures
        date.is_real() ==> text is Some,
        text matches Some(t) ==> t@ == formatted_date(
            date.year() as int,
            date.month() as int,
            date.day() as int,
        ),
        text matches Some(t) ==> (0 <= date.year() <= 9999 ==> t@ == four_two_two(
            date.year() as int,
            date.month() as int,
            date.day() as int,
        )),
{
    match chrono::NaiveDate::from_ymd_opt(date.year, date.month, date.day) {
        Some(day) => Some(day.to_string()),
        None => None,
    }
}

} // verus!
