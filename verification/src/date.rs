//! Parsing dates and fetching the current date.
//!
//! A [`Date`] is a day of the proleptic Gregorian calendar. Parsing, the
//! current date and the text of a date come from the `time` crate: what this
//! module states of it is believed, not proved.

use vstd::prelude::*;
use vstd::string::StringExecFns;

verus! {

/// The format of dates: `[year]-[month]-[day]` (aka `YYYY-MM-DD`).
pub const FORMAT: &'static str = "[year]-[month]-[day]";

/// The first year that a [`Date`] can hold.
pub const MIN_YEAR: i32 = -9999;

/// The last year that a [`Date`] can hold.
pub const MAX_YEAR: i32 = 9999;

/// Whether `year` has a 29th of February.
pub open spec fn is_leap_year(year: int) -> bool {
    year % 4 == 0 && (year % 100 != 0 || year % 400 == 0)
}

/// The number of days of the month `month` in the year `year`.
pub open spec fn days_in_month(year: int, month: int) -> int {
    if month == 2 {
        if is_leap_year(year) {
            29
        } else {
            28
        }
    } else if month == 4 || month == 6 || month == 9 || month == 11 {
        30
    } else {
        31
    }
}

/// Whether there is a day `day` of the month `month` in the year `year`.
pub open spec fn is_calendar_date(year: int, month: int, day: int) -> bool {
    &&& MIN_YEAR <= year <= MAX_YEAR
    &&& 1 <= month <= 12
    &&& 1 <= day <= days_in_month(year, month)
}

/// What a date holds.
pub ghost struct DateView {
    /// The year.
    pub year: int,
    /// The month, from 1 to 12.
    pub month: int,
    /// The day of the month, from 1.
    pub day: int,
}

/// Represents dates.
#[derive(Debug, Clone, Copy, PartialEq, Eq)]
pub struct Date {
    year: i32,
    month: u8,
    day: u8,
}

impl View for Date {
    type V = DateView;

    closed spec fn view(&self) -> DateView {
        DateView { year: self.year as int, month: self.month as int, day: self.day as int }
    }
}

/// The digit that writes the last decimal place of `value`.
pub open spec fn digit(value: int) -> char {
    seq!['0', '1', '2', '3', '4', '5', '6', '7', '8', '9'][value % 10]
}

/// The last `count` decimal places of `value`, with zeros for those that
/// it does not have.
pub open spec fn padded(value: int, count: nat) -> Seq<char>
    decreases count,
{
    if count == 0 {
        Seq::empty()
    } else {
        padded(value / 10, (count - 1) as nat).push(digit(value))
    }
}

/// The text of the day `day` of the month `month` in the year `year`: the
/// year in four digits, after a `-` where it is negative, the month in two
/// and the day in two, with a `-` between them (`YYYY-MM-DD`).
pub open spec fn date_text(year: int, month: int, day: int) -> Seq<char> {
    let sign = if year < 0 {
        seq!['-']
    } else {
        Seq::empty()
    };
    let year = if year < 0 {
        -year
    } else {
        year
    };
    sign + padded(year, 4) + seq!['-'] + padded(month, 2) + seq!['-'] + padded(day, 2)
}

/// The year, month and day that `text` writes in the format `description`.
pub uninterp spec fn parsed_date(text: Seq<char>, description: Seq<char>) -> Option<(i32, u8, u8)>;

/// `time::Date::from_calendar_date` makes the date, which there is by what
/// is required, and `to_string` gives its text: the year in four digits,
/// after a `-` where it is negative, the month in two and the day in two,
/// with a `-` between them.
#[verifier::external_body]
fn format_date(year: i32, month: u8, day: u8) -> (text: String)
    requires
        is_calendar_date(year as int, month as int, day as int),
    ensures
        text@ == date_text(year as int, month as int, day as int),
{
    let month = time::Month::try_from(month).unwrap();
    time::Date::from_calendar_date(year, month, day).unwrap().to_string()
}

/// `time::Date::parse` reads `text` in the format that
/// `time::format_description::parse_borrowed` makes of `description`. Its
/// result is the year, the month, from 1, and the day of the date that was
/// read; `None` where either of the two fails.
#[verifier::external_body]
fn parse_date(text: &str, description: &str) -> (result: Option<(i32, u8, u8)>)
    ensures
        result == parsed_date(text@, description@),
{
    let items = time::format_description::parse_borrowed::<1>(description).ok()?;
    let date = time::Date::parse(text, &items).ok()?;
    Some((date.year(), date.month().into(), date.day()))
}

/// `time::OffsetDateTime::now_utc` gives the current time, and `date` its
/// day: the year, the month, from 1, and the day of a calendar date.
#[verifier::external_body]
fn utc_today() -> (date: (i32, u8, u8))
    ensures
        is_calendar_date(date.0 as int, date.1 as int, date.2 as int),
{
    let date = time::OffsetDateTime::now_utc().date();
    (date.year(), date.month().into(), date.day())
}

/// Decides whether `year` has a 29th of February.
fn leap_year(year: i32) -> (result: bool)
    requires
        MIN_YEAR <= year <= MAX_YEAR,
    ensures
        result == is_leap_year(year as int),
{
    // 10000 is a multiple of 400: shifting by it keeps the remainders
    let shifted: u32 = (year + 10000) as u32;
    shifted % 4 == 0 && (shifted % 100 != 0 || shifted % 400 == 0)
}

impl Date {
    #[verifier::type_invariant]
    spec fn well_formed(&self) -> bool {
        is_calendar_date(self.year as int, self.month as int, self.day as int)
    }

    /// Constructs [`Self`], where there is such a day: `month` counts from 1,
    /// and so does `day`.
    pub fn new(year: i32, month: u8, day: u8) -> (result: Option<Self>)
        ensures
            result is Some <==> is_calendar_date(year as int, month as int, day as int),
            result matches Some(date) ==> date@ == (DateView {
                year: year as int,
                month: month as int,
                day: day as int,
            }),
    {
        if year < MIN_YEAR || year > MAX_YEAR || month < 1 || month > 12 || day < 1 {
            return None;
        }
        let days: u8 = if month == 2 {
            if leap_year(year) {
                29
            } else {
                28
            }
        } else if month == 4 || month == 6 || month == 9 || month == 11 {
            30
        } else {
            31
        };
        if day > days {
            return None;
        }
        Some(Self { year, month, day })
    }

    /// The year.
    pub fn year(&self) -> (year: i32)
        ensures
            year == self@.year,
    {
        self.year
    }

    /// The month, from 1 to 12.
    pub fn month(&self) -> (month: u8)
        ensures
            month == self@.month,
            1 <= month <= 12,
    {
        proof {
            use_type_invariant(self);
        }
        self.month
    }

    /// The day of the month, from 1.
    pub fn day(&self) -> (day: u8)
        ensures
            day == self@.day,
            1 <= day <= 31,
    {
        proof {
            use_type_invariant(self);
        }
        self.day
    }

    /// The text of the date, as templates see it.
    pub open spec fn text(&self) -> Seq<char> {
        date_text(self@.year, self@.month, self@.day)
    }

    /// The text of the date, as templates see it.
    pub fn to_text(&self) -> (text: String)
        ensures
            text@ == self.text(),
    {
        proof {
            use_type_invariant(self);
        }
        format_date(self.year, self.month, self.day)
    }
}

/// Represents errors that can occur when parsing dates.
#[derive(Debug)]
pub struct Error {
    /// The string passed to the [`parse`] function.
    pub string: String,
}

impl Error {
    /// Constructs [`Self`].
    pub fn new(string: String) -> (error: Self)
        ensures
            error.string == string,
    {
        Self { string }
    }

    /// What the error says.
    pub open spec fn message_text(&self) -> Seq<char> {
        "failed to parse `"@ + self.string@ + "` into date"@
    }

    /// Says what went wrong.
    pub fn message(&self) -> (message: String)
        ensures
            message@ == self.message_text(),
    {
        let mut message = "failed to parse `".to_owned();
        message.append(self.string.as_str());
        message.append("` into date");
        message
    }
}

/// Returns the current [`Date`]: the day that the clock of the machine
/// shows in UTC. Which day that is depends on when it is asked; it is a day
/// of the calendar whenever it is asked.
pub fn today() -> (date: Date)
    ensures
        is_calendar_date(date@.year, date@.month, date@.day),
{
    let (year, month, day) = utc_today();
    Date { year, month, day }
}

/// The date that a text gives, once the year, month and day that it writes
/// were read: the day that they name, where there is one.
pub open spec fn date_of(parsed: Option<(i32, u8, u8)>) -> Option<DateView> {
    match parsed {
        Some((year, month, day)) => if is_calendar_date(year as int, month as int, day as int) {
            Some(DateView { year: year as int, month: month as int, day: day as int })
        } else {
            None
        },
        None => None,
    }
}

/// Makes the date of the year, month and day that were read from `string`.
pub fn date_from(parsed: Option<(i32, u8, u8)>, string: &str) -> (result: Result<Date, Error>)
    ensures
        match result {
            Ok(date) => date_of(parsed) == Some(date@),
            Err(error) => date_of(parsed) is None && error.string@ == string@,
        },
{
    match parsed {
        Some((year, month, day)) => match Date::new(year, month, day) {
            Some(date) => Ok(date),
            None => Err(Error::new(string.to_owned())),
        },
        None => Err(Error::new(string.to_owned())),
    }
}

/// Parses strings in the `[year]-[month]-[day]` (aka `YYYY-MM-DD`) format into [`Date`] values.
pub fn parse_str(string: &str) -> (result: Result<Date, Error>)
    ensures
        match result {
            Ok(date) => date_of(parsed_date(string@, FORMAT@)) == Some(date@),
            Err(error) => date_of(parsed_date(string@, FORMAT@)) is None && error.string@
                == string@,
        },
{
    date_from(parse_date(string, FORMAT), string)
}

/// Parses the date that is given, or else returns the current one.
pub fn parse_or_today(string: Option<&str>) -> (result: Result<Date, Error>)
    ensures
        match string {
            Some(string) => match result {
                Ok(date) => date_of(parsed_date(string@, FORMAT@)) == Some(date@),
                Err(error) => date_of(parsed_date(string@, FORMAT@)) is None && error.string@
                    == string@,
            },
            None => result is Ok,
        },
{
    match string {
        Some(string) => parse_str(string),
        None => Ok(today()),
    }
}

/// The same as [`parse_str`].
pub fn parse(string: &str) -> (result: Result<Date, Error>)
    ensures
        match result {
            Ok(date) => date_of(parsed_date(string@, FORMAT@)) == Some(date@),
            Err(error) => date_of(parsed_date(string@, FORMAT@)) is None && error.string@
                == string@,
        },
{
    parse_str(string)
}

} // verus!
