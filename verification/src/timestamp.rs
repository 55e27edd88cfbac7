//! Calendar dates and timestamps, checked and written by chrono.
use vstd::prelude::*;
use crate::text::{all_digits, decimal_value, is_digit, parse_bounded, render_padded};

verus! {

/// A day of the proleptic Gregorian calendar, in the years 0 to 9999.
#[derive(Clone, Copy, Debug, PartialEq, Eq, Structural)]
pub struct CalendarDate {
    pub(crate) year: u16,
    pub(crate) month: u8,
    pub(crate) day: u8,
}

/// A point in time at one-second resolution, in UTC.
#[derive(Clone, Copy, Debug, PartialEq, Eq, Structural)]
pub struct Timestamp {
    pub(crate) date: CalendarDate,
    pub(crate) hour: u8,
    pub(crate) minute: u8,
    pub(crate) second: u8,
}

/// Whether February has 29 days in the year.
pub open spec fn is_leap_year(year: int) -> bool {
    year % 4 == 0 && (year % 100 != 0 || year % 400 == 0)
}

/// The number of days of a month of a year.
pub open spec fn days_in_month(year: int, month: int) -> int {
    if month == 2 {
        if is_leap_year(year) { 29 } else { 28 }
    } else if month == 4 || month == 6 || month == 9 || month == 11 {
        30
    } else {
        31
    }
}

/// Whether month `month` of year `year` has a day `day`.
pub open spec fn is_month_day(year: int, month: int, day: int) -> bool {
    &&& 1 <= month <= 12
    &&& 1 <= day <= days_in_month(year, month)
}

/// Whether the calendar has the day, in a year that four digits can name.
pub open spec fn is_calendar_date(year: int, month: int, day: int) -> bool {
    &&& 0 <= year <= 9999
    &&& is_month_day(year, month, day)
}

/// Whether a clock shows `hour:minute:second`; leap seconds are not representable.
pub open spec fn is_clock_time(hour: int, minute: int, second: int) -> bool {
    &&& 0 <= hour < 24
    &&& 0 <= minute < 60
    &&& 0 <= second < 60
}

impl CalendarDate {
    /// The date names a day that exists.
    #[verifier::type_invariant]
    pub open(crate) spec fn wf(self) -> bool {
        is_calendar_date(self.year as int, self.month as int, self.day as int)
    }

    /// The date with the given fields.
    pub open(crate) spec fn of(year: u16, month: u8, day: u8) -> CalendarDate {
        CalendarDate { year, month, day }
    }

    /// The eight digits `YYYYMMDD`.
    pub open(crate) spec fn text(self) -> Seq<char> {
        render_padded(self.year as nat, 4) + render_padded(self.month as nat, 2) + render_padded(
            self.day as nat,
            2,
        )
    }
}

impl Timestamp {
    /// The date exists and the time of day is one a clock can show.
    #[verifier::type_invariant]
    pub open(crate) spec fn wf(self) -> bool {
        &&& self.date.wf()
        &&& is_clock_time(self.hour as int, self.minute as int, self.second as int)
    }

    /// The timestamp with the given fields.
    pub open(crate) spec fn of(date: CalendarDate, hour: u8, minute: u8, second: u8) -> Timestamp {
        Timestamp { date, hour, minute, second }
    }

    /// The six digits `HHMMSS` of the time of day.
    pub open(crate) spec fn clock_text(self) -> Seq<char> {
        render_padded(self.hour as nat, 2) + render_padded(self.minute as nat, 2) + render_padded(
            self.second as nat,
            2,
        )
    }

    /// The canonical fifteen characters `YYYYMMDD HHMMSS`.
    pub open(crate) spec fn text(self) -> Seq<char> {
        self.date.text() + seq![' '] + self.clock_text()
    }
}

/// `YYYYMMDD` read as a date: eight digits that name an existing day.
pub open(crate) spec fn parse_date(s: Seq<char>) -> Option<CalendarDate> {
    if s.len() == 8 && all_digits(s) {
        let year = decimal_value(s.subrange(0, 4));
        let month = decimal_value(s.subrange(4, 6));
        let day = decimal_value(s.subrange(6, 8));
        if is_calendar_date(year as int, month as int, day as int) {
            Some(CalendarDate { year: year as u16, month: month as u8, day: day as u8 })
        } else {
            None
        }
    } else {
        None
    }
}

/// `YYYYMMDD HHMMSS` read as a timestamp: an existing day, one space, a time of day.
pub open(crate) spec fn parse_timestamp(s: Seq<char>) -> Option<Timestamp> {
    if s.len() == 15 && s[8] == ' ' && all_digits(s.subrange(9, 15)) {
        let hour = decimal_value(s.subrange(9, 11));
        let minute = decimal_value(s.subrange(11, 13));
        let second = decimal_value(s.subrange(13, 15));
        match parse_date(s.subrange(0, 8)) {
            Some(date) => if is_clock_time(hour as int, minute as int, second as int) {
                Some(Timestamp { date, hour: hour as u8, minute: minute as u8, second: second as u8 })
            } else {
                None
            },
            None => None,
        }
    } else {
        None
    }
}

/// `chrono::NaiveDate`, a date of chrono. Nothing is read out of a value of it.
#[verifier::external_type_specification]
#[verifier::external_body]
pub struct ExNaiveDate(chrono::NaiveDate);

/// `chrono::NaiveTime`, a time of day of chrono. Nothing is read out of a value of it.
#[verifier::external_type_specification]
#[verifier::external_body]
pub struct ExNaiveTime(chrono::NaiveTime);

/// `chrono::NaiveDate::from_ymd_opt`. Every year that fits 16 bits is within chrono's
/// range, so the result is `Some` exactly for a month from 1 to 12 and a day from 1 to
/// the length of that month, February having 29 days in leap years.
#[verifier::external_body]
fn chrono_date(year: u16, month: u8, day: u8) -> (date: Option<chrono::NaiveDate>)
    ensures
        date is Some <==> is_month_day(year as int, month as int, day as int),
{
    chrono::NaiveDate::from_ymd_opt(i32::from(year), u32::from(month), u32::from(day))
}

/// `chrono::NaiveTime::from_hms_opt`. The result is `Some` exactly when the hour is
/// below 24 and minute and second are below 60.
#[verifier::external_body]
fn chrono_time(hour: u8, minute: u8, second: u8) -> (time: Option<chrono::NaiveTime>)
    ensures
        time is Some <==> is_clock_time(hour as int, minute as int, second as int),
{
    chrono::NaiveTime::from_hms_opt(u32::from(hour), u32::from(minute), u32::from(second))
}

/// Whether the calendar has the day.
fn calendar_has(year: u16, month: u8, day: u8) -> (b: bool)
    ensures
        b == is_calendar_date(year as int, month as int, day as int),
{
    year <= 9999 && chrono_date(year, month, day).is_some()
}

/// Whether a clock shows the time of day.
fn clock_has(hour: u8, minute: u8, second: u8) -> (b: bool)
    ensures
        b == is_clock_time(hour as int, minute as int, second as int),
{
    chrono_time(hour, minute, second).is_some()
}

/// A part of a run of digits is a run of digits.
proof fn lemma_all_digits_subrange(s: Seq<char>, a: int, b: int)
    requires
        0 <= a <= b <= s.len(),
        all_digits(s),
    ensures
        all_digits(s.subrange(a, b)),
{
    assert forall|i: int| 0 <= i < b - a implies is_digit(
        #[trigger] s.subrange(a, b)[i],
    ) by {
        assert(s.subrange(a, b)[i] == s[a + i]);
    }
}

/// Two runs of digits, one behind the other, are a run of digits.
proof fn lemma_all_digits_join(s: Seq<char>, a: int, m: int, b: int)
    requires
        0 <= a <= m <= b <= s.len(),
        all_digits(s.subrange(a, m)),
        all_digits(s.subrange(m, b)),
    ensures
        all_digits(s.subrange(a, b)),
{
    assert forall|i: int| 0 <= i < b - a implies is_digit(
        #[trigger] s.subrange(a, b)[i],
    ) by {
        if a + i < m {
            assert(s.subrange(a, m)[i] == s[a + i]);
        } else {
            assert(s.subrange(m, b)[a + i - m] == s[a + i]);
        }
    }
}

impl CalendarDate {
    /// The date `year-month-day`, if the calendar has it.
    pub fn new(year: u16, month: u8, day: u8) -> (r: Option<CalendarDate>)
        ensures
            r == if is_calendar_date(year as int, month as int, day as int) {
                Some(CalendarDate::of(year, month, day))
            } else {
                None::<CalendarDate>
            },
    {
        if calendar_has(year, month, day) {
            Some(CalendarDate { year, month, day })
        } else {
            None
        }
    }

    /// The year.
    pub open(crate) spec fn spec_year(&self) -> u16 {
        self.year
    }

    /// The month of the year.
    pub open(crate) spec fn spec_month(&self) -> u8 {
        self.month
    }

    /// The day of the month.
    pub open(crate) spec fn spec_day(&self) -> u8 {
        self.day
    }

    /// The year, from 0 to 9999.
    #[verifier::when_used_as_spec(spec_year)]
    pub fn year(&self) -> (year: u16)
        ensures
            year == self.spec_year(),
            year <= 9999,
    {
        proof {
            use_type_invariant(self);
        }
        self.year
    }

    /// The month of the year, from 1 to 12.
    #[verifier::when_used_as_spec(spec_month)]
    pub fn month(&self) -> (month: u8)
        ensures
            month == self.spec_month(),
            1 <= month <= 12,
    {
        proof {
            use_type_invariant(self);
        }
        self.month
    }

    /// The day of the month, from 1 to the length of the month.
    #[verifier::when_used_as_spec(spec_day)]
    pub fn day(&self) -> (day: u8)
        ensures
            day == self.spec_day(),
            1 <= day <= days_in_month(self.spec_year() as int, self.spec_month() as int),
    {
        proof {
            use_type_invariant(self);
        }
        self.day
    }

    /// Reads the characters `chars[from..to]` as `YYYYMMDD`.
    pub fn parse(chars: &Vec<char>, from: usize, to: usize) -> (r: Option<CalendarDate>)
        requires
            from <= to <= chars.len(),
        ensures
            r == parse_date(chars@.subrange(from as int, to as int)),
    {
        let ghost s = chars@.subrange(from as int, to as int);
        if to - from != 8 {
            return None;
        }
        let year = parse_bounded(chars, from, from + 4, 9999);
        let month = parse_bounded(chars, from + 4, from + 6, 99);
        let day = parse_bounded(chars, from + 6, from + 8, 99);
        proof {
            assert(s.subrange(0, 4) =~= chars@.subrange(from as int, from + 4));
            assert(s.subrange(4, 6) =~= chars@.subrange(from + 4, from + 6));
            assert(s.subrange(6, 8) =~= chars@.subrange(from + 6, from + 8));
            if all_digits(s) {
                lemma_all_digits_subrange(s, 0, 4);
                lemma_all_digits_subrange(s, 4, 6);
                lemma_all_digits_subrange(s, 6, 8);
            }
            if all_digits(s.subrange(0, 4)) && all_digits(s.subrange(4, 6)) && all_digits(
                s.subrange(6, 8),
            ) {
                lemma_all_digits_join(s, 0, 4, 6);
                lemma_all_digits_join(s, 0, 6, 8);
                assert(s.subrange(0, 8) =~= s);
            }
            lemma_fixed_width_bound(s.subrange(0, 4));
            lemma_fixed_width_bound(s.subrange(4, 6));
            lemma_fixed_width_bound(s.subrange(6, 8));
        }
        match (year, month, day) {
            (Some(y), Some(m), Some(d)) => CalendarDate::new(y as u16, m as u8, d as u8),
            _ => None,
        }
    }
}

/// Ten to the power `n`.
pub open spec fn pow10(n: nat) -> nat
    decreases n,
{
    if n == 0 {
        1
    } else {
        10 * pow10((n - 1) as nat)
    }
}

/// A run of `n` digits denotes a number below ten to the `n`.
pub proof fn lemma_fixed_width_bound(s: Seq<char>)
    ensures
        decimal_value(s) < pow10(s.len()),
    decreases s.len(),
{
    if s.len() > 0 {
        lemma_fixed_width_bound(s.drop_last());
    }
}

/// `chrono::NaiveDateTime::format` with the pattern `%Y%m%d %H%M%S`, on the date and time
/// built from the fields. For a year from 0 to 9999 chrono writes the year with four digits
/// and month, day, hour, minute and second with two digits each, all zero-padded.
#[verifier::external_body]
fn chrono_text(t: &Timestamp) -> (s: String)
    requires
        t.wf(),
    ensures
        s@ == t.text(),
{
    let date = chrono::NaiveDate::from_ymd_opt(
        i32::from(t.date.year),
        u32::from(t.date.month),
        u32::from(t.date.day),
    ).unwrap();
    let moment =
        date.and_hms_opt(u32::from(t.hour), u32::from(t.minute), u32::from(t.second)).unwrap();
    moment.format("%Y%m%d %H%M%S").to_string()
}

impl Timestamp {
    /// The timestamp with the given fields, if date and time of day exist.
    pub fn new(year: u16, month: u8, day: u8, hour: u8, minute: u8, second: u8) -> (r: Option<
        Timestamp,
    >)
        ensures
            r == if is_calendar_date(year as int, month as int, day as int) && is_clock_time(
                hour as int,
                minute as int,
                second as int,
            ) {
                Some(Timestamp::of(CalendarDate::of(year, month, day), hour, minute, second))
            } else {
                None::<Timestamp>
            },
    {
        match CalendarDate::new(year, month, day) {
            Some(date) => if clock_has(hour, minute, second) {
                Some(Timestamp { date, hour, minute, second })
            } else {
                None
            },
            None => None,
        }
    }

    /// Reads `chars[from..to]` as `YYYYMMDD HHMMSS`.
    pub fn parse(chars: &Vec<char>, from: usize, to: usize) -> (r: Option<Timestamp>)
        requires
            from <= to <= chars.len(),
        ensures
            r == parse_timestamp(chars@.subrange(from as int, to as int)),
    {
        let ghost s = chars@.subrange(from as int, to as int);
        if to - from != 15 || chars[from + 8] != ' ' {
            return None;
        }
        let date = CalendarDate::parse(chars, from, from + 8);
        let hour = parse_bounded(chars, from + 9, from + 11, 99);
        let minute = parse_bounded(chars, from + 11, from + 13, 99);
        let second = parse_bounded(chars, from + 13, from + 15, 99);
        proof {
            let c = s.subrange(9, 15);
            assert(s.subrange(0, 8) =~= chars@.subrange(from as int, from + 8));
            assert(s.subrange(9, 11) =~= chars@.subrange(from + 9, from + 11));
            assert(s.subrange(11, 13) =~= chars@.subrange(from + 11, from + 13));
            assert(s.subrange(13, 15) =~= chars@.subrange(from + 13, from + 15));
            assert(c.subrange(0, 2) =~= s.subrange(9, 11));
            assert(c.subrange(2, 4) =~= s.subrange(11, 13));
            assert(c.subrange(4, 6) =~= s.subrange(13, 15));
            if all_digits(c) {
                lemma_all_digits_subrange(c, 0, 2);
                lemma_all_digits_subrange(c, 2, 4);
                lemma_all_digits_subrange(c, 4, 6);
            }
            if all_digits(c.subrange(0, 2)) && all_digits(c.subrange(2, 4)) && all_digits(
                c.subrange(4, 6),
            ) {
                lemma_all_digits_join(c, 0, 2, 4);
                lemma_all_digits_join(c, 0, 4, 6);
                assert(c.subrange(0, 6) =~= c);
            }
            lemma_fixed_width_bound(s.subrange(9, 11));
            lemma_fixed_width_bound(s.subrange(11, 13));
            lemma_fixed_width_bound(s.subrange(13, 15));
        }
        match (date, hour, minute, second) {
            (Some(date), Some(h), Some(m), Some(sec)) => if clock_has(h as u8, m as u8, sec as u8) {
                Some(Timestamp { date, hour: h as u8, minute: m as u8, second: sec as u8 })
            } else {
                None
            },
            _ => None,
        }
    }

    /// The canonical text `YYYYMMDD HHMMSS` of the timestamp.
    pub fn to_text(&self) -> (s: String)
        ensures
            s@ == self.text(),
    {
        proof {
            use_type_invariant(self);
        }
        chrono_text(self)
    }

    /// The day.
    pub open(crate) spec fn spec_date(&self) -> CalendarDate {
        self.date
    }

    /// The hour of the day.
    pub open(crate) spec fn spec_hour(&self) -> u8 {
        self.hour
    }

    /// The minute of the hour.
    pub open(crate) spec fn spec_minute(&self) -> u8 {
        self.minute
    }

    /// The second of the minute.
    pub open(crate) spec fn spec_second(&self) -> u8 {
        self.second
    }

    /// The day.
    #[verifier::when_used_as_spec(spec_date)]
    pub fn date(&self) -> (date: CalendarDate)
        ensures
            date == self.spec_date(),
            date.wf(),
    {
        proof {
            use_type_invariant(self);
        }
        self.date
    }

    /// The hour of the day, from 0 to 23.
    #[verifier::when_used_as_spec(spec_hour)]
    pub fn hour(&self) -> (hour: u8)
        ensures
            hour == self.spec_hour(),
            hour < 24,
    {
        proof {
            use_type_invariant(self);
        }
        self.hour
    }

    /// The minute of the hour, from 0 to 59.
    #[verifier::when_used_as_spec(spec_minute)]
    pub fn minute(&self) -> (minute: u8)
        ensures
            minute == self.spec_minute(),
            minute < 60,
    {
        proof {
            use_type_invariant(self);
        }
        self.minute
    }

    /// The second of the minute, from 0 to 59.
    #[verifier::when_used_as_spec(spec_second)]
    pub fn second(&self) -> (second: u8)
        ensures
            second == self.spec_second(),
            second < 60,
    {
        proof {
            use_type_invariant(self);
        }
        self.second
    }
}

/// A number below ten to the `width`, written with `width` digits, reads back as itself.
pub proof fn lemma_render_padded(n: nat, width: nat)
    requires
        n < pow10(width),
    ensures
        render_padded(n, width).len() == width,
        all_digits(render_padded(n, width)),
        decimal_value(render_padded(n, width)) == n,
    decreases width,
{
    if width > 0 {
        let rest = render_padded(n / 10, (width - 1) as nat);
        lemma_render_padded(n / 10, (width - 1) as nat);
        let s = render_padded(n, width);
        assert(s.drop_last() =~= rest);
        assert forall|i: int| 0 <= i < s.len() implies is_digit(#[trigger] s[i]) by {
            if i < rest.len() {
                assert(s[i] == rest[i]);
            }
        }
    }
}

/// The eight digits of an existing date read back as that date.
pub proof fn lemma_date_text_parses(d: CalendarDate)
    requires
        d.wf(),
    ensures
        d.text().len() == 8,
        all_digits(d.text()),
        parse_date(d.text()) == Some(d),
{
    reveal_with_fuel(pow10, 5);
    let y = render_padded(d.year as nat, 4);
    let m = render_padded(d.month as nat, 2);
    let dd = render_padded(d.day as nat, 2);
    lemma_render_padded(d.year as nat, 4);
    lemma_render_padded(d.month as nat, 2);
    lemma_render_padded(d.day as nat, 2);
    let s = d.text();
    assert(s.subrange(0, 4) =~= y);
    assert(s.subrange(4, 6) =~= m);
    assert(s.subrange(6, 8) =~= dd);
    lemma_all_digits_join(s, 0, 4, 6);
    lemma_all_digits_join(s, 0, 6, 8);
    assert(s.subrange(0, 8) =~= s);
}

/// The canonical text of a well-formed timestamp reads back as that timestamp.
pub proof fn lemma_timestamp_text_parses(t: Timestamp)
    requires
        t.wf(),
    ensures
        t.text().len() == 15,
        parse_timestamp(t.text()) == Some(t),
{
    reveal_with_fuel(pow10, 3);
    lemma_date_text_parses(t.date);
    let h = render_padded(t.hour as nat, 2);
    let m = render_padded(t.minute as nat, 2);
    let sec = render_padded(t.second as nat, 2);
    lemma_render_padded(t.hour as nat, 2);
    lemma_render_padded(t.minute as nat, 2);
    lemma_render_padded(t.second as nat, 2);
    let s = t.text();
    let c = t.clock_text();
    assert(s.subrange(0, 8) =~= t.date.text());
    assert(s.subrange(9, 15) =~= c);
    assert(s.subrange(9, 11) =~= h);
    assert(s.subrange(11, 13) =~= m);
    assert(s.subrange(13, 15) =~= sec);
    assert(c.subrange(0, 2) =~= h);
    assert(c.subrange(2, 4) =~= m);
    assert(c.subrange(4, 6) =~= sec);
    lemma_all_digits_join(c, 0, 2, 4);
    lemma_all_digits_join(c, 0, 4, 6);
    assert(c.subrange(0, 6) =~= c);
}

/// What reads as a date or a timestamp exists.
pub proof fn lemma_parsed_stamp_wf(s: Seq<char>)
    ensures
        parse_date(s) matches Some(d) ==> d.wf(),
        parse_timestamp(s) matches Some(t) ==> t.wf(),
{
    lemma_fixed_width_bound(s.subrange(0, 4));
    lemma_fixed_width_bound(s.subrange(4, 6));
    lemma_fixed_width_bound(s.subrange(6, 8));
    let d = s.subrange(0, 8);
    lemma_fixed_width_bound(d.subrange(0, 4));
    lemma_fixed_width_bound(d.subrange(4, 6));
    lemma_fixed_width_bound(d.subrange(6, 8));
    lemma_fixed_width_bound(s.subrange(9, 11));
    lemma_fixed_width_bound(s.subrange(11, 13));
    lemma_fixed_width_bound(s.subrange(13, 15));
    reveal_with_fuel(pow10, 5);
}

/// The text of a well-formed timestamp is fifteen characters: digits, but for the
/// space between date and time of day.
pub proof fn lemma_stamp_text_shape(t: Timestamp)
    requires
        t.wf(),
    ensures
        t.text().len() == 15,
        t.text()[8] == ' ',
        forall|i: int| 0 <= i < 15 && i != 8 ==> is_digit(#[trigger] t.text()[i]),
{
    lemma_timestamp_text_parses(t);
    lemma_date_text_parses(t.date);
    let s = t.text();
    assert forall|i: int| 0 <= i < 15 && i != 8 implies is_digit(#[trigger] s[i]) by {
        if i < 8 {
            assert(s[i] == t.date.text()[i]);
        } else {
            assert(s[i] == s.subrange(9, 15)[i - 9]);
        }
    }
}

} // verus!
