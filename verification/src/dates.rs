//! Dates: the forms in which the carrier writes a moment, and the one form in which the crate
//! hands a date on, such as `January 05, 2024`.
//!
//! The reading and the writing are `chrono`'s.

use chrono::Datelike;
use vstd::prelude::*;

use crate::text::{all_digits, decimal, digits_value, replace, replaced};

verus! {

/// The form in which dates are handed on.
pub const LONG_DATE: &'static str = "%B %d, %Y";

/// A date and a time of day without an offset.
pub const LOCAL_STAMP: &'static str = "%Y-%m-%dT%H:%M:%S";

/// A date alone.
pub const DAY: &'static str = "%Y-%m-%d";

/// A day of the proleptic Gregorian calendar.
#[derive(Clone, Copy, PartialEq, Eq, Structural, Debug)]
pub struct CalendarDate {
    pub year: i32,
    pub month: u32,
    pub day: u32,
}

pub open spec fn is_leap_year(year: int) -> bool {
    year % 4 == 0 && (year % 100 != 0 || year % 400 == 0)
}

pub open spec fn days_in_month(year: int, month: int) -> int {
    if month == 2 {
        if is_leap_year(year) {
            29
        } else {
            28
        }
    } else if month == 4 || month == 6 || month == 9 || month == 11 {
        30
    } else {
        31
    }
}

/// A day that the calendar has, in a year that `chrono` can hold.
pub open spec fn is_date(date: CalendarDate) -> bool {
    &&& -262143 <= date.year <= 262142
    &&& 1 <= date.month <= 12
    &&& 1 <= date.day <= days_in_month(date.year as int, date.month as int)
}

pub open spec fn month_name(month: int) -> Seq<char> {
    if month == 1 {
        "January"@
    } else if month == 2 {
        "February"@
    } else if month == 3 {
        "March"@
    } else if month == 4 {
        "April"@
    } else if month == 5 {
        "May"@
    } else if month == 6 {
        "June"@
    } else if month == 7 {
        "July"@
    } else if month == 8 {
        "August"@
    } else if month == 9 {
        "September"@
    } else if month == 10 {
        "October"@
    } else if month == 11 {
        "November"@
    } else {
        "December"@
    }
}

/// `n` in decimal digits, with zeros in front up to `width` digits.
pub open spec fn zero_padded(n: nat, width: nat) -> Seq<char> {
    let digits = decimal(n);
    if digits.len() < width {
        Seq::new((width - digits.len()) as nat, |i: int| '0') + digits
    } else {
        digits
    }
}

/// A year: four digits, and a sign before a year that four digits cannot write.
pub open spec fn year_text(year: int) -> Seq<char> {
    if year < 0 {
        "-"@ + zero_padded((-year) as nat, 4)
    } else if year > 9999 {
        "+"@ + zero_padded(year as nat, 4)
    } else {
        zero_padded(year as nat, 4)
    }
}

/// The date in the form that [`LONG_DATE`] describes, such as `January 05, 2024`.
pub open spec fn long_date(date: CalendarDate) -> Seq<char> {
    month_name(date.month as int) + " "@ + zero_padded(date.day as nat, 2) + ", "@ + year_text(
        date.year as int,
    )
}

/// `s[from..to]` is a row of digits that stands for `n`.
pub open spec fn digits_between(s: Seq<char>, from: int, to: int, n: int) -> bool {
    all_digits(s.subrange(from, to)) && digits_value(s.subrange(from, to)) == n
}

/// `s` starts with the date, written as `2024-01-05`.
pub open spec fn starts_with_date(s: Seq<char>, date: CalendarDate) -> bool {
    &&& s.len() >= 10
    &&& digits_between(s, 0, 4, date.year as int)
    &&& s[4] == '-'
    &&& digits_between(s, 5, 7, date.month as int)
    &&& s[7] == '-'
    &&& digits_between(s, 8, 10, date.day as int)
}

/// `t` is a time of day, written as `10:11:12`.
pub open spec fn is_time(t: Seq<char>) -> bool {
    &&& t.len() == 8
    &&& exists|hour: int| digits_between(t, 0, 2, hour) && hour < 24
    &&& t[2] == ':'
    &&& exists|minute: int| digits_between(t, 3, 5, minute) && minute < 60
    &&& t[5] == ':'
    &&& exists|second: int| digits_between(t, 6, 8, second) && second < 60
}

/// `t` is an offset from UTC, written as `+05:30` or `-08:00`.
pub open spec fn is_offset(t: Seq<char>) -> bool {
    &&& t.len() == 6
    &&& t[0] == '+' || t[0] == '-'
    &&& exists|hours: int| digits_between(t, 1, 3, hours) && hours < 24
    &&& t[3] == ':'
    &&& exists|minutes: int| digits_between(t, 4, 6, minutes) && minutes < 60
}

/// `s` is the date alone, written as `2024-01-05`.
pub open spec fn is_day(s: Seq<char>, date: CalendarDate) -> bool {
    s.len() == 10 && is_date(date) && starts_with_date(s, date)
}

/// `s` is the date and a time of day, written as `2024-01-05T10:11:12`.
pub open spec fn is_local_stamp(s: Seq<char>, date: CalendarDate) -> bool {
    s.len() == 19 && is_date(date) && starts_with_date(s, date) && s[10] == 'T' && is_time(s.skip(11))
}

/// `s` is the date and a time of day in UTC, written as `2024-01-05T10:11:12Z`.
pub open spec fn is_utc_stamp(s: Seq<char>, date: CalendarDate) -> bool {
    s.len() == 20 && is_local_stamp(s.take(19), date) && s[19] == 'Z'
}

/// `s` is the date, a time of day and an offset, written as `2024-01-05T10:11:12-08:00`.
pub open spec fn is_offset_stamp(s: Seq<char>, date: CalendarDate) -> bool {
    s.len() == 25 && is_local_stamp(s.take(19), date) && is_offset(s.skip(19))
}

/// `s` is the date in one of the plain forms.
pub open spec fn is_plain_form(s: Seq<char>, date: CalendarDate) -> bool {
    is_offset_stamp(s, date) || is_utc_stamp(s, date) || is_local_stamp(s, date) || is_day(s, date)
}

/// The date that `DateTime::parse_from_rfc3339` reads from a text, as written there.
pub uninterp spec fn rfc3339_date(text: Seq<char>) -> Option<CalendarDate>;

/// The date that `NaiveDateTime::parse_from_str` reads from a text by a format.
pub uninterp spec fn naive_datetime_date(text: Seq<char>, format: Seq<char>) -> Option<
    CalendarDate,
>;

/// The date that `NaiveDate::parse_from_str` reads from a text by a format.
pub uninterp spec fn naive_date(text: Seq<char>, format: Seq<char>) -> Option<CalendarDate>;

/// `DateTime::parse_from_rfc3339`, and the year, month and day of what it reads, under the name
/// [`rfc3339_date`]. Where it succeeds, the text is at least twenty characters long and starts
/// with that date; it succeeds on a date, a time of day and an offset in digits.
#[verifier::external_body]
fn parse_rfc3339(text: &str) -> (r: Option<CalendarDate>)
    ensures
        r == rfc3339_date(text@),
        r matches Some(date) ==> is_date(date) && text@.len() >= 20 && starts_with_date(text@, date),
        forall|date: CalendarDate| #[trigger] is_offset_stamp(text@, date) ==> r is Some,
{
    chrono::DateTime::parse_from_rfc3339(text)
        .ok()
        .map(|moment| CalendarDate { year: moment.year(), month: moment.month(), day: moment.day() })
}

/// `NaiveDateTime::parse_from_str`, and the year, month and day of what it reads, under the name
/// [`naive_datetime_date`]. By [`LOCAL_STAMP`] it reads the date of a text of that form, and
/// nothing from a text without a `T`; from a text that starts with a date in digits it reads that
/// date or none, and none where the calendar lacks the day.
#[verifier::external_body]
fn parse_naive_datetime(text: &str, format: &str) -> (r: Option<CalendarDate>)
    requires
        format@ == LOCAL_STAMP@,
    ensures
        r == naive_datetime_date(text@, format@),
        r matches Some(date) ==> is_date(date),
        forall|date: CalendarDate| #[trigger] is_local_stamp(text@, date) ==> r == Some(date),
        forall|date: CalendarDate| #[trigger]
            starts_with_date(text@, date) ==> r is None || r == Some(date),
        r is Some ==> text@.contains('T'),
{
    chrono::NaiveDateTime::parse_from_str(text, format)
        .ok()
        .map(|moment| CalendarDate { year: moment.year(), month: moment.month(), day: moment.day() })
}

/// `NaiveDate::parse_from_str`, and the year, month and day of what it reads, under the name
/// [`naive_date`]. By [`DAY`] it reads the date of a text of that form; from a text that starts
/// with a date in digits it reads that date or none, and none where the calendar lacks the day.
#[verifier::external_body]
fn parse_naive_date(text: &str, format: &str) -> (r: Option<CalendarDate>)
    requires
        format@ == DAY@,
    ensures
        r == naive_date(text@, format@),
        r matches Some(date) ==> is_date(date),
        forall|date: CalendarDate| #[trigger] is_day(text@, date) ==> r == Some(date),
        forall|date: CalendarDate| #[trigger]
            starts_with_date(text@, date) ==> r is None || r == Some(date),
{
    chrono::NaiveDate::parse_from_str(text, format)
        .ok()
        .map(|day| CalendarDate { year: day.year(), month: day.month(), day: day.day() })
}

/// `NaiveDate::format` by [`LONG_DATE`]: the month's English name, the day in two digits, and the
/// year in four, or with a sign where four digits cannot write it.
#[verifier::external_body]
fn format_date(date: CalendarDate, format: &str) -> (r: String)
    requires
        is_date(date),
        format@ == LONG_DATE@,
    ensures
        r@ == long_date(date),
{
    chrono::NaiveDate::from_ymd_opt(date.year, date.month, date.day).unwrap().format(format).to_string()
}

/// The date that the first of the three readings found.
pub open spec fn first_date(
    zoned: Option<CalendarDate>,
    local: Option<CalendarDate>,
    day: Option<CalendarDate>,
) -> Option<CalendarDate> {
    if zoned is Some {
        zoned
    } else if local is Some {
        local
    } else {
        day
    }
}

/// The text in which the readings are tried: an offset in digits in place of each `Z`.
pub open spec fn with_digit_offset(text: Seq<char>) -> Seq<char> {
    replaced(text, 'Z', "+00:00"@)
}

/// The date that a text writes, in one of the forms that are read.
pub open spec fn written_date(text: Seq<char>) -> Option<CalendarDate> {
    let s = with_digit_offset(text);
    first_date(rfc3339_date(s), naive_datetime_date(s, LOCAL_STAMP@), naive_date(s, DAY@))
}

/// The date that a text writes, in the form that is handed on.
pub open spec fn standard_time(text: Seq<char>) -> Option<Seq<char>> {
    match written_date(text) {
        Some(date) => Some(long_date(date)),
        None => None,
    }
}

/// The first date that was found, in the form that is handed on.
pub fn standard_date(
    zoned: Option<CalendarDate>,
    local: Option<CalendarDate>,
    day: Option<CalendarDate>,
) -> (r: Option<String>)
    requires
        zoned matches Some(date) ==> is_date(date),
        local matches Some(date) ==> is_date(date),
        day matches Some(date) ==> is_date(date),
    ensures
        match r {
            Some(text) => first_date(zoned, local, day) matches Some(date) && text@ == long_date(
                date,
            ),
            None => first_date(zoned, local, day) is None,
        },
{
    match zoned {
        Some(date) => Some(format_date(date, LONG_DATE)),
        None => match local {
            Some(date) => Some(format_date(date, LONG_DATE)),
            None => match day {
                Some(date) => Some(format_date(date, LONG_DATE)),
                None => None,
            },
        },
    }
}

proof fn lemma_nothing_replaced(s: Seq<char>, from: char, with: Seq<char>)
    requires
        forall|i: int| 0 <= i < s.len() ==> s[i] != from,
    ensures
        replaced(s, from, with) == s,
    decreases s.len(),
{
    if s.len() > 0 {
        lemma_nothing_replaced(s.drop_last(), from, with);
        assert(s.drop_last().push(s.last()) =~= s);
    }
}

/// What stands before the first character that is replaced stays.
proof fn lemma_front_not_replaced(s: Seq<char>, from: char, with: Seq<char>, n: int)
    requires
        0 <= n <= s.len(),
        forall|i: int| 0 <= i < n ==> s[i] != from,
    ensures
        replaced(s, from, with).len() >= n,
        replaced(s, from, with).take(n) == s.take(n),
    decreases s.len(),
{
    if n == s.len() {
        lemma_nothing_replaced(s, from, with);
    } else {
        let front = s.drop_last();
        lemma_front_not_replaced(front, from, with, n);
        assert(front.take(n) =~= s.take(n));
        assert(replaced(s, from, with).take(n) =~= replaced(front, from, with).take(n));
    }
}

/// A date is digits and two dashes.
proof fn lemma_date_characters(s: Seq<char>, date: CalendarDate)
    requires
        starts_with_date(s, date),
    ensures
        forall|i: int| 0 <= i < 10 ==> s[i] != 'Z' && s[i] != 'T',
{
    assert forall|i: int| 0 <= i < 10 implies s[i] != 'Z' && s[i] != 'T' by {
        if i < 4 {
            assert(s[i] == s.subrange(0, 4)[i]);
        } else if 5 <= i < 7 {
            assert(s[i] == s.subrange(5, 7)[i - 5]);
        } else if 8 <= i {
            assert(s[i] == s.subrange(8, 10)[i - 8]);
        }
    }
}

/// A time of day is digits and two colons.
proof fn lemma_time_characters(t: Seq<char>)
    requires
        is_time(t),
    ensures
        forall|i: int| 0 <= i < 8 ==> t[i] != 'Z',
{
    assert forall|i: int| 0 <= i < 8 implies t[i] != 'Z' by {
        if i < 2 {
            assert(t[i] == t.subrange(0, 2)[i]);
        } else if 3 <= i < 5 {
            assert(t[i] == t.subrange(3, 5)[i - 3]);
        } else if 6 <= i {
            assert(t[i] == t.subrange(6, 8)[i - 6]);
        }
    }
}

/// An offset is a sign, digits and a colon.
proof fn lemma_offset_characters(t: Seq<char>)
    requires
        is_offset(t),
    ensures
        forall|i: int| 0 <= i < 6 ==> t[i] != 'Z',
{
    assert forall|i: int| 0 <= i < 6 implies t[i] != 'Z' by {
        if 1 <= i < 3 {
            assert(t[i] == t.subrange(1, 3)[i - 1]);
        } else if 4 <= i {
            assert(t[i] == t.subrange(4, 6)[i - 4]);
        }
    }
}

/// No `Z` stands in a date and a time of day.
proof fn lemma_stamp_characters(s: Seq<char>, date: CalendarDate)
    requires
        is_local_stamp(s, date),
    ensures
        forall|i: int| 0 <= i < 19 ==> s[i] != 'Z',
{
    lemma_date_characters(s, date);
    lemma_time_characters(s.skip(11));
    assert forall|i: int| 0 <= i < 19 implies s[i] != 'Z' by {
        if 11 <= i {
            assert(s[i] == s.skip(11)[i - 11]);
        }
    }
}

/// `+00:00` is an offset.
proof fn lemma_zero_offset()
    ensures
        is_offset("+00:00"@),
{
    reveal_strlit("+00:00");
    let t = "+00:00"@;
    assert(t.subrange(1, 3) =~= seq!['0', '0']);
    assert(t.subrange(4, 6) =~= seq!['0', '0']);
    let zeros = seq!['0', '0'];
    assert(zeros.drop_last() =~= seq!['0']);
    assert(zeros.drop_last().drop_last() =~= Seq::empty());
    reveal_with_fuel(digits_value, 3);
    assert(digits_between(t, 1, 3, 0));
    assert(digits_between(t, 4, 6, 0));
}

/// A date starts a text exactly if it starts the first ten characters.
proof fn lemma_date_in_front(s: Seq<char>, t: Seq<char>, date: CalendarDate)
    requires
        starts_with_date(s, date),
        t.len() >= 10,
        s.take(10) == t.take(10),
    ensures
        starts_with_date(t, date),
{
    assert forall|i: int| 0 <= i < 10 implies s[i] == t[i] by {
        assert(s[i] == s.take(10)[i]);
        assert(t[i] == t.take(10)[i]);
    }
    assert(s.subrange(0, 4) =~= t.subrange(0, 4));
    assert(s.subrange(5, 7) =~= t.subrange(5, 7));
    assert(s.subrange(8, 10) =~= t.subrange(8, 10));
}

/// Two dates that start one text are the same.
proof fn lemma_starting_date_is_unique(s: Seq<char>, a: CalendarDate, b: CalendarDate)
    requires
        starts_with_date(s, a),
        starts_with_date(s, b),
    ensures
        a == b,
{
}

/// The date in `date_str`, in the form that is handed on. Every plain form is read. The date is
/// the one that stands in the text: from a text that starts with a date in digits that date is
/// read or none, whatever time of day and offset follow it, and none where the calendar lacks the
/// day.
pub fn to_standard_time(date_str: &str) -> (r: Option<String>)
    ensures
        match r {
            Some(text) => standard_time(date_str@) == Some(text@),
            None => standard_time(date_str@) is None,
        },
        forall|date: CalendarDate| #[trigger]
            is_plain_form(date_str@, date) ==> r is Some && r->0@ == long_date(date),
        forall|date: CalendarDate| #[trigger]
            starts_with_date(date_str@, date) ==> r is None || (is_date(date) && r->0@ == long_date(
                date,
            )),
{
    let s = replace(date_str, 'Z', "+00:00");
    let zoned = parse_rfc3339(s.as_str());
    let local = parse_naive_datetime(s.as_str(), LOCAL_STAMP);
    let day = parse_naive_date(s.as_str(), DAY);
    proof {
        let t = date_str@;
        assert forall|date: CalendarDate| #[trigger] starts_with_date(t, date) implies written_date(t)
            is None || (is_date(date) && written_date(t) == Some(date)) by {
            lemma_date_characters(t, date);
            lemma_front_not_replaced(t, 'Z', "+00:00"@, 10);
            lemma_date_in_front(t, s@, date);
            if zoned is Some {
                lemma_starting_date_is_unique(s@, zoned->0, date);
            }
        }
        assert forall|date: CalendarDate| #[trigger] is_plain_form(t, date) implies written_date(t)
            is Some && starts_with_date(t, date) by {
            if is_utc_stamp(t, date) {
                let front = t.take(19);
                lemma_stamp_characters(front, date);
                lemma_nothing_replaced(front, 'Z', "+00:00"@);
                lemma_zero_offset();
                assert(t.drop_last() =~= front);
                assert(s@ =~= front + "+00:00"@);
                assert(s@.take(19) =~= front);
                assert(s@.skip(19) =~= "+00:00"@);
                assert(is_offset_stamp(s@, date));
                assert(front.take(10) =~= t.take(10));
                lemma_date_in_front(front, t, date);
            } else if is_offset_stamp(t, date) {
                let front = t.take(19);
                lemma_stamp_characters(front, date);
                lemma_offset_characters(t.skip(19));
                assert forall|i: int| 0 <= i < t.len() implies t[i] != 'Z' by {
                    if i < 19 {
                        assert(t[i] == front[i]);
                    } else {
                        assert(t[i] == t.skip(19)[i - 19]);
                    }
                }
                lemma_nothing_replaced(t, 'Z', "+00:00"@);
                assert(s@ == t);
                assert(is_offset_stamp(s@, date));
                assert(front.take(10) =~= t.take(10));
                lemma_date_in_front(front, t, date);
            } else if is_local_stamp(t, date) {
                lemma_stamp_characters(t, date);
                lemma_nothing_replaced(t, 'Z', "+00:00"@);
                assert(s@ == t);
                assert(local == Some(date));
            } else {
                lemma_date_characters(t, date);
                lemma_nothing_replaced(t, 'Z', "+00:00"@);
                assert(s@ == t);
                assert(day == Some(date));
            }
        }
    }
    standard_date(zoned, local, day)
}

/// The time of day and the offset do not move the date: the day alone, the day with a time, and
/// both with `Z` or with an offset are all read, and all as the same date.
pub proof fn law_time_and_offset_do_not_move_the_date(
    date: CalendarDate,
    time: Seq<char>,
    offset: Seq<char>,
    day: &str,
    local: &str,
    utc: &str,
    zoned: &str,
    of_day: Option<String>,
    of_local: Option<String>,
    of_utc: Option<String>,
    of_zoned: Option<String>,
)
    requires
        is_day(day@, date),
        is_time(time),
        is_offset(offset),
        local@ == day@ + seq!['T'] + time,
        utc@ == local@ + seq!['Z'],
        zoned@ == local@ + offset,
        call_ensures(to_standard_time, (day,), of_day),
        call_ensures(to_standard_time, (local,), of_local),
        call_ensures(to_standard_time, (utc,), of_utc),
        call_ensures(to_standard_time, (zoned,), of_zoned),
    ensures
        of_day is Some && of_day->0@ == long_date(date),
        of_local is Some && of_local->0@ == long_date(date),
        of_utc is Some && of_utc->0@ == long_date(date),
        of_zoned is Some && of_zoned->0@ == long_date(date),
{
    assert(day@.take(10) =~= local@.take(10));
    lemma_date_in_front(day@, local@, date);
    assert(local@.skip(11) =~= time);
    assert(is_local_stamp(local@, date));
    assert(utc@.take(19) =~= local@);
    assert(zoned@.take(19) =~= local@);
    assert(zoned@.skip(19) =~= offset);
    assert(is_plain_form(day@, date));
    assert(is_plain_form(local@, date));
    assert(is_plain_form(utc@, date));
    assert(is_plain_form(zoned@, date));
}

/// A number below a hundred in two digits.
pub open spec fn two_digits(n: int) -> Seq<char> {
    seq![(48 + n / 10) as char, (48 + n % 10) as char]
}

/// A number below ten thousand in four digits.
pub open spec fn four_digits(n: int) -> Seq<char> {
    two_digits(n / 100) + two_digits(n % 100)
}

/// A day, written as `2024-01-05`.
pub open spec fn day_text(year: int, month: int, day: int) -> Seq<char> {
    four_digits(year) + seq!['-'] + two_digits(month) + seq!['-'] + two_digits(day)
}

/// A time of day, written as `10:11:12`.
pub open spec fn clock_text(hour: int, minute: int, second: int) -> Seq<char> {
    two_digits(hour) + seq![':'] + two_digits(minute) + seq![':'] + two_digits(second)
}

proof fn lemma_two_digits(n: int)
    requires
        0 <= n < 100,
    ensures
        all_digits(two_digits(n)),
        digits_value(two_digits(n)) == n,
        zero_padded(n as nat, 2) == two_digits(n),
{
    let s = two_digits(n);
    reveal_with_fuel(digits_value, 3);
    reveal_with_fuel(decimal, 2);
    assert(s.drop_last() =~= seq![(48 + n / 10) as char]);
    assert(s.drop_last().drop_last() =~= Seq::empty());
    if n < 10 {
        assert(decimal(n as nat) =~= seq![(48 + n) as char]);
        assert(zero_padded(n as nat, 2) =~= s);
    } else {
        assert(decimal(n as nat) =~= s);
    }
}

proof fn lemma_four_digits(n: int)
    requires
        0 <= n < 10000,
    ensures
        all_digits(four_digits(n)),
        digits_value(four_digits(n)) == n,
        zero_padded(n as nat, 4) == four_digits(n),
{
    let s = four_digits(n);
    let a = n / 1000;
    let b = n / 100 % 10;
    let c = n / 10 % 10;
    let d = n % 10;
    assert(n / 100 / 10 == a);
    assert(n % 100 / 10 == c);
    assert(n % 100 % 10 == d);
    let three = seq![(48 + a) as char, (48 + b) as char, (48 + c) as char];
    let two = seq![(48 + a) as char, (48 + b) as char];
    let one = seq![(48 + a) as char];
    assert(s =~= three.push((48 + d) as char));
    assert(s.drop_last() =~= three);
    assert(three.drop_last() =~= two);
    assert(two.drop_last() =~= one);
    assert(one.drop_last() =~= Seq::empty());
    reveal_with_fuel(digits_value, 5);
    reveal_with_fuel(decimal, 4);
    assert(n == 1000 * a + 100 * b + 10 * c + d);
    if n < 10 {
        assert(decimal(n as nat) =~= seq![(48 + d) as char]);
        assert(zero_padded(n as nat, 4) =~= s);
    } else if n < 100 {
        assert(decimal((n / 10) as nat) =~= seq![(48 + c) as char]);
        assert(decimal(n as nat) =~= seq![(48 + c) as char, (48 + d) as char]);
        assert(zero_padded(n as nat, 4) =~= s);
    } else if n < 1000 {
        assert(n / 10 / 10 == b);
        assert(decimal((n / 10 / 10) as nat) =~= seq![(48 + b) as char]);
        assert(decimal((n / 10) as nat) =~= seq![(48 + b) as char, (48 + c) as char]);
        assert(decimal(n as nat) =~= seq![
            (48 + b) as char,
            (48 + c) as char,
            (48 + d) as char,
        ]);
        assert(zero_padded(n as nat, 4) =~= s);
    } else {
        assert(n / 10 / 10 / 10 == a);
        assert(n / 10 / 10 % 10 == b);
        assert(decimal((n / 10 / 10 / 10) as nat) =~= one);
        assert(decimal((n / 10 / 10) as nat) =~= two);
        assert(decimal((n / 10) as nat) =~= three);
        assert(decimal(n as nat) =~= s);
        assert(zero_padded(n as nat, 4) =~= s);
    }
}

proof fn lemma_day_text(year: int, month: int, day: int)
    requires
        0 <= year < 10000,
        0 <= month < 100,
        0 <= day < 100,
    ensures
        day_text(year, month, day).len() == 10,
        starts_with_date(
            day_text(year, month, day),
            (CalendarDate { year: year as i32, month: month as u32, day: day as u32 }),
        ),
{
    let s = day_text(year, month, day);
    lemma_four_digits(year);
    lemma_two_digits(month);
    lemma_two_digits(day);
    assert(s.subrange(0, 4) =~= four_digits(year));
    assert(s.subrange(5, 7) =~= two_digits(month));
    assert(s.subrange(8, 10) =~= two_digits(day));
}

proof fn lemma_clock_text(hour: int, minute: int, second: int)
    requires
        0 <= hour < 24,
        0 <= minute < 60,
        0 <= second < 60,
    ensures
        is_time(clock_text(hour, minute, second)),
{
    let s = clock_text(hour, minute, second);
    lemma_two_digits(hour);
    lemma_two_digits(minute);
    lemma_two_digits(second);
    assert(s.subrange(0, 2) =~= two_digits(hour));
    assert(s.subrange(3, 5) =~= two_digits(minute));
    assert(s.subrange(6, 8) =~= two_digits(second));
    assert(digits_between(s, 0, 2, hour));
    assert(digits_between(s, 3, 5, minute));
    assert(digits_between(s, 6, 8, second));
}

proof fn lemma_offset_text(sign: char, hours: int, minutes: int)
    requires
        sign == '+' || sign == '-',
        0 <= hours < 24,
        0 <= minutes < 60,
    ensures
        is_offset(seq![sign] + two_digits(hours) + seq![':'] + two_digits(minutes)),
{
    let s = seq![sign] + two_digits(hours) + seq![':'] + two_digits(minutes);
    lemma_two_digits(hours);
    lemma_two_digits(minutes);
    assert(s.subrange(1, 3) =~= two_digits(hours));
    assert(s.subrange(4, 6) =~= two_digits(minutes));
    assert(digits_between(s, 1, 3, hours));
    assert(digits_between(s, 4, 6, minutes));
}

/// Whether the calendar has the day.
pub open spec fn calendar_has(year: int, month: int, day: int) -> bool {
    &&& 1 <= month <= 12
    &&& 1 <= day <= 31
    &&& month == 4 || month == 6 || month == 9 || month == 11 ==> day <= 30
    &&& month == 2 ==> day <= 29
    &&& month == 2 && day == 29 ==> year % 4 == 0 && (year % 100 != 0 || year % 400 == 0)
}

/// Every day of the calendar in a year of four digits is read and written out, with its month's
/// name, its two digits and the four digits of its year: alone, with a time of day, with `Z` behind
/// the time, and with an offset of whatever sign and size behind it.
pub proof fn law_dates_are_written_out(
    year: int,
    month: int,
    day: int,
    hour: int,
    minute: int,
    second: int,
    sign: char,
    hours: int,
    minutes: int,
    alone: &str,
    local: &str,
    utc: &str,
    zoned: &str,
    of_alone: Option<String>,
    of_local: Option<String>,
    of_utc: Option<String>,
    of_zoned: Option<String>,
)
    requires
        0 <= year < 10000,
        calendar_has(year, month, day),
        0 <= hour < 24,
        0 <= minute < 60,
        0 <= second < 60,
        sign == '+' || sign == '-',
        0 <= hours < 24,
        0 <= minutes < 60,
        alone@ == day_text(year, month, day),
        local@ == alone@ + seq!['T'] + clock_text(hour, minute, second),
        utc@ == local@ + seq!['Z'],
        zoned@ == local@ + (seq![sign] + two_digits(hours) + seq![':'] + two_digits(minutes)),
        call_ensures(to_standard_time, (alone,), of_alone),
        call_ensures(to_standard_time, (local,), of_local),
        call_ensures(to_standard_time, (utc,), of_utc),
        call_ensures(to_standard_time, (zoned,), of_zoned),
    ensures
        ({
            let text = month_name(month) + " "@ + two_digits(day) + ", "@ + four_digits(year);
            &&& of_alone is Some && of_alone->0@ == text
            &&& of_local is Some && of_local->0@ == text
            &&& of_utc is Some && of_utc->0@ == text
            &&& of_zoned is Some && of_zoned->0@ == text
        }),
{
    let date = CalendarDate { year: year as i32, month: month as u32, day: day as u32 };
    let time = clock_text(hour, minute, second);
    let offset = seq![sign] + two_digits(hours) + seq![':'] + two_digits(minutes);
    lemma_day_text(year, month, day);
    lemma_clock_text(hour, minute, second);
    lemma_offset_text(sign, hours, minutes);
    lemma_two_digits(day);
    lemma_four_digits(year);
    assert(is_day(alone@, date));
    law_time_and_offset_do_not_move_the_date(
        date,
        time,
        offset,
        alone,
        local,
        utc,
        zoned,
        of_alone,
        of_local,
        of_utc,
        of_zoned,
    );
}

/// The months have their names, and the form of a date asks for them.
pub proof fn law_months_have_their_names()
    ensures
        LONG_DATE@ == "%B %d, %Y"@,
        month_name(1) == "January"@,
        month_name(2) == "February"@,
        month_name(3) == "March"@,
        month_name(4) == "April"@,
        month_name(5) == "May"@,
        month_name(6) == "June"@,
        month_name(7) == "July"@,
        month_name(8) == "August"@,
        month_name(9) == "September"@,
        month_name(10) == "October"@,
        month_name(11) == "November"@,
        month_name(12) == "December"@,
{
}

/// A text that starts with a day in digits which the calendar lacks is no date, whatever follows;
/// one that starts with a day that it has is that day or none.
pub proof fn law_no_other_date_is_read(
    year: int,
    month: int,
    day: int,
    rest: Seq<char>,
    text: &str,
    r: Option<String>,
)
    requires
        0 <= year < 10000,
        0 <= month < 100,
        0 <= day < 100,
        text@ == day_text(year, month, day) + rest,
        call_ensures(to_standard_time, (text,), r),
    ensures
        !calendar_has(year, month, day) ==> r is None,
        r is Some ==> r->0@ == month_name(month) + " "@ + two_digits(day) + ", "@ + four_digits(year),
{
    let date = CalendarDate { year: year as i32, month: month as u32, day: day as u32 };
    lemma_day_text(year, month, day);
    assert(day_text(year, month, day).take(10) =~= text@.take(10));
    lemma_date_in_front(day_text(year, month, day), text@, date);
    lemma_two_digits(day);
    lemma_four_digits(year);
}

/// Of three readings the first that found a date counts, and the date is written out.
pub proof fn law_the_first_reading_counts(
    zoned: Option<CalendarDate>,
    local: Option<CalendarDate>,
    day: Option<CalendarDate>,
    r: Option<String>,
)
    requires
        call_ensures(standard_date, (zoned, local, day), r),
    ensures
        zoned is Some ==> r is Some && r->0@ == long_date(zoned->0),
        zoned is None && local is Some ==> r is Some && r->0@ == long_date(local->0),
        zoned is None && local is None && day is Some ==> r is Some && r->0@ == long_date(day->0),
        zoned is None && local is None && day is None ==> r is None,
{
}

/// A text is read as what RFC 3339 makes of it, with `+00:00` for each `Z`; else as a date and a
/// time of day without an offset; else as a day alone. What none of the three reads is no date.
pub proof fn law_the_three_readings_are_tried(
    text: &str,
    zero: &str,
    tried: String,
    r: Option<String>,
)
    requires
        zero@ == "+00:00"@,
        call_ensures(replace, (text, 'Z', zero), tried),
        call_ensures(to_standard_time, (text,), r),
    ensures
        ({
            let zoned = rfc3339_date(tried@);
            let local = naive_datetime_date(tried@, "%Y-%m-%dT%H:%M:%S"@);
            let day = naive_date(tried@, "%Y-%m-%d"@);
            &&& zoned is Some ==> r is Some && r->0@ == long_date(zoned->0)
            &&& zoned is None && local is Some ==> r is Some && r->0@ == long_date(local->0)
            &&& zoned is None && local is None && day is Some ==> r is Some && r->0@ == long_date(
                day->0,
            )
            &&& zoned is None && local is None && day is None ==> r is None
        }),
{
}

} // verus!
