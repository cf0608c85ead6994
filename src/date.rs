//! Calendar dates written `DD-Mon-YYYY` (for example `25-Jan-2024`), read as
//! day numbers counted from 1970-01-01.
use vstd::prelude::*;

verus! {

pub open spec fn is_digit(c: char) -> bool {
    '0' <= c && c <= '9'
}

pub open spec fn digit_value(c: char) -> int {
    c as int - '0' as int
}

/// `c` is the lower-case ASCII letter `l` or its upper-case form.
pub open spec fn letter_is(c: char, l: char) -> bool {
    c == l || c as int + 32 == l as int
}

/// The number (1 to 12) of the month whose English abbreviation is `a b c`,
/// in any letter case; 0 where there is none.
pub open spec fn month_number(a: char, b: char, c: char) -> int {
    if letter_is(a, 'j') && letter_is(b, 'a') && letter_is(c, 'n') { 1 }
    else if letter_is(a, 'f') && letter_is(b, 'e') && letter_is(c, 'b') { 2 }
    else if letter_is(a, 'm') && letter_is(b, 'a') && letter_is(c, 'r') { 3 }
    else if letter_is(a, 'a') && letter_is(b, 'p') && letter_is(c, 'r') { 4 }
    else if letter_is(a, 'm') && letter_is(b, 'a') && letter_is(c, 'y') { 5 }
    else if letter_is(a, 'j') && letter_is(b, 'u') && letter_is(c, 'n') { 6 }
    else if letter_is(a, 'j') && letter_is(b, 'u') && letter_is(c, 'l') { 7 }
    else if letter_is(a, 'a') && letter_is(b, 'u') && letter_is(c, 'g') { 8 }
    else if letter_is(a, 's') && letter_is(b, 'e') && letter_is(c, 'p') { 9 }
    else if letter_is(a, 'o') && letter_is(b, 'c') && letter_is(c, 't') { 10 }
    else if letter_is(a, 'n') && letter_is(b, 'o') && letter_is(c, 'v') { 11 }
    else if letter_is(a, 'd') && letter_is(b, 'e') && letter_is(c, 'c') { 12 }
    else { 0 }
}

pub open spec fn is_leap_year(y: int) -> bool {
    (y % 4 == 0 && y % 100 != 0) || y % 400 == 0
}

pub open spec fn days_in_month(y: int, m: int) -> int {
    if m == 2 {
        if is_leap_year(y) { 29 } else { 28 }
    } else if m == 4 || m == 6 || m == 9 || m == 11 {
        30
    } else {
        31
    }
}

/// The day number of year `y`, month `m`, day `d` of the proleptic Gregorian
/// calendar, with 1970-01-01 as day 0. Years are counted from March, so that
/// the leap day ends a year; 400 years are added so that every quotient is
/// taken of a non-negative number, and their 146097 days taken off again.
pub open spec fn civil_day(y: int, m: int, d: int) -> int {
    let yy = (if m <= 2 { y - 1 } else { y }) + 400;
    let mp = if m > 2 { m - 3 } else { m + 9 };
    365 * yy + yy / 4 - yy / 100 + yy / 400 + (153 * mp + 2) / 5 + d - 1 - 719468 - 146097
}

/// Year, month and day written in `s` as `D-Mon-YYYY` or `DD-Mon-YYYY`,
/// where the day exists in that month.
pub open spec fn date_parts(s: Seq<char>) -> Option<(int, int, int)> {
    if s.len() == 10 || s.len() == 11 {
        let n = s.len() - 9;
        let day = if n == 1 {
            digit_value(s[0])
        } else {
            10 * digit_value(s[0]) + digit_value(s[1])
        };
        let m = month_number(s[n + 1], s[n + 2], s[n + 3]);
        let y = 1000 * digit_value(s[n + 5]) + 100 * digit_value(s[n + 6]) + 10 * digit_value(
            s[n + 7],
        ) + digit_value(s[n + 8]);
        if (forall|i: int| 0 <= i < n ==> is_digit(#[trigger] s[i])) && s[n] == '-' && s[n + 4]
            == '-' && (forall|i: int| n + 5 <= i < n + 9 ==> is_digit(#[trigger] s[i])) && 1 <= m
            && 1 <= day && day <= days_in_month(y, m) {
            Some((y, m, day))
        } else {
            None
        }
    } else {
        None
    }
}

/// The day number of the date written in `s`, if it is one.
pub open spec fn date_value(s: Seq<char>) -> Option<int> {
    match date_parts(s) {
        Some((y, m, d)) => Some(civil_day(y, m, d)),
        None => None,
    }
}

fn digit_at(s: &str, i: usize) -> (r: Option<i64>)
    requires
        i < s@.len(),
    ensures
        r is Some <==> is_digit(s@[i as int]),
        r matches Some(v) ==> v == digit_value(s@[i as int]) && 0 <= v <= 9,
{
    let c = s.get_char(i);
    if '0' <= c && c <= '9' {
        Some((c as u32 - '0' as u32) as i64)
    } else {
        None
    }
}

fn letter_matches(c: char, l: char) -> (r: bool)
    ensures
        r == letter_is(c, l),
{
    c == l || (c as u32) + 32 == l as u32
}

fn month_of(a: char, b: char, c: char) -> (r: i64)
    ensures
        r == month_number(a, b, c),
{
    if letter_matches(a, 'j') && letter_matches(b, 'a') && letter_matches(c, 'n') { 1 }
    else if letter_matches(a, 'f') && letter_matches(b, 'e') && letter_matches(c, 'b') { 2 }
    else if letter_matches(a, 'm') && letter_matches(b, 'a') && letter_matches(c, 'r') { 3 }
    else if letter_matches(a, 'a') && letter_matches(b, 'p') && letter_matches(c, 'r') { 4 }
    else if letter_matches(a, 'm') && letter_matches(b, 'a') && letter_matches(c, 'y') { 5 }
    else if letter_matches(a, 'j') && letter_matches(b, 'u') && letter_matches(c, 'n') { 6 }
    else if letter_matches(a, 'j') && letter_matches(b, 'u') && letter_matches(c, 'l') { 7 }
    else if letter_matches(a, 'a') && letter_matches(b, 'u') && letter_matches(c, 'g') { 8 }
    else if letter_matches(a, 's') && letter_matches(b, 'e') && letter_matches(c, 'p') { 9 }
    else if letter_matches(a, 'o') && letter_matches(b, 'c') && letter_matches(c, 't') { 10 }
    else if letter_matches(a, 'n') && letter_matches(b, 'o') && letter_matches(c, 'v') { 11 }
    else if letter_matches(a, 'd') && letter_matches(b, 'e') && letter_matches(c, 'c') { 12 }
    else { 0 }
}

/// Number of days in month `m` (1 to 12) of year `y`.
pub fn month_length(y: i64, m: i64) -> (r: i64)
    requires
        1 <= m <= 12,
    ensures
        r == days_in_month(y as int, m as int),
{
    if m == 2 {
        if (y % 4 == 0 && y % 100 != 0) || y % 400 == 0 {
            29
        } else {
            28
        }
    } else if m == 4 || m == 6 || m == 9 || m == 11 {
        30
    } else {
        31
    }
}

/// Day number of a date of the years 0 to 9999.
pub fn day_number(y: i64, m: i64, d: i64) -> (r: i64)
    requires
        0 <= y <= 9999,
        1 <= m <= 12,
        1 <= d <= 31,
    ensures
        r == civil_day(y as int, m as int, d as int),
{
    let yy: i64 = if m <= 2 { y - 1 } else { y } + 400;
    let mp: i64 = if m > 2 { m - 3 } else { m + 9 };
    365 * yy + yy / 4 - yy / 100 + yy / 400 + (153 * mp + 2) / 5 + d - 1 - 719468 - 146097
}

/// Reads a date written `DD-Mon-YYYY` (one or two day digits, the month's
/// three-letter English abbreviation in any letter case, four year digits)
/// as its day number; `None` where the text is no such date.
pub fn parse_date(s: &str) -> (r: Option<i64>)
    ensures
        r is Some <==> date_value(s@) is Some,
        r matches Some(v) ==> v == date_value(s@).unwrap() && -1000000 <= v <= 3000000,
{
    let len = s.unicode_len();
    if len != 10 && len != 11 {
        return None;
    }
    let n: usize = len - 9;
    let d0 = digit_at(s, 0);
    let day: i64 = match d0 {
        None => { return None; },
        Some(v) => if n == 1 {
            v
        } else {
            match digit_at(s, 1) {
                None => { return None; },
                Some(w) => 10 * v + w,
            }
        },
    };
    if s.get_char(n) != '-' || s.get_char(n + 4) != '-' {
        return None;
    }
    let m = month_of(s.get_char(n + 1), s.get_char(n + 2), s.get_char(n + 3));
    if m == 0 {
        return None;
    }
    let y0 = digit_at(s, n + 5);
    let y1 = digit_at(s, n + 6);
    let y2 = digit_at(s, n + 7);
    let y3 = digit_at(s, n + 8);
    match (y0, y1, y2, y3) {
        (Some(a), Some(b), Some(c), Some(e)) => {
            let y: i64 = 1000 * a + 100 * b + 10 * c + e;
            if day < 1 || day > month_length(y, m) {
                return None;
            }
            assert(forall|i: int| 0 <= i < n ==> is_digit(#[trigger] s@[i]));
            assert(forall|i: int| n + 5 <= i < n + 9 ==> is_digit(#[trigger] s@[i]));
            Some(day_number(y, m, day))
        },
        _ => None,
    }
}

/// Day numbers count calendar days: the day after any date of the years 0
/// to 9999 has the next day number, within a month, across the end of a
/// month, and across the end of a year. So the difference of two day numbers
/// is the number of calendar days between the two dates.
pub proof fn lemma_next_day(y: int, m: int, d: int)
    requires
        0 <= y <= 9999,
        1 <= m <= 12,
        1 <= d <= days_in_month(y, m),
    ensures
        d < days_in_month(y, m) ==> civil_day(y, m, d + 1) == civil_day(y, m, d) + 1,
        d == days_in_month(y, m) && m < 12 ==> civil_day(y, m + 1, 1) == civil_day(y, m, d) + 1,
        d == days_in_month(y, m) && m == 12 ==> civil_day(y + 1, 1, 1) == civil_day(y, m, d) + 1,
{
    if m == 2 && d == days_in_month(y, m) {
        let a = y - 1 + 400;
        let b = y + 400;
        assert(b / 4 - a / 4 == (if b % 4 == 0 { 1int } else { 0 }));
        assert(b / 100 - a / 100 == (if b % 100 == 0 { 1int } else { 0 }));
        assert(b / 400 - a / 400 == (if b % 400 == 0 { 1int } else { 0 }));
        assert(b % 4 == y % 4 && b % 100 == y % 100 && b % 400 == y % 400);
    }
}

} // verus!
