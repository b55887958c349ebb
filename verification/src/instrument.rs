//! Naming of instrumentation runs: a timestamp label and a sanitized run name.

use vstd::prelude::*;

verus! {

/// Appends `c` to `s` with `String::push`, which std documents as appending
/// the given char to the end of the string.
#[verifier::external_body]
fn push_char(s: &mut String, c: char)
    ensures
        final(s)@ == old(s)@.push(c),
{
    s.push(c);
}

// === CALENDAR ===

pub open spec fn is_leap_year(year: int) -> bool {
    year % 4 == 0 && (year % 100 != 0 || year % 400 == 0)
}

pub open spec fn year_length(year: int) -> int {
    if is_leap_year(year) {
        366
    } else {
        365
    }
}

/// The year that holds day `days` counted from the first day of `year`,
/// and the day's offset in that year.
pub open spec fn civil_year(days: int, year: int) -> (int, int)
    decreases days,
{
    if days < year_length(year) || days < 0 {
        (year, days)
    } else {
        civil_year(days - year_length(year), year + 1)
    }
}

/// Length of month `m` (0 = January) in a leap or common year.
pub open spec fn month_length(m: int, leap: bool) -> int {
    if m == 1 {
        if leap {
            29
        } else {
            28
        }
    } else if m == 3 || m == 5 || m == 8 || m == 10 {
        30
    } else {
        31
    }
}

/// The month (0 = January) that holds day `d` of the year counted from month
/// `m`, and the day's offset in that month.
pub open spec fn civil_month(d: int, m: int, leap: bool) -> (int, int)
    decreases 12 - m,
{
    if m >= 11 || d < month_length(m, leap) {
        (m, d)
    } else {
        civil_month(d - month_length(m, leap), m + 1, leap)
    }
}

pub open spec fn month_abbrev(m: int) -> Seq<char> {
    if m == 0 { seq!['J', 'a', 'n'] }
    else if m == 1 { seq!['F', 'e', 'b'] }
    else if m == 2 { seq!['M', 'a', 'r'] }
    else if m == 3 { seq!['A', 'p', 'r'] }
    else if m == 4 { seq!['M', 'a', 'y'] }
    else if m == 5 { seq!['J', 'u', 'n'] }
    else if m == 6 { seq!['J', 'u', 'l'] }
    else if m == 7 { seq!['A', 'u', 'g'] }
    else if m == 8 { seq!['S', 'e', 'p'] }
    else if m == 9 { seq!['O', 'c', 't'] }
    else if m == 10 { seq!['N', 'o', 'v'] }
    else { seq!['D', 'e', 'c'] }
}

pub open spec fn digit(d: int) -> char {
    ('0' as int + d) as char
}

/// A number below 100 written with two decimal digits.
pub open spec fn two_digits(n: int) -> Seq<char> {
    seq![digit(n / 10), digit(n % 10)]
}

/// `Mon DD _ HH _ MM` (such as `Feb06_20_13`) for a UTC time `secs` seconds
/// after the Unix epoch.
pub open spec fn timestamp_text(secs: int) -> Seq<char> {
    let secs_today = secs % 86400;
    let (year, day_of_year) = civil_year(secs as int / 86400, 1970);
    let (month, day_of_month) = civil_month(day_of_year, 0, is_leap_year(year));
    month_abbrev(month) + two_digits(day_of_month + 1) + seq!['_'] + two_digits(secs_today / 3600)
        + seq!['_'] + two_digits((secs_today % 3600) / 60)
}

fn push_two_digits(s: &mut String, n: u64)
    requires
        n < 100,
    ensures
        final(s)@ == old(s)@ + two_digits(n as int),
{
    let tens = (n / 10) as u8;
    let ones = (n % 10) as u8;
    let t = (48u8 + tens) as char;
    let o = (48u8 + ones) as char;
    push_char(s, t);
    push_char(s, o);
    assert(final(s)@ =~= old(s)@ + two_digits(n as int));
}

fn push_month_abbrev(s: &mut String, month: u64)
    requires
        month < 12,
    ensures
        final(s)@ == old(s)@ + month_abbrev(month as int),
{
    let (a, b, c) = if month == 0 { ('J', 'a', 'n') }
        else if month == 1 { ('F', 'e', 'b') }
        else if month == 2 { ('M', 'a', 'r') }
        else if month == 3 { ('A', 'p', 'r') }
        else if month == 4 { ('M', 'a', 'y') }
        else if month == 5 { ('J', 'u', 'n') }
        else if month == 6 { ('J', 'u', 'l') }
        else if month == 7 { ('A', 'u', 'g') }
        else if month == 8 { ('S', 'e', 'p') }
        else if month == 9 { ('O', 'c', 't') }
        else if month == 10 { ('N', 'o', 'v') }
        else { ('D', 'e', 'c') };
    push_char(s, a);
    push_char(s, b);
    push_char(s, c);
    assert(final(s)@ =~= old(s)@ + month_abbrev(month as int));
}

fn leap(year: u64) -> (r: bool)
    ensures
        r == is_leap_year(year as int),
{
    year % 4 == 0 && (year % 100 != 0 || year % 400 == 0)
}

/// Format a time given in seconds since the Unix epoch (UTC) as `Feb06_20_13`
/// (Mon DD _ HH _ MM) for human-readable run directory names.
pub fn timestamp_label(secs: u64) -> (label: String)
    ensures
        label@ == timestamp_text(secs as int),
{
    let secs_per_day = 86400u64;
    let secs_today = secs % secs_per_day;
    let hour = secs_today / 3600;
    let minute = (secs_today % 3600) / 60;

    let mut days = secs / secs_per_day;
    let mut year = 1970u64;
    loop
        invariant
            year <= 1970 + secs / secs_per_day - days,
            days <= secs / secs_per_day,
            secs_per_day == 86400,
            civil_year(days as int, year as int) == civil_year(secs as int / 86400, 1970),
        ensures
            days < year_length(year as int),
            civil_year(days as int, year as int) == civil_year(secs as int / 86400, 1970),
        decreases days,
    {
        let days_in_year: u64 = if leap(year) { 366 } else { 365 };
        if days < days_in_year {
            break;
        }
        days = days - days_in_year;
        year = year + 1;
    }
    let is_leap = leap(year);
    let ghost year_day = days as int;
    assert(month_before(11, is_leap) == year_length(year as int) - 31) by {
        reveal_with_fuel(month_before, 12);
    }
    let mut month: u64 = 0;
    loop
        invariant
            month <= 11,
            civil_month(days as int, month as int, is_leap) == civil_month(year_day, 0, is_leap),
            days < year_length(year as int) - (month_before(month as int, is_leap)),
            is_leap == is_leap_year(year as int),
            month_before(11, is_leap) == year_length(year as int) - 31,
        ensures
            month <= 11,
            days < month_length(month as int, is_leap),
            civil_month(days as int, month as int, is_leap) == civil_month(year_day, 0, is_leap),
        decreases 12 - month,
    {
        let md: u64 = if month == 1 {
            if is_leap { 29 } else { 28 }
        } else if month == 3 || month == 5 || month == 8 || month == 10 {
            30
        } else {
            31
        };
        if days < md {
            break;
        }
        assert(month < 11) by {
            if month == 11 {
                assert(days < year_length(year as int) - month_before(11, is_leap));
            }
        }
        days = days - md;
        month = month + 1;
    }
    let day = days + 1;
    let mut label = String::new();
    push_month_abbrev(&mut label, month);
    push_two_digits(&mut label, day);
    push_char(&mut label, '_');
    push_two_digits(&mut label, hour);
    push_char(&mut label, '_');
    push_two_digits(&mut label, minute);
    label
}

/// Days of the year that come before month `m` (0 = January).
pub open spec fn month_before(m: int, leap: bool) -> int
    decreases m,
{
    if m <= 0 {
        0
    } else {
        month_before(m - 1, leap) + month_length(m - 1, leap)
    }
}

// === RUN NAMES ===

pub open spec fn is_ascii_alnum(c: char) -> bool {
    ('0' <= c && c <= '9') || ('a' <= c && c <= 'z') || ('A' <= c && c <= 'Z')
}

pub open spec fn sanitized_char(c: char) -> char {
    if is_ascii_alnum(c) {
        c
    } else {
        '_'
    }
}

/// `name` with every character that is not an ASCII letter or digit replaced
/// by `_`, cut to its first 60 characters.
pub open spec fn sanitized(name: Seq<char>) -> Seq<char> {
    let s = name.map_values(|c: char| sanitized_char(c));
    if s.len() > 60 {
        s.take(60)
    } else {
        s
    }
}

/// Replace non-alphanumeric chars with `_` and truncate for use in directory names.
pub fn sanitize(name: &str) -> (r: String)
    ensures
        r@ == sanitized(name@),
{
    let mut s = String::new();
    let mut count: usize = 0;
    let ghost mapped = name@.map_values(|c: char| sanitized_char(c));
    for c in it: name.chars()
        invariant
            it.seq() == name@,
            mapped == name@.map_values(|c: char| sanitized_char(c)),
            count as int == if it.index() <= 60 { it.index() as int } else { 60 },
            s@ == mapped.take(count as int),
    {
        if count < 60 {
            let out = if ('0' <= c && c <= '9') || ('a' <= c && c <= 'z') || ('A' <= c && c <= 'Z') {
                c
            } else {
                '_'
            };
            push_char(&mut s, out);
            count = count + 1;
            assert(s@ =~= mapped.take(count as int));
        }
    }
    assert(mapped.take(mapped.len() as int) =~= mapped);
    s
}

/// The label names a real calendar day and time: the month is one of the
/// twelve, the day lies within that month's length, hour and minute are on
/// the clock, and the label is eleven characters long.
pub proof fn lemma_timestamp_well_formed(secs: nat)
    ensures
        ({
            let (year, day_of_year) = civil_year(secs as int / 86400, 1970);
            let (month, day) = civil_month(day_of_year, 0, is_leap_year(year));
            &&& 0 <= month < 12
            &&& 0 <= day < month_length(month, is_leap_year(year))
            &&& 0 <= (secs % 86400) / 3600 < 24
            &&& 0 <= ((secs % 86400) % 3600) / 60 < 60
            &&& timestamp_text(secs as int).len() == 11
        }),
{
    lemma_civil_year_bounds(secs as int / 86400, 1970);
    let (year, day_of_year) = civil_year(secs as int / 86400, 1970);
    let leap = is_leap_year(year);
    assert(month_before(12, leap) == year_length(year)) by {
        reveal_with_fuel(month_before, 13);
    }
    lemma_civil_month_bounds(day_of_year, 0, leap);
}

proof fn lemma_civil_year_bounds(days: int, year: int)
    requires
        days >= 0,
    ensures
        0 <= civil_year(days, year).1 < year_length(civil_year(days, year).0),
    decreases days,
{
    if days >= year_length(year) {
        lemma_civil_year_bounds(days - year_length(year), year + 1);
    }
}

proof fn lemma_civil_month_bounds(d: int, m: int, leap: bool)
    requires
        0 <= m <= 11,
        0 <= d < month_before(12, leap) - month_before(m, leap),
    ensures
        m <= civil_month(d, m, leap).0 <= 11,
        0 <= civil_month(d, m, leap).1 < month_length(civil_month(d, m, leap).0, leap),
    decreases 12 - m,
{
    if m < 11 && d >= month_length(m, leap) {
        lemma_civil_month_bounds(d - month_length(m, leap), m + 1, leap);
    } else if m == 11 {
        assert(month_before(12, leap) == month_before(11, leap) + month_length(11, leap));
    }
}

proof fn lemma_month_before_mono(a: int, b: int, leap: bool)
    requires
        0 <= a <= b,
    ensures
        month_before(a, leap) <= month_before(b, leap),
    decreases b,
{
    if a < b {
        lemma_month_before_mono(a, b - 1, leap);
    }
}

/// Walking from month `m` by offset `d` lands in month `k` when the offset
/// falls within `k`'s days.
proof fn lemma_civil_month_at(d: int, m: int, k: int, leap: bool)
    requires
        0 <= m <= k <= 11,
        month_before(k, leap) - month_before(m, leap) <= d,
        k < 11 ==> d < month_before(k + 1, leap) - month_before(m, leap),
    ensures
        civil_month(d, m, leap) == (k, d - (month_before(k, leap) - month_before(m, leap))),
    decreases 12 - m,
{
    if m < k {
        lemma_month_before_mono(m + 1, k, leap);
        assert(month_before(m + 1, leap) == month_before(m, leap) + month_length(m, leap));
        lemma_civil_month_at(d - month_length(m, leap), m + 1, k, leap);
    } else if m < 11 {
        assert(month_before(m + 1, leap) == month_before(m, leap) + month_length(m, leap));
    }
}

proof fn lemma_label_parts(secs: int, m: int, dom: int)
    requires
        secs >= 0,
        ({
            let (year, day_of_year) = civil_year(secs / 86400, 1970);
            civil_month(day_of_year, 0, is_leap_year(year)) == (m, dom)
        }),
    ensures
        timestamp_text(secs).take(3) == month_abbrev(m),
        timestamp_text(secs).subrange(3, 5) == two_digits(dom + 1),
{
    let t = timestamp_text(secs);
    assert(month_abbrev(m).len() == 3);
    assert(t.take(3) =~= month_abbrev(m));
    assert(t.subrange(3, 5) =~= two_digits(dom + 1));
}

/// The month and day of a label follow the Gregorian calendar: in a year of
/// `l` extra days (1 in leap years, else 0), day-of-year `d` (from 0) falls
/// in January for `d < 31`, February for `d < 59 + l`, March for
/// `d < 90 + l`, April `< 120 + l`, May `< 151 + l`, June `< 181 + l`,
/// July `< 212 + l`, August `< 243 + l`, September `< 273 + l`, October
/// `< 304 + l`, November `< 334 + l`, and December after that; the label
/// opens with that month's English abbreviation and the day counted from
/// the month's first day, from 1.
pub proof fn lemma_label_follows_calendar(secs: nat)
    ensures
        ({
            let t = timestamp_text(secs as int);
            let (year, d) = civil_year(secs as int / 86400, 1970);
            let l: int = if is_leap_year(year) { 1 } else { 0 };
            &&& 0 <= d < 31 ==> t.take(3) == seq!['J', 'a', 'n'] && t.subrange(3, 5) == two_digits(d + 1)
            &&& 31 <= d < 59 + l ==> t.take(3) == seq!['F', 'e', 'b'] && t.subrange(3, 5) == two_digits(d - 31 + 1)
            &&& 59 + l <= d < 90 + l ==> t.take(3) == seq!['M', 'a', 'r'] && t.subrange(3, 5) == two_digits(d - (59 + l) + 1)
            &&& 90 + l <= d < 120 + l ==> t.take(3) == seq!['A', 'p', 'r'] && t.subrange(3, 5) == two_digits(d - (90 + l) + 1)
            &&& 120 + l <= d < 151 + l ==> t.take(3) == seq!['M', 'a', 'y'] && t.subrange(3, 5) == two_digits(d - (120 + l) + 1)
            &&& 151 + l <= d < 181 + l ==> t.take(3) == seq!['J', 'u', 'n'] && t.subrange(3, 5) == two_digits(d - (151 + l) + 1)
            &&& 181 + l <= d < 212 + l ==> t.take(3) == seq!['J', 'u', 'l'] && t.subrange(3, 5) == two_digits(d - (181 + l) + 1)
            &&& 212 + l <= d < 243 + l ==> t.take(3) == seq!['A', 'u', 'g'] && t.subrange(3, 5) == two_digits(d - (212 + l) + 1)
            &&& 243 + l <= d < 273 + l ==> t.take(3) == seq!['S', 'e', 'p'] && t.subrange(3, 5) == two_digits(d - (243 + l) + 1)
            &&& 273 + l <= d < 304 + l ==> t.take(3) == seq!['O', 'c', 't'] && t.subrange(3, 5) == two_digits(d - (273 + l) + 1)
            &&& 304 + l <= d < 334 + l ==> t.take(3) == seq!['N', 'o', 'v'] && t.subrange(3, 5) == two_digits(d - (304 + l) + 1)
            &&& 334 + l <= d ==> t.take(3) == seq!['D', 'e', 'c'] && t.subrange(3, 5) == two_digits(d - (334 + l) + 1)
        }),
{
    lemma_civil_year_bounds(secs as int / 86400, 1970);
    let (year, d) = civil_year(secs as int / 86400, 1970);
    let leap = is_leap_year(year);
    reveal_with_fuel(month_before, 13);
    let l: int = if leap { 1 } else { 0 };
    assert(month_before(1, leap) == 31);
    assert(month_before(2, leap) == 59 + l);
    assert(month_before(3, leap) == 90 + l);
    assert(month_before(4, leap) == 120 + l);
    assert(month_before(5, leap) == 151 + l);
    assert(month_before(6, leap) == 181 + l);
    assert(month_before(7, leap) == 212 + l);
    assert(month_before(8, leap) == 243 + l);
    assert(month_before(9, leap) == 273 + l);
    assert(month_before(10, leap) == 304 + l);
    assert(month_before(11, leap) == 334 + l);
    assert(month_before(12, leap) == 365 + l);
    let k: int = if d < 31 { 0 } else if d < 59 + l { 1 } else if d < 90 + l { 2 }
        else if d < 120 + l { 3 } else if d < 151 + l { 4 } else if d < 181 + l { 5 }
        else if d < 212 + l { 6 } else if d < 243 + l { 7 } else if d < 273 + l { 8 }
        else if d < 304 + l { 9 } else if d < 334 + l { 10 } else { 11 };
    lemma_civil_month_at(d, 0, k, leap);
    lemma_label_parts(secs as int, k, d - month_before(k, leap));
}

/// Sanitizing keeps ASCII letters and digits where they stand, turns every
/// other character into `_`, and keeps the first 60 characters of the name.
pub proof fn lemma_sanitize_keeps_alphanumerics(name: Seq<char>)
    ensures
        sanitized(name).len() == if name.len() <= 60 { name.len() as int } else { 60 },
        forall|i: int| 0 <= i < sanitized(name).len() ==> {
            let c = name[i];
            &&& (('0' <= c && c <= '9') || ('a' <= c && c <= 'z') || ('A' <= c && c <= 'Z'))
                ==> #[trigger] sanitized(name)[i] == c
            &&& !(('0' <= c && c <= '9') || ('a' <= c && c <= 'z') || ('A' <= c && c <= 'Z'))
                ==> sanitized(name)[i] == '_'
        },
{
}

/// Sanitizing a sanitized name changes nothing, and a sanitized name holds
/// only ASCII letters, digits and `_`, at most 60 of them.
pub proof fn lemma_sanitize_idempotent(name: Seq<char>)
    ensures
        sanitized(sanitized(name)) == sanitized(name),
        sanitized(name).len() <= 60,
        forall|i: int| 0 <= i < sanitized(name).len() ==>
            is_ascii_alnum(#[trigger] sanitized(name)[i]) || sanitized(name)[i] == '_',
{
    let once = sanitized(name);
    let twice = sanitized(once);
    assert(twice =~= once);
}

} // verus!
