//! The timestamp converter: parses the feed's `day/month/year hour:minute:second`
//! timestamp (two digits each but four for the year, interpreted as UTC) and
//! renders it in the fixed offset-aware form `year-month-dayThour:minute:second+00:00`.
//!
//! Parsing is exact: wrong separators, missing or extra characters, or
//! out-of-range components (including days beyond the month's length, with
//! leap years observed) are rejected.

use vstd::prelude::*;
use crate::numeric::exec_is_digit;
use crate::numeric::is_digit;
use crate::strutil::push_char;

verus! {

/// Parts of a calendar timestamp, to the second, understood as UTC.
#[derive(Debug)]
pub struct DateTime {
    pub year: u32,
    pub month: u32,
    pub day: u32,
    pub hour: u32,
    pub minute: u32,
    pub second: u32,
}

/// The feed timestamp did not match the expected pattern.
#[derive(Debug)]
pub struct TimestampParseError;

pub open spec fn digit_val(c: char) -> int {
    (c as u32) - ('0' as u32)
}

pub open spec fn two_digits(s: Seq<char>, i: int) -> int {
    digit_val(s[i]) * 10 + digit_val(s[i + 1])
}

pub open spec fn four_digits(s: Seq<char>, i: int) -> int {
    digit_val(s[i]) * 1000 + digit_val(s[i + 1]) * 100 + digit_val(s[i + 2]) * 10 + digit_val(
        s[i + 3],
    )
}

/// The exact input pattern: `dd/mm/yyyy hh:mm:ss`.
pub open spec fn timestamp_shape(s: Seq<char>) -> bool {
    s.len() == 19 && s[2] == '/' && s[5] == '/' && s[10] == ' ' && s[13] == ':' && s[16] == ':'
        && is_digit(s[0]) && is_digit(s[1]) && is_digit(s[3]) && is_digit(s[4]) && is_digit(s[6])
        && is_digit(s[7]) && is_digit(s[8]) && is_digit(s[9]) && is_digit(s[11]) && is_digit(s[12])
        && is_digit(s[14]) && is_digit(s[15]) && is_digit(s[17]) && is_digit(s[18])
}

pub open spec fn leap_year(y: int) -> bool {
    y % 4 == 0 && (y % 100 != 0 || y % 400 == 0)
}

pub open spec fn days_in_month(y: int, m: int) -> int {
    if m == 2 {
        if leap_year(y) {
            29
        } else {
            28
        }
    } else if m == 4 || m == 6 || m == 9 || m == 11 {
        30
    } else {
        31
    }
}

/// The components denote a real calendar date and time of day.
pub open spec fn dt_wf(dt: DateTime) -> bool {
    1 <= dt.month <= 12 && 1 <= dt.day <= days_in_month(dt.year as int, dt.month as int)
        && dt.year <= 9999 && dt.hour <= 23 && dt.minute <= 59 && dt.second <= 59
}

/// The components read off an input in the timestamp shape.
pub open spec fn parts_of(s: Seq<char>) -> DateTime {
    DateTime {
        year: four_digits(s, 6) as u32,
        month: two_digits(s, 3) as u32,
        day: two_digits(s, 0) as u32,
        hour: two_digits(s, 11) as u32,
        minute: two_digits(s, 14) as u32,
        second: two_digits(s, 17) as u32,
    }
}

/// An input converts exactly when it has the shape and its components are in
/// range.
pub open spec fn valid_timestamp(s: Seq<char>) -> bool {
    timestamp_shape(s) && dt_wf(parts_of(s))
}

#[verifier::opaque]
pub open spec fn digit_char(d: int) -> char {
    if d == 0 {
        '0'
    } else if d == 1 {
        '1'
    } else if d == 2 {
        '2'
    } else if d == 3 {
        '3'
    } else if d == 4 {
        '4'
    } else if d == 5 {
        '5'
    } else if d == 6 {
        '6'
    } else if d == 7 {
        '7'
    } else if d == 8 {
        '8'
    } else {
        '9'
    }
}

/// The rendered output: date, time, and the explicit UTC offset.
pub open spec fn render_spec(dt: DateTime) -> Seq<char> {
    seq![
        digit_char(dt.year as int / 1000 % 10),
        digit_char(dt.year as int / 100 % 10),
        digit_char(dt.year as int / 10 % 10),
        digit_char(dt.year as int % 10),
        '-',
        digit_char(dt.month as int / 10),
        digit_char(dt.month as int % 10),
        '-',
        digit_char(dt.day as int / 10),
        digit_char(dt.day as int % 10),
        'T',
        digit_char(dt.hour as int / 10),
        digit_char(dt.hour as int % 10),
        ':',
        digit_char(dt.minute as int / 10),
        digit_char(dt.minute as int % 10),
        ':',
        digit_char(dt.second as int / 10),
        digit_char(dt.second as int % 10),
        '+',
        '0',
        '0',
        ':',
        '0',
        '0',
    ]
}

/// The components read off a rendered output.
pub open spec fn rendered_parts(s: Seq<char>) -> DateTime {
    DateTime {
        year: four_digits(s, 0) as u32,
        month: two_digits(s, 5) as u32,
        day: two_digits(s, 8) as u32,
        hour: two_digits(s, 11) as u32,
        minute: two_digits(s, 14) as u32,
        second: two_digits(s, 17) as u32,
    }
}

proof fn lemma_recompose2(v: int)
    requires
        0 <= v <= 99,
    ensures
        (v / 10 % 10) * 10 + v % 10 == v,
{
    vstd::arithmetic::div_mod::lemma_fundamental_div_mod(v, 10);
    vstd::arithmetic::div_mod::lemma_div_pos_is_pos(v, 10);
    vstd::arithmetic::div_mod::lemma_div_is_ordered(v, 99, 10);
    vstd::arithmetic::div_mod::lemma_small_mod((v / 10) as nat, 10);
}

proof fn lemma_recompose3(v: int)
    requires
        0 <= v <= 999,
    ensures
        (v / 100 % 10) * 100 + (v / 10 % 10) * 10 + v % 10 == v,
{
    vstd::arithmetic::div_mod::lemma_fundamental_div_mod(v, 10);
    let z = v / 10;
    vstd::arithmetic::div_mod::lemma_div_pos_is_pos(v, 10);
    vstd::arithmetic::div_mod::lemma_div_is_ordered(v, 999, 10);
    lemma_recompose2(z);
    vstd::arithmetic::div_mod::lemma_div_denominator(v, 10, 10);
    assert(z / 10 == v / 100);
    assert(z % 10 == v / 10 % 10);
    assert(z / 10 % 10 == v / 100 % 10);
}

proof fn lemma_recompose4(v: int)
    requires
        0 <= v <= 9999,
    ensures
        (v / 1000 % 10) * 1000 + (v / 100 % 10) * 100 + (v / 10 % 10) * 10 + v % 10 == v,
{
    vstd::arithmetic::div_mod::lemma_fundamental_div_mod(v, 10);
    let z = v / 10;
    vstd::arithmetic::div_mod::lemma_div_pos_is_pos(v, 10);
    vstd::arithmetic::div_mod::lemma_div_is_ordered(v, 9999, 10);
    lemma_recompose3(z);
    vstd::arithmetic::div_mod::lemma_div_denominator(v, 10, 10);
    vstd::arithmetic::div_mod::lemma_div_denominator(v, 10, 100);
    assert(z / 10 == v / 100);
    assert(z / 100 == v / 1000);
}

/// Conversion preserves the instant: the rendered output carries the very
/// same components it was made from, and ends in the explicit UTC offset, so
/// reading the output back yields the instant the input denoted.
pub proof fn lemma_render_round_trip(dt: DateTime)
    requires
        dt_wf(dt),
    ensures
        render_spec(dt).len() == 25,
        rendered_parts(render_spec(dt)) == dt,
        render_spec(dt).subrange(19, 25) == "+00:00"@,
{
    let s = render_spec(dt);
    assert forall|d: int| 0 <= d <= 9 implies #[trigger] digit_val(digit_char(d)) == d by {
        reveal(digit_char);
    }
    broadcast use vstd::arithmetic::div_mod::lemma_mod_division_less_than_divisor;

    let y = dt.year as int;
    let mo = dt.month as int;
    let dy = dt.day as int;
    let h = dt.hour as int;
    let mi = dt.minute as int;
    let sec = dt.second as int;
    assert(four_digits(s, 0) == y) by {
        assert(s[0] == digit_char(y / 1000 % 10));
        assert(s[1] == digit_char(y / 100 % 10));
        assert(s[2] == digit_char(y / 10 % 10));
        assert(s[3] == digit_char(y % 10));
        lemma_recompose4(y);
    }
    assert(two_digits(s, 5) == mo) by {
        assert(s[5] == digit_char(mo / 10));
        assert(s[6] == digit_char(mo % 10));
        assert(0 <= mo / 10 <= 9);
        lemma_recompose2(mo);
        vstd::arithmetic::div_mod::lemma_small_mod((mo / 10) as nat, 10);
    }
    assert(two_digits(s, 8) == dy) by {
        assert(s[8] == digit_char(dy / 10));
        assert(s[9] == digit_char(dy % 10));
        assert(0 <= dy / 10 <= 9);
        lemma_recompose2(dy);
        vstd::arithmetic::div_mod::lemma_small_mod((dy / 10) as nat, 10);
    }
    assert(two_digits(s, 11) == h) by {
        assert(s[11] == digit_char(h / 10));
        assert(s[12] == digit_char(h % 10));
        assert(0 <= h / 10 <= 9);
        lemma_recompose2(h);
        vstd::arithmetic::div_mod::lemma_small_mod((h / 10) as nat, 10);
    }
    assert(two_digits(s, 14) == mi) by {
        assert(s[14] == digit_char(mi / 10));
        assert(s[15] == digit_char(mi % 10));
        assert(0 <= mi / 10 <= 9);
        lemma_recompose2(mi);
        vstd::arithmetic::div_mod::lemma_small_mod((mi / 10) as nat, 10);
    }
    assert(two_digits(s, 17) == sec) by {
        assert(s[17] == digit_char(sec / 10));
        assert(s[18] == digit_char(sec % 10));
        assert(0 <= sec / 10 <= 9);
        lemma_recompose2(sec);
        vstd::arithmetic::div_mod::lemma_small_mod((sec / 10) as nat, 10);
    }
    assert(rendered_parts(s) == dt);
    reveal_strlit("+00:00");
    assert(s.subrange(19, 25) =~= "+00:00"@);
}

fn exec_digit_val(c: char) -> (v: u32)
    requires
        is_digit(c),
    ensures
        v == digit_val(c),
        v <= 9,
{
    (c as u32) - ('0' as u32)
}

fn read_two(s: &str, i: usize) -> (v: u32)
    requires
        s@.len() <= usize::MAX,
        i + 1 < s@.len(),
        is_digit(s@[i as int]),
        is_digit(s@[i as int + 1]),
    ensures
        v == two_digits(s@, i as int),
        v <= 99,
{
    let a = exec_digit_val(s.get_char(i));
    let b = exec_digit_val(s.get_char(i + 1));
    a * 10 + b
}

fn read_four(s: &str, i: usize) -> (v: u32)
    requires
        s@.len() <= usize::MAX,
        i + 3 < s@.len(),
        is_digit(s@[i as int]),
        is_digit(s@[i as int + 1]),
        is_digit(s@[i as int + 2]),
        is_digit(s@[i as int + 3]),
    ensures
        v == four_digits(s@, i as int),
        v <= 9999,
{
    let a = exec_digit_val(s.get_char(i));
    let b = exec_digit_val(s.get_char(i + 1));
    let c = exec_digit_val(s.get_char(i + 2));
    let d = exec_digit_val(s.get_char(i + 3));
    a * 1000 + b * 100 + c * 10 + d
}

fn exec_days_in_month(y: u32, m: u32) -> (d: u32)
    requires
        1 <= m <= 12,
    ensures
        d == days_in_month(y as int, m as int),
{
    if m == 2 {
        if y % 4 == 0 && (y % 100 != 0 || y % 400 == 0) {
            29
        } else {
            28
        }
    } else if m == 4 || m == 6 || m == 9 || m == 11 {
        30
    } else {
        31
    }
}

fn push_digit(out: &mut String, d: u32)
    requires
        d <= 9,
    ensures
        final(out)@ == old(out)@.push(digit_char(d as int)),
{
    let c: char = ((48 + d as u8) as u8) as char;
    assert(c == digit_char(d as int)) by {
        reveal(digit_char);
    }
    push_char(out, c);
}

/// Convert the feed timestamp: parse the fixed input pattern, validate every
/// component, and render the fixed offset-aware output form.
pub fn parse_datetime(dt_str: &str) -> (r: Result<String, TimestampParseError>)
    ensures
        r is Ok <==> valid_timestamp(dt_str@),
        r matches Ok(out) ==> out@ == render_spec(parts_of(dt_str@)),
{
    let len = dt_str.unicode_len();
    if len != 19 {
        return Err(TimestampParseError);
    }
    if dt_str.get_char(2) != '/' || dt_str.get_char(5) != '/' || dt_str.get_char(10) != ' '
        || dt_str.get_char(13) != ':' || dt_str.get_char(16) != ':' {
        return Err(TimestampParseError);
    }
    let mut i: usize = 0;
    while i < 19
        invariant
            len == dt_str@.len(),
            len == 19,
            0 <= i <= 19,
            forall|j: int|
                0 <= j < i && j != 2 && j != 5 && j != 10 && j != 13 && j != 16 ==> is_digit(
                    #[trigger] dt_str@[j],
                ),
        decreases 19 - i,
    {
        if i != 2 && i != 5 && i != 10 && i != 13 && i != 16 {
            if !exec_is_digit(dt_str.get_char(i)) {
                return Err(TimestampParseError);
            }
        }
        i = i + 1;
    }
    let day = read_two(dt_str, 0);
    let month = read_two(dt_str, 3);
    let year = read_four(dt_str, 6);
    let hour = read_two(dt_str, 11);
    let minute = read_two(dt_str, 14);
    let second = read_two(dt_str, 17);
    if month < 1 || month > 12 {
        return Err(TimestampParseError);
    }
    if day < 1 || day > exec_days_in_month(year, month) {
        return Err(TimestampParseError);
    }
    if hour > 23 || minute > 59 || second > 59 {
        return Err(TimestampParseError);
    }
    let dt = DateTime { year, month, day, hour, minute, second };
    assert(dt == parts_of(dt_str@));
    Ok(render_datetime(&dt))
}

/// Render well-formed components in the fixed output form.
fn render_datetime(dt: &DateTime) -> (out: String)
    requires
        dt_wf(*dt),
    ensures
        out@ == render_spec(*dt),
{
    let mut out = String::new();
    push_digit(&mut out, dt.year / 1000 % 10);
    push_digit(&mut out, dt.year / 100 % 10);
    push_digit(&mut out, dt.year / 10 % 10);
    push_digit(&mut out, dt.year % 10);
    push_char(&mut out, '-');
    push_digit(&mut out, dt.month / 10);
    push_digit(&mut out, dt.month % 10);
    push_char(&mut out, '-');
    push_digit(&mut out, dt.day / 10);
    push_digit(&mut out, dt.day % 10);
    push_char(&mut out, 'T');
    push_digit(&mut out, dt.hour / 10);
    push_digit(&mut out, dt.hour % 10);
    push_char(&mut out, ':');
    push_digit(&mut out, dt.minute / 10);
    push_digit(&mut out, dt.minute % 10);
    push_char(&mut out, ':');
    push_digit(&mut out, dt.second / 10);
    push_digit(&mut out, dt.second % 10);
    push_char(&mut out, '+');
    push_char(&mut out, '0');
    push_char(&mut out, '0');
    push_char(&mut out, ':');
    push_char(&mut out, '0');
    push_char(&mut out, '0');
    proof {
        assert(out@ =~= render_spec(*dt));
    }
    out
}

} // verus!
