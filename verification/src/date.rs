//! Jalali (Persian) and Gregorian calendar conversions on text dates
//! (`YYYY-MM-DD` for Gregorian, `YYYY/MM/DD` for Jalali).

use vstd::prelude::*;

use crate::models::{div_trunc, valid_date, Date};
use crate::text::{
    chars_of, parse_int_range, parse_signed, push_char, push_zero_padded, split_at_char,
    split_chars, zero_padded,
};

verus! {

pub open spec fn in_i32(v: int) -> bool {
    i32::MIN <= v <= i32::MAX
}

/// Rust's `%` on integers: the remainder of the division rounded toward zero.
pub open spec fn rem_trunc(a: int, b: int) -> int {
    a - b * div_trunc(a, b)
}

// ---------------------------------------------------------------------
// Jalali leap years and month lengths
// ---------------------------------------------------------------------

/// The 2820-year arithmetic rule for Jalali leap years.
pub open spec fn jalali_leap(year: int) -> bool {
    let base = if year > 474 { 473int } else { 474int };
    rem_trunc((rem_trunc(year - base, 2820) + 474 + 38) * 682, 2816) < 682
}

pub open spec fn jalali_month_days(year: int, month: int) -> int {
    if month <= 6 {
        31
    } else if month <= 11 {
        30
    } else if jalali_leap(year) {
        30
    } else {
        29
    }
}

/// `year - base` cannot overflow in the leap-year rule.
pub open spec fn jalali_leap_fits(year: int) -> bool {
    year > 474 || in_i32(year - 474)
}

fn is_jalali_leap(year: i32) -> (r: bool)
    requires
        jalali_leap_fits(year as int),
    ensures
        r == jalali_leap(year as int),
{
    let base = if year > 474 {
        473
    } else {
        474
    };
    ((((year - base) % 2820 + 474 + 38) * 682) % 2816) < 682
}

/// Days in a Jalali month: 31 in the first six, 30 in the next five, and 29
/// or 30 in the last depending on the leap rule.
pub fn jalali_days_in_month(year: i32, month: i32) -> (r: i32)
    requires
        month > 11 ==> jalali_leap_fits(year as int),
    ensures
        r == jalali_month_days(year as int, month as int),
{
    if month <= 6 {
        31
    } else if month <= 11 {
        30
    } else if is_jalali_leap(year) {
        30
    } else {
        29
    }
}

// ---------------------------------------------------------------------
// Jalali to Gregorian
// ---------------------------------------------------------------------

/// The day count of a Jalali date that the conversion works from: days since
/// the start of Jalali year 979 under the 33-year arithmetic rule.
pub open spec fn jalali_year_days(jy: int) -> int {
    let jy2 = jy - 979;
    365 * jy2 + div_trunc(jy2, 33) * 8 + div_trunc(rem_trunc(jy2, 33) + 3, 4)
}

/// Days before month `jm` (1-based) in a Jalali year.
pub open spec fn jalali_days_before_month(jm: int) -> int {
    if jm <= 1 {
        0
    } else if jm <= 7 {
        31 * (jm - 1)
    } else {
        186 + 30 * (jm - 7)
    }
}

pub open spec fn jalali_valid(jy: int, jm: int, jd: int) -> bool {
    1 <= jm <= 12 && 1 <= jd <= jalali_month_days(jy, jm)
}

/// The arithmetic of the conversion stays within `i32`.
pub open spec fn jalali_count_fits(jy: int, jm: int, jd: int) -> bool {
    let jy2 = jy - 979;
    &&& in_i32(jy2)
    &&& in_i32(365 * jy2)
    &&& in_i32(365 * jy2 + div_trunc(jy2, 33) * 8)
    &&& in_i32(jalali_year_days(jy))
    &&& in_i32(jalali_year_days(jy) + jalali_days_before_month(jm) + jd - 1 + 79)
}

/// What `jalali_to_gregorian` needs so that it cannot overflow.
pub open spec fn jalali_to_gregorian_fits(jy: int, jm: int, jd: int) -> bool {
    &&& (1 <= jm <= 12 && jd >= 1 && jm > 11 ==> jalali_leap_fits(jy))
    &&& (jalali_valid(jy, jm, jd) ==> jalali_count_fits(jy, jm, jd))
}

/// Gregorian month lengths, February by the `leap` flag.
pub open spec fn greg_month_len(month0: int, leap: bool) -> int {
    if month0 == 1 {
        if leap {
            29
        } else {
            28
        }
    } else if month0 == 3 || month0 == 5 || month0 == 8 || month0 == 10 {
        30
    } else {
        31
    }
}

/// Walks through the months from `gm` (0-based) while the remaining day
/// count covers them; gives the month reached and the days left.
pub open spec fn month_walk(g: int, gm: int, leap: bool) -> (int, int)
    decreases 12 - gm,
{
    if gm < 12 && g >= greg_month_len(gm, leap) {
        month_walk(g - greg_month_len(gm, leap), gm + 1, leap)
    } else {
        (gm, g)
    }
}

/// The Gregorian year, 0-based month and 0-based day that the conversion
/// computes from a day count `g0` counted from 1600-01-01.
pub open spec fn gregorian_fields(g0: int) -> (int, int, int) {
    let gy1 = 1600 + 400 * div_trunc(g0, 146097);
    let g1 = rem_trunc(g0, 146097);
    let (gy2, g2, leap2) = if g1 >= 36525 {
        let h = g1 - 1;
        let gy = gy1 + 100 * div_trunc(h, 36524);
        let h2 = rem_trunc(h, 36524);
        if h2 >= 365 {
            (gy, h2 + 1, true)
        } else {
            (gy, h2, false)
        }
    } else {
        (gy1, g1, true)
    };
    let gy3 = gy2 + 4 * div_trunc(g2, 1461);
    let g3 = rem_trunc(g2, 1461);
    let (gy4, g4, leap4) = if g3 >= 366 {
        let h = g3 - 1;
        (gy3 + div_trunc(h, 365), rem_trunc(h, 365), false)
    } else {
        (gy3, g3, leap2)
    };
    let (gm, gd) = month_walk(g4, 0, leap4);
    (gy4, gm, gd)
}

/// `YYYY-MM-DD` with the year zero-padded to 4 and month and day to 2.
pub open spec fn gregorian_text(y: int, m: int, d: int) -> Seq<char> {
    zero_padded(y, 4) + seq!['-'] + zero_padded(m, 2) + seq!['-'] + zero_padded(d, 2)
}

/// `YYYY/MM/DD` with the year zero-padded to 4 and month and day to 2.
pub open spec fn jalali_text(y: int, m: int, d: int) -> Seq<char> {
    zero_padded(y, 4) + seq!['/'] + zero_padded(m, 2) + seq!['/'] + zero_padded(d, 2)
}

/// The Gregorian text `jalali_to_gregorian` gives for a valid Jalali date.
pub open spec fn jalali_to_gregorian_text(jy: int, jm: int, jd: int) -> Seq<char> {
    let g = jalali_year_days(jy) + jalali_days_before_month(jm) + jd - 1 + 79;
    let (gy, gm, gd) = gregorian_fields(g);
    gregorian_text(gy, gm + 1, gd + 1)
}

fn jalali_month_offset(jm2: i32) -> (r: i32)
    requires
        0 <= jm2 <= 11,
    ensures
        r == jalali_days_before_month(jm2 + 1),
{
    let mut total: i32 = 0;
    let mut month: i32 = 0;
    while month < jm2
        invariant
            0 <= month <= jm2 <= 11,
            total == jalali_days_before_month(month + 1),
        decreases jm2 - month,
    {
        total = total + if month < 6 {
            31
        } else {
            30
        };
        month = month + 1;
    }
    total
}

fn greg_month_length(gm: i32, leap: bool) -> (r: i32)
    requires
        0 <= gm < 12,
    ensures
        r == greg_month_len(gm as int, leap),
{
    if gm == 1 {
        if leap {
            29
        } else {
            28
        }
    } else if gm == 3 || gm == 5 || gm == 8 || gm == 10 {
        30
    } else {
        31
    }
}

/// Splits a day count from 1600-01-01 into year, 0-based month and 0-based day.
fn gregorian_from_count(g0: i32) -> (r: (i32, i32, i32))
    ensures
        (r.0 as int, r.1 as int, r.2 as int) == gregorian_fields(g0 as int),
        0 <= r.1 <= 12,
        -1461 < r.2 < 366,
{
    let mut g_day_no = g0;
    let mut gy: i32 = 1600 + 400 * (g_day_no / 146097);
    g_day_no = g_day_no % 146097;
    let mut leap = true;
    if g_day_no >= 36525 {
        g_day_no = g_day_no - 1;
        gy = gy + 100 * (g_day_no / 36524);
        g_day_no = g_day_no % 36524;
        if g_day_no >= 365 {
            g_day_no = g_day_no + 1;
        } else {
            leap = false;
        }
    }
    gy = gy + 4 * (g_day_no / 1461);
    g_day_no = g_day_no % 1461;
    if g_day_no >= 366 {
        leap = false;
        g_day_no = g_day_no - 1;
        gy = gy + g_day_no / 365;
        g_day_no = g_day_no % 365;
    }
    let ghost start = g_day_no as int;
    let mut gm: i32 = 0;
    assert(month_walk(start, 0, leap) == month_walk(g_day_no as int, gm as int, leap));
    while gm < 12 && g_day_no >= greg_month_length(gm, leap)
        invariant
            0 <= gm <= 12,
            -1461 < g_day_no < 366,
            month_walk(start, 0, leap) == month_walk(g_day_no as int, gm as int, leap),
        decreases 12 - gm,
    {
        g_day_no = g_day_no - greg_month_length(gm, leap);
        gm = gm + 1;
    }
    (gy, gm, g_day_no)
}

/// The day count from 1600-01-01 that a valid Jalali date converts to.
fn jalali_day_count(jy: i32, jm: i32, jd: i32) -> (r: i32)
    requires
        1 <= jm <= 12,
        1 <= jd <= 31,
        jalali_count_fits(jy as int, jm as int, jd as int),
    ensures
        r == jalali_year_days(jy as int) + jalali_days_before_month(jm as int) + jd - 1 + 79,
{
    let jy2 = jy as i64 - 979;
    let year_days = 365 * jy2 + (jy2 / 33) * 8 + ((jy2 % 33 + 3) / 4);
    let total = year_days + jalali_month_offset(jm - 1) as i64 + (jd as i64 - 1) + 79;
    total as i32
}

/// Converts a Jalali date to Gregorian `YYYY-MM-DD`; `None` when the month is
/// outside `1..=12` or the day outside the month.
pub fn jalali_to_gregorian(jy: i32, jm: i32, jd: i32) -> (r: Option<String>)
    requires
        jalali_to_gregorian_fits(jy as int, jm as int, jd as int),
    ensures
        !jalali_valid(jy as int, jm as int, jd as int) ==> r is None,
        jalali_valid(jy as int, jm as int, jd as int) ==> (r matches Some(t) && t@
            == jalali_to_gregorian_text(jy as int, jm as int, jd as int)),
        jalali_valid(jy as int, jm as int, jd as int) && jy >= 979 ==> ({
            let (gy, gm, gd) = crate::calendar::gregorian_date_of(jy as int, jm as int, jd as int);
            valid_date(gy, gm, gd) && jalali_to_gregorian_text(jy as int, jm as int, jd as int)
                == gregorian_text(gy, gm, gd)
        }),
{
    proof {
        if jalali_valid(jy as int, jm as int, jd as int) && jy >= 979 {
            crate::calendar::gregorian_date_is_valid(jy as int, jm as int, jd as int);
        }
    }
    if jm < 1 || jm > 12 || jd < 1 || jd > jalali_days_in_month(jy, jm) {
        return None;
    }
    let g_day_no = jalali_day_count(jy, jm, jd);
    let (gy, gm, gd) = gregorian_from_count(g_day_no);
    let mut out = String::new();
    push_zero_padded(&mut out, gy as i64, 4);
    push_char(&mut out, '-');
    push_zero_padded(&mut out, gm as i64 + 1, 2);
    push_char(&mut out, '-');
    push_zero_padded(&mut out, gd as i64 + 1, 2);
    assert(out@ =~= jalali_to_gregorian_text(jy as int, jm as int, jd as int));
    Some(out)
}


// ---------------------------------------------------------------------
// Gregorian to Jalali
// ---------------------------------------------------------------------

/// `v as u8`: the value modulo 256.
pub open spec fn as_u8(v: int) -> int {
    v % 256
}

/// The date check `gregorian_to_jalali` makes: `Date::new` on the year and on
/// the month and day cast to `u8`.
pub open spec fn gregorian_check(gy: int, gm: int, gd: int) -> bool {
    valid_date(gy, as_u8(gm), as_u8(gd))
}

/// Days before month `gm2 + 1` (0-based `gm2`) in a common Gregorian year.
pub open spec fn greg_days_before(gm2: int) -> int
    decreases gm2,
{
    if gm2 <= 0 {
        0
    } else {
        greg_days_before(gm2 - 1) + greg_month_len(gm2 - 1, false)
    }
}

pub open spec fn greg_leap_rule(gy2: int) -> bool {
    (rem_trunc(gy2, 4) == 0 && rem_trunc(gy2, 100) != 0) || rem_trunc(gy2, 400) == 0
}

/// Days from the start of Gregorian 1600 to the start of year `1600 + gy2`.
pub open spec fn greg_year_days(gy2: int) -> int {
    365 * gy2 + div_trunc(gy2 + 3, 4) - div_trunc(gy2 + 99, 100) + div_trunc(gy2 + 399, 400)
}

/// The day count (from 1600-01-01) of a Gregorian date, as the conversion computes it.
pub open spec fn greg_day_count(gy: int, gm: int, gd: int) -> int {
    let gy2 = gy - 1600;
    let gm2 = gm - 1;
    greg_year_days(gy2) + greg_days_before(gm2) + (if gm2 > 1 && greg_leap_rule(gy2) {
        1int
    } else {
        0
    }) + gd - 1
}

/// Walks through the Jalali months while the remaining days cover them.
pub open spec fn jalali_month_walk(j: int, jm: int) -> (int, int)
    decreases 12 - jm,
{
    if jm <= 11 && j >= (if jm <= 6 {
        31int
    } else {
        30
    }) {
        jalali_month_walk(
            j - (if jm <= 6 {
                31int
            } else {
                30
            }),
            jm + 1,
        )
    } else {
        (jm, j)
    }
}

/// Jalali year, month and 0-based day that the conversion computes from a
/// day count `j0` counted from the start of Jalali year 979.
pub open spec fn jalali_fields(j0: int) -> (int, int, int) {
    let j_np = div_trunc(j0, 12053);
    let j1 = rem_trunc(j0, 12053);
    let jy1 = 979 + 33 * j_np + 4 * div_trunc(j1, 1461);
    let j2 = rem_trunc(j1, 1461);
    let (jy, j3) = if j2 >= 366 {
        (jy1 + div_trunc(j2 - 1, 365), rem_trunc(j2 - 1, 365))
    } else {
        (jy1, j2)
    };
    let (jm, jd) = jalali_month_walk(j3, 1);
    (jy, jm, jd)
}

pub open spec fn gregorian_to_jalali_text(gy: int, gm: int, gd: int) -> Seq<char> {
    let (jy, jm, jd) = jalali_fields(greg_day_count(gy, gm, gd) - 79);
    jalali_text(jy, jm, jd + 1)
}

/// What `gregorian_to_jalali` needs so that it neither indexes past December
/// nor overflows.
pub open spec fn gregorian_to_jalali_fits(gy: int, gm: int, gd: int) -> bool {
    let gy2 = gy - 1600;
    let t1 = 365 * gy2;
    let t2 = t1 + div_trunc(gy2 + 3, 4);
    let t3 = t2 - div_trunc(gy2 + 99, 100);
    let t4 = t3 + div_trunc(gy2 + 399, 400);
    let t5 = greg_day_count(gy, gm, gd) - gd + 1;
    gregorian_check(gy, gm, gd) ==> {
        &&& gm <= 13
        &&& in_i32(gy2) && in_i32(gy2 + 399) && in_i32(t1) && in_i32(t2) && in_i32(t3)
        &&& in_i32(t4) && in_i32(t5) && in_i32(gd - 1)
        &&& in_i32(greg_day_count(gy, gm, gd)) && in_i32(greg_day_count(gy, gm, gd) - 79)
    }
}

fn greg_month_offset(gm2: i64) -> (r: i64)
    requires
        gm2 <= 12,
    ensures
        r == greg_days_before(gm2 as int),
        0 <= r <= 372,
{
    let mut total: i64 = 0;
    let mut i: i64 = 0;
    while i < gm2
        invariant
            0 <= i,
            gm2 <= 12,
            i <= gm2 || gm2 <= 0,
            gm2 <= 0 ==> i == 0,
            total == greg_days_before(i as int),
            0 <= total <= 31 * i,
        decreases gm2 - i,
    {
        total = total + greg_month_length(i as i32, false) as i64;
        i = i + 1;
    }
    total
}

fn jalali_month_length(jm: i64) -> (r: i64)
    ensures
        r == (if jm <= 6 {
            31int
        } else {
            30
        }),
{
    if jm <= 6 {
        31
    } else {
        30
    }
}

fn jalali_from_count(j0: i64) -> (r: (i64, i64, i64))
    requires
        in_i32(j0 as int),
    ensures
        (r.0 as int, r.1 as int, r.2 as int) == jalali_fields(j0 as int),
        in_i32(r.0 as int),
        1 <= r.1 <= 12,
        -1461 < r.2 < 366,
{
    let j_np = j0 / 12053;
    let mut j = j0 % 12053;
    let mut jy = 979 + 33 * j_np + 4 * (j / 1461);
    j = j % 1461;
    if j >= 366 {
        jy = jy + (j - 1) / 365;
        j = (j - 1) % 365;
    }
    let ghost start = j as int;
    let mut jm: i64 = 1;
    while jm <= 11 && j >= jalali_month_length(jm)
        invariant
            1 <= jm <= 12,
            -1461 < j < 366,
            jalali_month_walk(start, 1) == jalali_month_walk(j as int, jm as int),
        decreases 12 - jm,
    {
        j = j - jalali_month_length(jm);
        jm = jm + 1;
    }
    (jy, jm, j)
}

/// The day count (from 1600-01-01) of a Gregorian date that passed the check.
fn greg_count(gy: i32, gm: i32, gd: i32) -> (r: i64)
    requires
        gregorian_check(gy as int, gm as int, gd as int),
        gregorian_to_jalali_fits(gy as int, gm as int, gd as int),
    ensures
        r == greg_day_count(gy as int, gm as int, gd as int),
        in_i32(r as int - 79),
{
    let gy2 = gy as i64 - 1600;
    let gm2 = gm as i64 - 1;
    let gd2 = gd as i64 - 1;
    let mut g_day_no: i64 = 365 * gy2 + (gy2 + 3) / 4 - (gy2 + 99) / 100 + (gy2 + 399) / 400;
    g_day_no = g_day_no + greg_month_offset(gm2);
    if gm2 > 1 && ((gy2 % 4 == 0 && gy2 % 100 != 0) || gy2 % 400 == 0) {
        g_day_no = g_day_no + 1;
    }
    g_day_no = g_day_no + gd2;
    g_day_no
}

/// Converts a Gregorian date to Jalali `YYYY/MM/DD`; `None` when the date (with
/// month and day taken as `u8`) is not a valid Gregorian date.
pub fn gregorian_to_jalali(gy: i32, gm: i32, gd: i32) -> (r: Option<String>)
    requires
        gregorian_to_jalali_fits(gy as int, gm as int, gd as int),
    ensures
        !gregorian_check(gy as int, gm as int, gd as int) ==> r is None,
        gregorian_check(gy as int, gm as int, gd as int) ==> (r matches Some(t) && t@
            == gregorian_to_jalali_text(gy as int, gm as int, gd as int)),
{
    let m8 = ((gm % 256) + 256) % 256;
    let d8 = ((gd % 256) + 256) % 256;
    assert(m8 == as_u8(gm as int) && d8 == as_u8(gd as int));
    match Date::new(gy, m8 as u8, d8 as u8) {
        Ok(_) => {},
        Err(_) => {
            return None;
        },
    }
    let g_day_no = greg_count(gy, gm, gd);
    let (jy, jm, jd) = jalali_from_count(g_day_no - 79);
    let mut out = String::new();
    push_zero_padded(&mut out, jy, 4);
    push_char(&mut out, '/');
    push_zero_padded(&mut out, jm, 2);
    push_char(&mut out, '/');
    push_zero_padded(&mut out, jd + 1, 2);
    assert(out@ =~= gregorian_to_jalali_text(gy as int, gm as int, gd as int));
    Some(out)
}


// ---------------------------------------------------------------------
// Text helpers
// ---------------------------------------------------------------------

/// `str::parse::<i32>`.
pub open spec fn parse_i32(s: Seq<char>) -> Option<int> {
    parse_signed(s, i32::MIN as int, i32::MAX as int)
}

/// The pieces that parse as `i32`, in order (`filter_map` over the pieces).
pub open spec fn parsed_ints(parts: Seq<Seq<char>>) -> Seq<int>
    decreases parts.len(),
{
    if parts.len() == 0 {
        Seq::empty()
    } else {
        let rest = parsed_ints(parts.drop_last());
        match parse_i32(parts.last()) {
            Some(v) => rest.push(v),
            None => rest,
        }
    }
}

fn parse_i32_chars(v: &Vec<char>) -> (r: Option<i32>)
    ensures
        r matches Some(x) ==> parse_i32(v@) == Some(x as int),
        r is None ==> parse_i32(v@) is None,
{
    assert(v@.subrange(0, v@.len() as int) =~= v@);
    match parse_int_range(v, 0, v.len(), i32::MIN as i64, i32::MAX as i64) {
        Some(x) => Some(x as i32),
        None => None,
    }
}

fn parse_i32_list(parts: &Vec<Vec<char>>) -> (r: Vec<i32>)
    ensures
        r@.map_values(|x: i32| x as int) == parsed_ints(parts@.map_values(|p: Vec<char>| p@)),
{
    let ghost views = parts@.map_values(|p: Vec<char>| p@);
    let mut out: Vec<i32> = Vec::new();
    let mut i: usize = 0;
    while i < parts.len()
        invariant
            i <= parts.len(),
            views == parts@.map_values(|p: Vec<char>| p@),
            out@.map_values(|x: i32| x as int) == parsed_ints(views.take(i as int)),
        decreases parts.len() - i,
    {
        assert(views.take(i + 1).drop_last() =~= views.take(i as int));
        assert(views.take(i + 1).last() == parts@[i as int]@);
        let ghost before = out@.map_values(|x: i32| x as int);
        match parse_i32_chars(&parts[i]) {
            Some(x) => {
                out.push(x);
                assert(out@.map_values(|x: i32| x as int) =~= before.push(x as int));
            },
            None => {},
        }
        i = i + 1;
    }
    assert(views.take(parts@.len() as int) =~= views);
    out
}

/// `s` with every `-` replaced by `/`.
pub open spec fn dashes_to_slashes(s: Seq<char>) -> Seq<char> {
    s.map_values(|c: char| if c == '-' { '/' } else { c })
}

/// The three numbers of a Jalali date text, when it splits into three pieces
/// at `/` or `-` and each piece parses as `i32`.
pub open spec fn jalali_parts(s: Seq<char>) -> Option<(int, int, int)> {
    let p = split_at_char(dashes_to_slashes(s), '/');
    if p.len() == 3 && parse_i32(p[0]) is Some && parse_i32(p[1]) is Some && parse_i32(p[2]) is Some {
        Some((parse_i32(p[0])->Some_0, parse_i32(p[1])->Some_0, parse_i32(p[2])->Some_0))
    } else {
        None
    }
}

/// Reads a Jalali date `YYYY/MM/DD` (or with `-`) and converts it to
/// Gregorian `YYYY-MM-DD`.
pub fn parse_jalali(value: &str) -> (r: Option<String>)
    requires
        jalali_parts(value@) matches Some((a, b, c)) ==> jalali_to_gregorian_fits(a, b, c),
    ensures
        jalali_parts(value@) is None ==> r is None,
        jalali_parts(value@) matches Some((a, b, c)) ==> (!jalali_valid(a, b, c) ==> r is None),
        jalali_parts(value@) matches Some((a, b, c)) ==> (jalali_valid(a, b, c) ==> (r matches Some(
            t,
        ) && t@ == jalali_to_gregorian_text(a, b, c))),
{
    match jalali_date_parts(value) {
        Some((a, b, c)) => jalali_to_gregorian(a, b, c),
        None => None,
    }
}

/// The three `i32` numbers found between the `-` of a Gregorian date text.
pub open spec fn gregorian_numbers(value: Seq<char>) -> Seq<int> {
    parsed_ints(split_at_char(value, '-'))
}

/// The piece of a Jalali text picked by `component` (negative counts as 0),
/// parsed as `i32`; 0 when there is no such piece or it does not parse.
pub open spec fn jalali_piece(text: Seq<char>, component: int) -> int {
    let pieces = split_at_char(text, '/');
    let k = if component < 0 { 0 } else { component };
    if k < pieces.len() {
        match parse_i32(pieces[k]) {
            Some(v) => v,
            None => 0,
        }
    } else {
        0
    }
}

/// The year (0), month (1) or day (2) of the Jalali date for a Gregorian
/// `YYYY-MM-DD` text; 0 when the text does not hold a valid date.
pub fn jalali_component(value: &str, component: i32) -> (r: i32)
    requires
        gregorian_numbers(value@).len() == 3 ==> gregorian_to_jalali_fits(
            gregorian_numbers(value@)[0],
            gregorian_numbers(value@)[1],
            gregorian_numbers(value@)[2],
        ),
    ensures
        ({
            let n = gregorian_numbers(value@);
            if n.len() == 3 && gregorian_check(n[0], n[1], n[2]) {
                r == jalali_piece(gregorian_to_jalali_text(n[0], n[1], n[2]), component as int)
            } else {
                r == 0
            }
        }),
{
    let chars = chars_of(value);
    let pieces = split_chars(&chars, '-');
    let parts = parse_i32_list(&pieces);
    assert(parts@.map_values(|x: i32| x as int).len() == parts@.len());
    if parts.len() != 3 {
        return 0;
    }
    assert(parts@.map_values(|x: i32| x as int)[0] == parts@[0] as int);
    assert(parts@.map_values(|x: i32| x as int)[1] == parts@[1] as int);
    assert(parts@.map_values(|x: i32| x as int)[2] == parts@[2] as int);
    let jalali = match gregorian_to_jalali(parts[0], parts[1], parts[2]) {
        Some(t) => t,
        None => {
            return 0;
        },
    };
    let jchars = chars_of(jalali.as_str());
    let jpieces = split_chars(&jchars, '/');
    assert(jpieces@.map_values(|q: Vec<char>| q@).len() == jpieces@.len());
    let k: usize = if component < 0 {
        0
    } else {
        component as usize
    };
    if k >= jpieces.len() {
        return 0;
    }
    assert(jpieces@.map_values(|q: Vec<char>| q@)[k as int] == jpieces@[k as int]@);
    match parse_i32_chars(&jpieces[k]) {
        Some(x) => x,
        None => 0,
    }
}


// ---------------------------------------------------------------------
// Conversions that refuse what they cannot compute
// ---------------------------------------------------------------------

fn fits_i32(v: i64) -> (r: bool)
    ensures
        r == in_i32(v as int),
{
    -2147483648 <= v && v <= 2147483647
}

/// Whether `jalali_to_gregorian` can convert the date without overflowing.
pub fn jalali_conversion_fits(jy: i32, jm: i32, jd: i32) -> (r: bool)
    ensures
        r == jalali_to_gregorian_fits(jy as int, jm as int, jd as int),
{
    let leap_fits = jy > 474 || fits_i32(jy as i64 - 474);
    if 1 <= jm && jm <= 12 && jd >= 1 && jm > 11 && !leap_fits {
        return false;
    }
    if jm < 1 || jm > 12 || jd < 1 || jd > jalali_days_in_month(jy, jm) {
        return true;
    }
    let jy2 = jy as i64 - 979;
    let t1 = 365 * jy2;
    let t2 = t1 + (jy2 / 33) * 8;
    let year_days = t2 + (jy2 % 33 + 3) / 4;
    let total = year_days + jalali_month_offset(jm - 1) as i64 + (jd as i64 - 1) + 79;
    fits_i32(jy2) && fits_i32(t1) && fits_i32(t2) && fits_i32(year_days) && fits_i32(total)
}

/// Whether `gregorian_to_jalali` can convert the date without overflowing
/// or reading past December.
pub fn gregorian_conversion_fits(gy: i32, gm: i32, gd: i32) -> (r: bool)
    ensures
        r == gregorian_to_jalali_fits(gy as int, gm as int, gd as int),
{
    let m8 = ((gm % 256) + 256) % 256;
    let d8 = ((gd % 256) + 256) % 256;
    assert(m8 == as_u8(gm as int) && d8 == as_u8(gd as int));
    match Date::new(gy, m8 as u8, d8 as u8) {
        Ok(_) => {},
        Err(_) => {
            return true;
        },
    }
    if gm > 13 {
        return false;
    }
    let gy2 = gy as i64 - 1600;
    let gm2 = gm as i64 - 1;
    let t1 = 365 * gy2;
    let t2 = t1 + (gy2 + 3) / 4;
    let t3 = t2 - (gy2 + 99) / 100;
    let t4 = t3 + (gy2 + 399) / 400;
    let leap = gm2 > 1 && ((gy2 % 4 == 0 && gy2 % 100 != 0) || gy2 % 400 == 0);
    let t5 = t4 + greg_month_offset(gm2) + if leap {
        1
    } else {
        0
    };
    let count = t5 + gd as i64 - 1;
    assert(count == greg_day_count(gy as int, gm as int, gd as int));
    fits_i32(gy2) && fits_i32(gy2 + 399) && fits_i32(t1) && fits_i32(t2) && fits_i32(t3)
        && fits_i32(t4) && fits_i32(t5) && fits_i32(gd as i64 - 1) && fits_i32(count) && fits_i32(
        count - 79,
    )
}

/// The three numbers of a Jalali date text (see `jalali_parts`).
pub fn jalali_date_parts(value: &str) -> (r: Option<(i32, i32, i32)>)
    ensures
        r matches Some((a, b, c)) ==> jalali_parts(value@) == Some((a as int, b as int, c as int)),
        r is None ==> jalali_parts(value@) is None,
{
    let chars = chars_of(value);
    let mut normalized: Vec<char> = Vec::new();
    let mut i: usize = 0;
    while i < chars.len()
        invariant
            i <= chars.len(),
            normalized@ == dashes_to_slashes(chars@.take(i as int)),
        decreases chars.len() - i,
    {
        let c = chars[i];
        normalized.push(if c == '-' {
            '/'
        } else {
            c
        });
        i = i + 1;
        assert(normalized@ =~= dashes_to_slashes(chars@.take(i as int)));
    }
    assert(chars@.take(chars@.len() as int) =~= chars@);
    let p = split_chars(&normalized, '/');
    assert(p@.map_values(|q: Vec<char>| q@).len() == p@.len());
    if p.len() != 3 {
        return None;
    }
    assert(p@.map_values(|q: Vec<char>| q@)[0] == p@[0]@);
    assert(p@.map_values(|q: Vec<char>| q@)[1] == p@[1]@);
    assert(p@.map_values(|q: Vec<char>| q@)[2] == p@[2]@);
    let a = match parse_i32_chars(&p[0]) {
        Some(x) => x,
        None => {
            return None;
        },
    };
    let b = match parse_i32_chars(&p[1]) {
        Some(x) => x,
        None => {
            return None;
        },
    };
    let c = match parse_i32_chars(&p[2]) {
        Some(x) => x,
        None => {
            return None;
        },
    };
    Some((a, b, c))
}

/// The Gregorian text of a Jalali date text as `parse_jalali` reads it;
/// `None` also for a year so far out that the conversion cannot compute it.
pub open spec fn jalali_date_to_gregorian(s: Seq<char>) -> Option<Seq<char>> {
    match jalali_parts(s) {
        Some((a, b, c)) => if jalali_to_gregorian_fits(a, b, c) && jalali_valid(a, b, c) {
            Some(jalali_to_gregorian_text(a, b, c))
        } else {
            None
        },
        None => None,
    }
}

/// `parse_jalali` for any text: a date it cannot convert reads as no date.
pub fn parse_jalali_date(value: &str) -> (r: Option<String>)
    ensures
        jalali_date_to_gregorian(value@) matches Some(t) ==> (r matches Some(x) && x@ == t),
        jalali_date_to_gregorian(value@) is None ==> r is None,
{
    match jalali_date_parts(value) {
        Some((a, b, c)) => if jalali_conversion_fits(a, b, c) {
            jalali_to_gregorian(a, b, c)
        } else {
            None
        },
        None => None,
    }
}

/// The Jalali text for a Gregorian `YYYY-MM-DD` text: empty unless the text
/// holds exactly three numbers of a valid date that the conversion can compute.
pub open spec fn jalali_of_gregorian_text(value: Seq<char>) -> Seq<char> {
    let n = gregorian_numbers(value);
    if n.len() == 3 && gregorian_to_jalali_fits(n[0], n[1], n[2]) && gregorian_check(
        n[0],
        n[1],
        n[2],
    ) {
        gregorian_to_jalali_text(n[0], n[1], n[2])
    } else {
        Seq::empty()
    }
}

pub fn jalali_for_gregorian_text(value: &str) -> (r: String)
    ensures
        r@ == jalali_of_gregorian_text(value@),
{
    let chars = chars_of(value);
    let pieces = split_chars(&chars, '-');
    let parts = parse_i32_list(&pieces);
    assert(parts@.map_values(|x: i32| x as int).len() == parts@.len());
    if parts.len() != 3 {
        return String::new();
    }
    assert(parts@.map_values(|x: i32| x as int)[0] == parts@[0] as int);
    assert(parts@.map_values(|x: i32| x as int)[1] == parts@[1] as int);
    assert(parts@.map_values(|x: i32| x as int)[2] == parts@[2] as int);
    if !gregorian_conversion_fits(parts[0], parts[1], parts[2]) {
        return String::new();
    }
    match gregorian_to_jalali(parts[0], parts[1], parts[2]) {
        Some(t) => t,
        None => String::new(),
    }
}

// ---------------------------------------------------------------------
// Month grid
// ---------------------------------------------------------------------

/// Zeller's congruence on the numbers of a Gregorian date text: the weekday
/// index (0 for Saturday) that the month grid starts from, together with
/// whether every step of it stays within `i32`.
pub open spec fn weekday_index(p: Seq<int>) -> (int, bool) {
    let shift = p[1] < 3;
    let y = if shift { p[0] - 1 } else { p[0] };
    let m = if shift { p[1] + 12 } else { p[1] };
    let k = rem_trunc(y, 100);
    let j = div_trunc(y, 100);
    let a1 = p[2] + div_trunc(13 * (m + 1), 5);
    let a2 = a1 + k;
    let a3 = a2 + div_trunc(k, 4);
    let a4 = a3 + div_trunc(j, 4);
    let a5 = a4 + 5 * j;
    (rem_trunc(a5, 7), in_i32(y) && in_i32(m) && in_i32(m + 1) && in_i32(13 * (m + 1)) && in_i32(
        a1,
    ) && in_i32(a2) && in_i32(a3) && in_i32(a4) && in_i32(5 * j) && in_i32(a5))
}

/// The day of the month shown in cell `cell` of the month grid, or 0 for an
/// empty cell (also 0 when the month is not a valid Jalali month).
pub open spec fn calendar_day(year: int, month: int, cell: int) -> int {
    if !jalali_valid(year, month, 1) {
        0
    } else {
        let p = gregorian_numbers(jalali_to_gregorian_text(year, month, 1));
        if p.len() != 3 {
            0
        } else {
            let day = cell - weekday_index(p).0 + 1;
            if 1 <= day <= jalali_month_days(year, month) {
                day
            } else {
                0
            }
        }
    }
}

/// What `jalali_calendar_day` needs so that it cannot overflow.
pub open spec fn calendar_day_fits(year: int, month: int, cell: int) -> bool {
    &&& jalali_to_gregorian_fits(year, month, 1)
    &&& jalali_valid(year, month, 1) ==> {
        let p = gregorian_numbers(jalali_to_gregorian_text(year, month, 1));
        p.len() == 3 ==> weekday_index(p).1 && in_i32(cell - weekday_index(p).0) && in_i32(
            cell - weekday_index(p).0 + 1,
        )
    }
}

/// The day number to show in cell `cell` (0-based, weeks starting on
/// Saturday) of the grid for a Jalali month; 0 for cells outside the month.
#[verifier::spinoff_prover]
#[verifier::rlimit(40)]
pub fn jalali_calendar_day(year: i32, month: i32, cell: i32) -> (r: i32)
    requires
        calendar_day_fits(year as int, month as int, cell as int),
    ensures
        r == calendar_day(year as int, month as int, cell as int),
{
    let first = match jalali_to_gregorian(year, month, 1) {
        Some(t) => t,
        None => {
            return 0;
        },
    };
    let chars = chars_of(first.as_str());
    let pieces = split_chars(&chars, '-');
    let p = parse_i32_list(&pieces);
    let ghost pv = p@.map_values(|x: i32| x as int);
    assert(pv.len() == p@.len());
    if p.len() != 3 {
        return 0;
    }
    assert(pv[0] == p@[0] as int && pv[1] == p@[1] as int && pv[2] == p@[2] as int);
    let mut y = p[0] as i64;
    let mut m = p[1] as i64;
    if m < 3 {
        y = y - 1;
        m = m + 12;
    }
    let k = y % 100;
    let j = y / 100;
    let h = (p[2] as i64 + (13 * (m + 1)) / 5 + k + k / 4 + j / 4 + 5 * j) % 7;
    let day = cell as i64 - h + 1;
    if day >= 1 && day <= jalali_days_in_month(year, month) as i64 {
        day as i32
    } else {
        0
    }
}

// ---------------------------------------------------------------------
// Days since the Unix epoch
// ---------------------------------------------------------------------

/// Year, month and day of a count of days since 1970-01-01, computed by
/// eras of 400 years as the conversion does it (before the narrowing to `i32`).
pub open spec fn civil_fields(days: int) -> (int, int, int) {
    let z = days + 719468;
    let era = (if z >= 0 { z } else { z - 146096 }) / 146097;
    let doe = z - era * 146097;
    let yoe = div_trunc(doe - div_trunc(doe, 1460) + div_trunc(doe, 36524) - div_trunc(doe, 146096), 365);
    let year = yoe + era * 400;
    let doy = doe - (365 * yoe + div_trunc(yoe, 4) - div_trunc(yoe, 100));
    let mp = div_trunc(5 * doy + 2, 153);
    let day = doy - div_trunc(153 * mp + 2, 5) + 1;
    let month = mp + if mp < 10 { 3int } else { -9 };
    (if month <= 2 { year + 1 } else { year }, month, day)
}

pub open spec fn in_i64(v: int) -> bool {
    i64::MIN <= v <= i64::MAX
}

/// The conversion's arithmetic stays within `i64`.
pub open spec fn civil_fits(days: int) -> bool {
    let z = days + 719468;
    in_i64(z) && in_i64(z - 146096)
}

fn civil_from_days(days_since_epoch: i64) -> (r: (i64, i64, i64))
    requires
        civil_fits(days_since_epoch as int),
    ensures
        (r.0 as int, r.1 as int, r.2 as int) == civil_fields(days_since_epoch as int),
{
    let z = days_since_epoch + 719468;
    let shifted = if z >= 0 {
        z
    } else {
        z - 146096
    };
    let era = if shifted >= 0 {
        shifted / 146097
    } else {
        -((-(shifted + 1)) / 146097) - 1
    };
    assert(era == shifted as int / 146097) by (nonlinear_arith)
        requires
            shifted >= 0 ==> era == shifted / 146097,
            shifted < 0 ==> era == -((-(shifted + 1)) / 146097) - 1,
    {
    }
    let doe = z - era * 146097;
    assert(0 <= doe < 2 * 146097) by (nonlinear_arith)
        requires
            era == (if z >= 0 { z as int } else { z - 146096 }) / 146097,
            doe == z - era * 146097,
    {
    }
    let yoe = (doe - doe / 1460 + doe / 36524 - doe / 146096) / 365;
    let mut year = yoe + era * 400;
    let doy = doe - (365 * yoe + yoe / 4 - yoe / 100);
    let mp = (5 * doy + 2) / 153;
    let day = doy - (153 * mp + 2) / 5 + 1;
    let month = mp + if mp < 10 {
        3
    } else {
        -9
    };
    if month <= 2 {
        year = year + 1;
    }
    (year, month, day)
}

/// The Gregorian `YYYY-MM-DD` text of the day a Unix timestamp falls on in
/// Iran Standard Time (UTC+03:30).
pub open spec fn timestamp_date(unix_seconds: int) -> Seq<char> {
    let (y, m, d) = civil_fields((unix_seconds + 12600) / 86400);
    gregorian_text((y as i32) as int, (m as i32) as int, (d as i32) as int)
}

pub fn gregorian_date_for_timestamp(unix_seconds: i64) -> (r: String)
    requires
        unix_seconds + 12600 <= i64::MAX,
    ensures
        r@ == timestamp_date(unix_seconds as int),
{
    let seconds = unix_seconds + 12600;
    let days = match seconds.checked_div_euclid(86400) {
        Some(d) => d,
        None => 0,
    };
    assert(-106751991167301 <= days <= 106751991167301) by (nonlinear_arith)
        requires
            days == seconds / 86400,
            i64::MIN <= seconds <= i64::MAX,
    {
    }
    let (year, month, day) = civil_from_days(days);
    let mut out = String::new();
    push_zero_padded(&mut out, (year as i32) as i64, 4);
    push_char(&mut out, '-');
    push_zero_padded(&mut out, (month as i32) as i64, 2);
    push_char(&mut out, '-');
    push_zero_padded(&mut out, (day as i32) as i64, 2);
    out
}

#[verifier::external_type_specification]
#[verifier::external_body]
pub struct ExSystemTime(std::time::SystemTime);

/// Calls `SystemTime::now`; nothing is promised of the time it reads.
#[verifier::external_body]
fn system_now() -> (r: std::time::SystemTime) {
    std::time::SystemTime::now()
}

#[verifier::external_type_specification]
#[verifier::external_body]
pub struct ExSystemTimeError(std::time::SystemTimeError);

/// Calls `SystemTime::duration_since` with `UNIX_EPOCH`: the time since the
/// epoch, or an error for a time before it.
#[verifier::external_body]
fn since_epoch(t: &std::time::SystemTime) -> (r: Result<std::time::Duration, std::time::SystemTimeError>) {
    t.duration_since(std::time::UNIX_EPOCH)
}

/// Calls `Duration::as_secs`: the whole seconds of a duration.
#[verifier::external_body]
fn whole_seconds(d: &std::time::Duration) -> (r: u64) {
    d.as_secs()
}

/// The whole seconds since the epoch of a clock reading; a reading before
/// the epoch counts as zero.
fn seconds_since_epoch(t: &std::time::SystemTime) -> (r: u64) {
    match since_epoch(t) {
        Ok(d) => whole_seconds(&d),
        Err(_) => 0,
    }
}

/// Today's Gregorian date in Iran Standard Time. The clock can read any time,
/// so what is promised is that the text is the date of some timestamp; a
/// clock reading so large that adding the zone offset would leave `i64` is
/// read as the largest one that does not.
pub fn today_gregorian() -> (r: String)
    ensures
        exists|t: int| 0 <= t && t + 12600 <= i64::MAX && #[trigger] timestamp_date(t) == r@,
{
    let now = seconds_since_epoch(&system_now());
    let limit: u64 = 9223372036854763207;
    let seconds: i64 = if now <= limit {
        now as i64
    } else {
        limit as i64
    };
    let r = gregorian_date_for_timestamp(seconds);
    assert(timestamp_date(seconds as int) == r@);
    r
}

} // verus!
