//! Why the calendar conversions undo each other: the Jalali text of a
//! Gregorian date reads back as that date.

use vstd::prelude::*;

use crate::date::{
    dashes_to_slashes, greg_day_count, greg_days_before, greg_leap_rule, greg_month_len,
    greg_year_days, gregorian_check, gregorian_fields, gregorian_numbers, gregorian_text,
    gregorian_to_jalali_fits, jalali_date_to_gregorian, jalali_days_before_month, jalali_fields,
    jalali_leap, jalali_month_days, jalali_month_walk, jalali_of_gregorian_text, jalali_parts,
    jalali_text, jalali_to_gregorian_fits, jalali_valid, jalali_year_days, month_walk,
    parse_i32, parsed_ints, rem_trunc,
};
use crate::models::{days_in_month, div_trunc, is_leap_year, valid_date};
use crate::text::{
    is_digit, lemma_split_three, lemma_trimmed_same, lemma_zero_padded_parses, split_at_char,
    trimmed, zero_padded,
};

verus! {

/// Division with remainder by a positive divisor, in both of its forms.
proof fn lemma_div_rem(x: int, d: int, q: int, r: int)
    requires
        0 < d,
        0 <= r < d,
        x == d * q + r,
    ensures
        x / d == q,
        x % d == r,
        x >= 0 ==> div_trunc(x, d) == q && rem_trunc(x, d) == r,
{
    vstd::arithmetic::mul::lemma_mul_is_commutative(d, q);
    vstd::arithmetic::div_mod::lemma_fundamental_div_mod_converse(x, d, q, r);
}

/// The day of the year (0-based) of a day of a Gregorian month.
pub open spec fn greg_day_of_year(m: int, d: int, leap: bool) -> int {
    greg_days_before(m - 1) + (if m - 1 > 1 && leap {
        1int
    } else {
        0
    }) + d - 1
}

/// The month walk finds the month and day of a day of the year again.
proof fn lemma_greg_month_walk(m: int, d: int, leap: bool)
    requires
        1 <= m <= 12,
        1 <= d <= greg_month_len(m - 1, leap),
    ensures
        month_walk(greg_day_of_year(m, d, leap), 0, leap) == (m - 1, d - 1),
        0 <= greg_day_of_year(m, d, leap) < 365 + (if leap {
            1int
        } else {
            0
        }),
{
    reveal_with_fuel(month_walk, 13);
    reveal_with_fuel(greg_days_before, 13);
}

/// The Gregorian leap rule counted from 1600 is the rule for the year.
proof fn lemma_leap_rule_from_1600(y: int)
    requires
        y >= 1600,
    ensures
        greg_leap_rule(y - 1600) == is_leap_year(y),
        greg_month_len(1, greg_leap_rule(y - 1600)) == days_in_month(y, 2),
{
    let v = y - 1600;
    lemma_div_rem(y, 4, v / 4 + 400, v % 4);
    lemma_div_rem(v, 4, v / 4, v % 4);
    lemma_div_rem(y, 100, v / 100 + 16, v % 100);
    lemma_div_rem(v, 100, v / 100, v % 100);
    lemma_div_rem(y, 400, v / 400 + 4, v % 400);
    lemma_div_rem(v, 400, v / 400, v % 400);
}

/// `x` split at a positive divisor `d`: quotient and remainder.
proof fn lemma_split(x: int, d: int)
    requires
        0 <= x,
        0 < d,
    ensures
        x == d * (x / d) + x % d,
        0 <= x % d < d,
        0 <= x / d,
{
    vstd::arithmetic::div_mod::lemma_fundamental_div_mod(x, d);
    vstd::arithmetic::div_mod::lemma_mod_pos_bound(x, d);
    vstd::arithmetic::div_mod::lemma_div_pos_is_pos(x, d);
}

/// The conversion's count of the days before Gregorian year `1600 + y`,
/// with `y` split into four hundred, hundred, four and single years.
proof fn lemma_greg_year_days_parts(y: int, a: int, b: int, c: int, e: int)
    requires
        0 <= b < 4,
        0 <= c < 25,
        0 <= e < 4,
        0 <= a,
        y == 400 * a + 100 * b + 4 * c + e,
    ensures
        greg_year_days(y) == 146097 * a + 36524 * b + 1461 * c + 365 * e + (if e > 0 {
            1int
        } else {
            0
        }) - (if 4 * c + e > 0 {
            1int
        } else {
            0
        }) + (if 100 * b + 4 * c + e > 0 {
            1int
        } else {
            0
        }),
        greg_leap_rule(y) == ((e == 0 && 4 * c + e != 0) || 100 * b + 4 * c + e == 0),
{
    let yp = 100 * b + 4 * c + e;
    let ypp = 4 * c + e;
    lemma_div_rem(y, 4, 100 * a + 25 * b + c, e);
    lemma_div_rem(y, 100, 4 * a + b, ypp);
    lemma_div_rem(y, 400, a, yp);
    if e == 0 {
        lemma_div_rem(y + 3, 4, 100 * a + 25 * b + c, 3);
    } else {
        lemma_div_rem(y + 3, 4, 100 * a + 25 * b + c + 1, e - 1);
    }
    if ypp == 0 {
        lemma_div_rem(y + 99, 100, 4 * a + b, 99);
    } else {
        lemma_div_rem(y + 99, 100, 4 * a + b + 1, ypp - 1);
    }
    if yp == 0 {
        lemma_div_rem(y + 399, 400, a, 399);
    } else {
        lemma_div_rem(y + 399, 400, a + 1, yp - 1);
    }
}

/// Within a four-year group whose first year counts 366 days: the year of the
/// group and the day of that year.
proof fn lemma_four_year_group(g2: int, c: int, e: int, doy: int, leap: bool, leap2: bool)
    requires
        0 <= c,
        0 <= e < 4,
        0 <= doy < 365 + (if leap {
            1int
        } else {
            0
        }),
        e > 0 ==> !leap,
        e == 0 ==> leap2 == leap,
        g2 == 1461 * c + 365 * e + (if e > 0 {
            1int
        } else {
            0
        }) + doy,
    ensures
        div_trunc(g2, 1461) == c,
        ({
            let g3 = rem_trunc(g2, 1461);
            if g3 >= 366 {
                div_trunc(g3 - 1, 365) == e && rem_trunc(g3 - 1, 365) == doy && !leap
            } else {
                e == 0 && g3 == doy && leap2 == leap
            }
        }),
{
    let w = 365 * e + (if e > 0 {
        1int
    } else {
        0
    }) + doy;
    lemma_div_rem(g2, 1461, c, w);
    if e > 0 {
        lemma_div_rem(w - 1, 365, e, doy);
    }
}

/// The conversion's Gregorian fields of a day count from 1600-01-01 are the
/// year and the month and day the day of that year falls on.
#[verifier::spinoff_prover]
#[verifier::rlimit(40)]
proof fn lemma_gregorian_fields_inverse(y: int, doy: int)
    requires
        y >= 0,
        0 <= doy < 365 + (if greg_leap_rule(y) {
            1int
        } else {
            0
        }),
    ensures
        gregorian_fields(greg_year_days(y) + doy) == (
            1600 + y,
            month_walk(doy, 0, greg_leap_rule(y)).0,
            month_walk(doy, 0, greg_leap_rule(y)).1,
        ),
{
    let leap = greg_leap_rule(y);
    lemma_split(y, 400);
    let a = y / 400;
    let yp = y % 400;
    lemma_split(yp, 100);
    let b = yp / 100;
    let ypp = yp % 100;
    lemma_split(ypp, 4);
    let c = ypp / 4;
    let e = ypp % 4;
    lemma_greg_year_days_parts(y, a, b, c, e);
    let e1 = if e > 0 {
        1int
    } else {
        0
    };
    let g0 = greg_year_days(y) + doy;
    let r = g0 - 146097 * a;
    lemma_div_rem(g0, 146097, a, r);
    let gy1 = 1600 + 400 * a;
    if r >= 36525 {
        let h = r - 1;
        let inner = 1461 * c + 365 * e + e1 - (if ypp > 0 {
            1int
        } else {
            0
        }) + doy;
        lemma_div_rem(h, 36524, b, inner);
        if inner >= 365 {
            lemma_four_year_group(inner + 1, c, e, doy, leap, true);
        } else {
            lemma_four_year_group(inner, c, e, doy, leap, false);
        }
    } else {
        lemma_four_year_group(r, c, e, doy, leap, true);
    }
}

/// The Jalali month walk splits a day of the year (0-based) into a month and
/// a day of it.
proof fn lemma_jalali_month_walk(j3: int)
    requires
        0 <= j3 <= 365,
    ensures
        ({
            let (jm, jd) = jalali_month_walk(j3, 1);
            &&& 1 <= jm <= 12
            &&& 0 <= jd
            &&& jalali_days_before_month(jm) + jd == j3
            &&& jm <= 6 ==> jd < 31
            &&& 7 <= jm <= 11 ==> jd < 30
            &&& jm == 12 ==> jd < 30
            &&& jm == 12 && jd == 29 ==> j3 == 365
        }),
{
    reveal_with_fuel(jalali_month_walk, 13);
}

/// The conversion's Jalali fields of a day count from the start of Jalali
/// year 979: a year, a month and a day of it whose count is that count.
proof fn lemma_jalali_fields_inverse(j0: int)
    requires
        j0 >= 0,
    ensures
        ({
            let (jy, jm, jd) = jalali_fields(j0);
            &&& jy >= 979
            &&& 1 <= jm <= 12
            &&& 0 <= jd
            &&& jm <= 6 ==> jd < 31
            &&& jm >= 7 ==> jd < 30
            &&& jalali_year_days(jy) + jalali_days_before_month(jm) + jd == j0
        }),
{
    lemma_split(j0, 12053);
    let np = j0 / 12053;
    let j1 = j0 % 12053;
    lemma_div_rem(j0, 12053, np, j1);
    lemma_split(j1, 1461);
    let q = j1 / 1461;
    let j2 = j1 % 1461;
    lemma_div_rem(j1, 1461, q, j2);
    let (r, j3) = if j2 >= 366 {
        lemma_split(j2 - 1, 365);
        lemma_div_rem(j2 - 1, 365, (j2 - 1) / 365, (j2 - 1) % 365);
        ((j2 - 1) / 365, (j2 - 1) % 365)
    } else {
        (0int, j2)
    };
    assert(0 <= r <= 3);
    assert(q <= 8);
    assert(q == 8 ==> r == 0);
    let jy2 = 33 * np + 4 * q + r;
    lemma_div_rem(jy2, 33, np, 4 * q + r);
    if r > 0 {
        lemma_div_rem(4 * q + r + 3, 4, q + 1, r - 1);
    } else {
        lemma_div_rem(4 * q + 3, 4, q, 3);
    }
    assert(jalali_year_days(979 + jy2) == 12053 * np + 1461 * q + 365 * r + (if r > 0 {
        1int
    } else {
        0
    }));
    lemma_jalali_month_walk(j3);
}

/// A zero-padded number holds only digits, so neither `-` nor `/`.
proof fn lemma_padded_chars(v: int, w: int)
    requires
        0 <= v <= i32::MAX,
    ensures
        forall|i: int|
            0 <= i < zero_padded(v, w).len() ==> #[trigger] zero_padded(v, w)[i] != '-'
                && zero_padded(v, w)[i] != '/',
        parse_i32(zero_padded(v, w)) == Some(v),
{
    lemma_zero_padded_parses(v, w);
    assert(parse_i32(zero_padded(v, w)) == crate::text::parse_signed(
        zero_padded(v, w),
        i32::MIN as int,
        i32::MAX as int,
    ));
    assert forall|i: int| 0 <= i < zero_padded(v, w).len() implies #[trigger] zero_padded(
        v,
        w,
    )[i] != '-' && zero_padded(v, w)[i] != '/' by {
        assert(is_digit(zero_padded(v, w)[i]));
    }
}

/// Three texts that parse as the three numbers, in order.
proof fn lemma_three_parsed(p: Seq<char>, q: Seq<char>, r: Seq<char>, a: int, b: int, c: int)
    requires
        parse_i32(p) == Some(a),
        parse_i32(q) == Some(b),
        parse_i32(r) == Some(c),
    ensures
        parsed_ints(seq![p, q, r]) == seq![a, b, c],
{
    let three = seq![p, q, r];
    assert(three.drop_last() =~= seq![p, q]);
    assert(seq![p, q].drop_last() =~= seq![p]);
    assert(seq![p].drop_last() =~= Seq::<Seq<char>>::empty());
    assert(parsed_ints(Seq::<Seq<char>>::empty()) == Seq::<int>::empty());
    assert(parsed_ints(seq![p]) =~= seq![a]);
    assert(parsed_ints(seq![p, q]) =~= seq![a, b]);
    assert(parsed_ints(three) =~= seq![a, b, c]);
}

/// The numbers of a Gregorian date text are its year, month and day.
proof fn lemma_gregorian_numbers(y: int, m: int, d: int)
    requires
        0 <= y <= i32::MAX,
        0 <= m <= i32::MAX,
        0 <= d <= i32::MAX,
    ensures
        gregorian_numbers(gregorian_text(y, m, d)) == seq![y, m, d],
{
    lemma_padded_chars(y, 4);
    lemma_padded_chars(m, 2);
    lemma_padded_chars(d, 2);
    lemma_split_three(zero_padded(y, 4), zero_padded(m, 2), zero_padded(d, 2), '-');
    lemma_three_parsed(zero_padded(y, 4), zero_padded(m, 2), zero_padded(d, 2), y, m, d);
}

/// The parts of a Jalali date text are its year, month and day.
proof fn lemma_jalali_parts(y: int, m: int, d: int)
    requires
        0 <= y <= i32::MAX,
        0 <= m <= i32::MAX,
        0 <= d <= i32::MAX,
    ensures
        jalali_parts(jalali_text(y, m, d)) == Some((y, m, d)),
{
    let t = jalali_text(y, m, d);
    lemma_padded_chars(y, 4);
    lemma_padded_chars(m, 2);
    lemma_padded_chars(d, 2);
    let p = zero_padded(y, 4);
    let q = zero_padded(m, 2);
    let r = zero_padded(d, 2);
    assert forall|i: int| 0 <= i < t.len() implies #[trigger] t[i] != '-' by {
        if i < p.len() {
            assert(t[i] == p[i]);
        } else if i == p.len() {
        } else if i < p.len() + 1 + q.len() {
            assert(t[i] == q[i - p.len() - 1]);
        } else if i == p.len() + 1 + q.len() {
        } else {
            assert(t[i] == r[i - p.len() - 2 - q.len()]);
        }
    }
    assert(dashes_to_slashes(t) =~= t);
    lemma_split_three(p, q, r, '/');
    assert(split_at_char(t, '/') == seq![p, q, r]);
}

/// The Jalali date (year, month, day) the conversion gives a Gregorian date.
pub open spec fn jalali_date_of(y: int, m: int, d: int) -> (int, int, int) {
    let (jy, jm, jd) = jalali_fields(greg_day_count(y, m, d) - 79);
    (jy, jm, jd + 1)
}

/// A real Gregorian date from 1600-03-20 on: its day count from 1600-01-01
/// is at least 79, and the conversion's Gregorian fields of that count are
/// the year, month and day again.
proof fn lemma_gregorian_count_inverse(y: int, m: int, d: int)
    requires
        valid_date(y, m, d),
        y > 1600 || (y == 1600 && (m > 3 || (m == 3 && d >= 20))),
    ensures
        greg_day_count(y, m, d) >= 79,
        gregorian_fields(greg_day_count(y, m, d)) == (y, m - 1, d - 1),
{
    let leap = greg_leap_rule(y - 1600);
    lemma_leap_rule_from_1600(y);
    assert(greg_month_len(m - 1, leap) == days_in_month(y, m));
    lemma_greg_month_walk(m, d, leap);
    let doy = greg_day_of_year(m, d, leap);
    assert(greg_day_count(y, m, d) == greg_year_days(y - 1600) + doy);
    lemma_gregorian_fields_inverse(y - 1600, doy);
    if y == 1600 {
        reveal_with_fuel(greg_days_before, 13);
        assert(greg_year_days(0) == 0);
    } else {
        lemma_greg_year_days_at_least(y - 1600);
    }
}

/// The Jalali text the conversion writes for a real Gregorian date.
proof fn lemma_jalali_text_of(y: int, m: int, d: int)
    requires
        0 <= y <= i32::MAX,
        valid_date(y, m, d),
        gregorian_to_jalali_fits(y, m, d),
    ensures
        jalali_of_gregorian_text(gregorian_text(y, m, d)) == jalali_text(
            jalali_date_of(y, m, d).0,
            jalali_date_of(y, m, d).1,
            jalali_date_of(y, m, d).2,
        ),
{
    lemma_gregorian_numbers(y, m, d);
    assert(m % 256 == m && d % 256 == d);
    assert(gregorian_check(y, m, d));
}

/// A valid Jalali date text that the conversion can compute reads as the
/// Gregorian text of that date.
proof fn lemma_jalali_text_reads(jy: int, jm: int, jd: int)
    requires
        0 <= jy <= i32::MAX,
        1 <= jm <= 12,
        1 <= jd <= 31,
        jalali_valid(jy, jm, jd),
        jalali_to_gregorian_fits(jy, jm, jd),
    ensures
        jalali_date_to_gregorian(jalali_text(jy, jm, jd)) == Some(
            crate::date::jalali_to_gregorian_text(jy, jm, jd),
        ),
{
    lemma_jalali_parts(jy, jm, jd);
}

/// The dates whose Jalali text reads back: every real date from 1600-03-20
/// (Jalali 979/01/01) on, as far as the `i32` arithmetic of the two
/// conversions reaches, except the 30th of the last month of a year that the
/// conversion's 33-year cycle counts as leap and the reader's 2820-year rule
/// does not (the reader refuses that day).
pub open spec fn jalali_round_trip_date(y: int, m: int, d: int) -> bool {
    &&& y <= i32::MAX
    &&& valid_date(y, m, d)
    &&& (y > 1600 || (y == 1600 && (m > 3 || (m == 3 && d >= 20))))
    &&& gregorian_to_jalali_fits(y, m, d)
    &&& jalali_to_gregorian_fits(
        jalali_date_of(y, m, d).0,
        jalali_date_of(y, m, d).1,
        jalali_date_of(y, m, d).2,
    )
    &&& !(jalali_date_of(y, m, d).1 == 12 && jalali_date_of(y, m, d).2 == 30 && !jalali_leap(
        jalali_date_of(y, m, d).0,
    ))
}

/// The Jalali text of a Gregorian date reads back as that date, for the
/// dates of `jalali_round_trip_date`.
#[verifier::spinoff_prover]
pub proof fn jalali_text_reads_back(y: int, m: int, d: int)
    requires
        jalali_round_trip_date(y, m, d),
    ensures
        jalali_date_to_gregorian(jalali_of_gregorian_text(gregorian_text(y, m, d))) == Some(
            gregorian_text(y, m, d),
        ),
{
    lemma_gregorian_count_inverse(y, m, d);
    let g0 = greg_day_count(y, m, d);
    let j0 = g0 - 79;
    lemma_jalali_fields_inverse(j0);
    let jy = jalali_fields(j0).0;
    let jm = jalali_fields(j0).1;
    let jd = jalali_fields(j0).2;
    assert(jalali_date_of(y, m, d) == (jy, jm, jd + 1));
    lemma_jalali_text_of(y, m, d);
    assert(jalali_valid(jy, jm, jd + 1));
    assert(jy <= i32::MAX) by {
        assert(crate::date::jalali_count_fits(jy, jm, jd + 1));
    }
    lemma_jalali_text_reads(jy, jm, jd + 1);
    assert(jalali_year_days(jy) + jalali_days_before_month(jm) + (jd + 1) - 1 + 79 == g0);
    assert(crate::date::jalali_to_gregorian_text(jy, jm, jd + 1) == gregorian_text(y, m, d));
}

proof fn lemma_greg_year_days_at_least(y: int)
    requires
        y >= 1,
    ensures
        greg_year_days(y) >= 365,
{
    lemma_split(y, 400);
    let yp = y % 400;
    lemma_split(yp, 100);
    lemma_split(yp % 100, 4);
    lemma_greg_year_days_parts(y, y / 400, yp / 100, (yp % 100) / 4, (yp % 100) % 4);
}

/// The Jalali text of such a date has no whitespace around it.
pub proof fn lemma_jalali_text_trimmed(y: int, m: int, d: int)
    requires
        jalali_round_trip_date(y, m, d),
    ensures
        trimmed(jalali_of_gregorian_text(gregorian_text(y, m, d))) == jalali_of_gregorian_text(
            gregorian_text(y, m, d),
        ),
{
    lemma_gregorian_count_inverse(y, m, d);
    lemma_jalali_fields_inverse(greg_day_count(y, m, d) - 79);
    let (jy, jm, jd) = jalali_date_of(y, m, d);
    assert(jy <= i32::MAX) by {
        assert(crate::date::jalali_count_fits(jy, jm, jd));
    }
    lemma_jalali_text_of(y, m, d);
    let p = zero_padded(jy, 4);
    let r = zero_padded(jd, 2);
    lemma_zero_padded_parses(jy, 4);
    lemma_zero_padded_parses(jd, 2);
    let t = jalali_text(jy, jm, jd);
    assert(t[0] == p[0]);
    assert(t.last() == r.last());
    assert(is_digit(p[0]));
    assert(is_digit(r[r.len() - 1]));
    lemma_trimmed_same(t);
}

/// The month walk splits a day of a Gregorian year into a month (0-based) and
/// a day of it (0-based).
proof fn lemma_greg_month_walk_forward(doy: int, leap: bool)
    requires
        0 <= doy < 365 + (if leap {
            1int
        } else {
            0
        }),
    ensures
        ({
            let (gm, gd) = month_walk(doy, 0, leap);
            &&& 0 <= gm <= 11
            &&& 0 <= gd < greg_month_len(gm, leap)
            &&& greg_day_of_year(gm + 1, gd + 1, leap) == doy
        }),
{
    reveal_with_fuel(month_walk, 13);
    reveal_with_fuel(greg_days_before, 13);
}

/// Every day count from 1600-01-01 is the count of the year and day of the
/// year that the conversion's Gregorian fields give.
proof fn lemma_gregorian_fields_forward(g: int) -> (yd: (int, int))
    requires
        g >= 0,
    ensures
        yd.0 >= 0,
        0 <= yd.1 < 365 + (if greg_leap_rule(yd.0) {
            1int
        } else {
            0
        }),
        greg_year_days(yd.0) + yd.1 == g,
        gregorian_fields(g) == (
            1600 + yd.0,
            month_walk(yd.1, 0, greg_leap_rule(yd.0)).0,
            month_walk(yd.1, 0, greg_leap_rule(yd.0)).1,
        ),
{
    lemma_split(g, 146097);
    let a = g / 146097;
    let r = g % 146097;
    lemma_div_rem(g, 146097, a, r);
    let (b, g2) = if r >= 36525 {
        let h = r - 1;
        lemma_split(h, 36524);
        lemma_div_rem(h, 36524, h / 36524, h % 36524);
        let h2 = h % 36524;
        if h2 >= 365 {
            (h / 36524, h2 + 1)
        } else {
            (h / 36524, h2)
        }
    } else {
        (0int, r)
    };
    lemma_split(g2, 1461);
    let c = g2 / 1461;
    let g3 = g2 % 1461;
    lemma_div_rem(g2, 1461, c, g3);
    let (e, doy) = if g3 >= 366 {
        lemma_split(g3 - 1, 365);
        lemma_div_rem(g3 - 1, 365, (g3 - 1) / 365, (g3 - 1) % 365);
        ((g3 - 1) / 365, (g3 - 1) % 365)
    } else {
        (0int, g3)
    };
    assert(0 <= b < 4);
    assert(0 <= c < 25);
    assert(0 <= e < 4);
    let y = 400 * a + 100 * b + 4 * c + e;
    lemma_greg_year_days_parts(y, a, b, c, e);
    (y, doy)
}

/// Whether the conversion's 33-year cycle gives Jalali year `jy` (from 979
/// on) a 30th day in its last month: the years at 0, 4, ..., 28 into the
/// cycle.
pub open spec fn jalali_cycle_leap(jy: int) -> bool {
    let s = (jy - 979) % 33;
    s % 4 == 0 && s != 32
}

/// The Jalali month walk finds a month and a day of it again.
proof fn lemma_jalali_month_walk_inverse(jm: int, jd0: int)
    requires
        1 <= jm <= 12,
        0 <= jd0,
        jm <= 6 ==> jd0 < 31,
        7 <= jm <= 11 ==> jd0 < 30,
        jm == 12 ==> jd0 < 30,
    ensures
        jalali_month_walk(jalali_days_before_month(jm) + jd0, 1) == (jm, jd0),
{
    reveal_with_fuel(jalali_month_walk, 13);
}

/// The conversion's Jalali fields of the day count of a Jalali date from 979
/// on are that date, as long as a 30th day of the last month falls in a year
/// the 33-year cycle gives one.
proof fn lemma_jalali_fields_of_count(jy: int, jm: int, jd0: int)
    requires
        jy >= 979,
        1 <= jm <= 12,
        0 <= jd0,
        jm <= 6 ==> jd0 < 31,
        7 <= jm <= 11 ==> jd0 < 30,
        jm == 12 ==> jd0 < 29 || (jd0 == 29 && jalali_cycle_leap(jy)),
    ensures
        jalali_fields(jalali_year_days(jy) + jalali_days_before_month(jm) + jd0) == (jy, jm, jd0),
{
    let jy2 = jy - 979;
    lemma_split(jy2, 33);
    let np = jy2 / 33;
    let s = jy2 % 33;
    lemma_split(s, 4);
    let q = s / 4;
    let r = s % 4;
    lemma_div_rem(jy2, 33, np, s);
    if r > 0 {
        lemma_div_rem(s + 3, 4, q + 1, r - 1);
    } else {
        lemma_div_rem(s + 3, 4, q, 3);
    }
    let r1 = if r > 0 {
        1int
    } else {
        0
    };
    assert(jalali_year_days(jy) == 12053 * np + 1461 * q + 365 * r + r1);
    let doy = jalali_days_before_month(jm) + jd0;
    assert(0 <= doy <= 365);
    assert(r > 0 || s == 32 ==> doy <= 364);
    let j0 = jalali_year_days(jy) + doy;
    let j1 = 1461 * q + 365 * r + r1 + doy;
    lemma_div_rem(j0, 12053, np, j1);
    let j2 = 365 * r + r1 + doy;
    lemma_div_rem(j1, 1461, q, j2);
    if r > 0 {
        lemma_div_rem(j2 - 1, 365, r, doy);
    }
    lemma_jalali_month_walk_inverse(jm, jd0);
}

/// The conversion's count of the days before a Gregorian year is at least
/// 365 days a year.
proof fn lemma_greg_year_days_bound(y: int)
    requires
        y >= 0,
    ensures
        greg_year_days(y) >= 365 * y,
{
    lemma_split(y, 400);
    let yp = y % 400;
    lemma_split(yp, 100);
    lemma_split(yp % 100, 4);
    lemma_greg_year_days_parts(y, y / 400, yp / 100, (yp % 100) / 4, (yp % 100) % 4);
}

/// The conversion's count of the days before a Jalali year from 979 on is
/// not negative.
proof fn lemma_jalali_year_days_nonneg(jy: int)
    requires
        jy >= 979,
    ensures
        jalali_year_days(jy) >= 0,
{
    let jy2 = jy - 979;
    lemma_split(jy2, 33);
    lemma_div_rem(jy2, 33, jy2 / 33, jy2 % 33);
    lemma_split(jy2 % 33 + 3, 4);
    lemma_div_rem(jy2 % 33 + 3, 4, (jy2 % 33 + 3) / 4, (jy2 % 33 + 3) % 4);
}

/// The Gregorian date (year, month, day) the conversion gives a Jalali date.
pub open spec fn gregorian_date_of(jy: int, jm: int, jd: int) -> (int, int, int) {
    let (gy, gm, gd) = gregorian_fields(
        jalali_year_days(jy) + jalali_days_before_month(jm) + jd - 1 + 79,
    );
    (gy, gm + 1, gd + 1)
}

/// The Gregorian date the conversion gives a valid Jalali date from 979 on
/// is a valid date, and the Gregorian text is that date's.
pub proof fn gregorian_date_is_valid(jy: int, jm: int, jd: int)
    requires
        jy >= 979,
        jalali_valid(jy, jm, jd),
    ensures
        valid_date(gregorian_date_of(jy, jm, jd).0, gregorian_date_of(jy, jm, jd).1, gregorian_date_of(
            jy,
            jm,
            jd,
        ).2),
        crate::date::jalali_to_gregorian_text(jy, jm, jd) == gregorian_text(
            gregorian_date_of(jy, jm, jd).0,
            gregorian_date_of(jy, jm, jd).1,
            gregorian_date_of(jy, jm, jd).2,
        ),
{
    lemma_jalali_year_days_nonneg(jy);
    let j = jalali_year_days(jy) + jalali_days_before_month(jm) + jd - 1;
    let g = j + 79;
    let yd = lemma_gregorian_fields_forward(g);
    let y = yd.0;
    let doy = yd.1;
    let leap = greg_leap_rule(y);
    lemma_greg_month_walk_forward(doy, leap);
    let gm = month_walk(doy, 0, leap).0;
    let gd = month_walk(doy, 0, leap).1;
    let gy = 1600 + y;
    lemma_leap_rule_from_1600(gy);
    assert(greg_month_len(gm, leap) == days_in_month(gy, gm + 1));
    assert(valid_date(gy, gm + 1, gd + 1));
    assert(gregorian_date_of(jy, jm, jd) == (gy, gm + 1, gd + 1));
}

/// The Jalali dates whose Gregorian text converts back: every valid Jalali
/// date from 979 on, as far as the `i32` arithmetic of the two conversions
/// reaches, except the 30th of the last month of a year that the reader's
/// 2820-year rule counts as leap and the conversion's 33-year cycle does not
/// (the conversion counts that day as the first of the next year).
pub open spec fn gregorian_round_trip_date(jy: int, jm: int, jd: int) -> bool {
    &&& jy >= 979
    &&& jalali_valid(jy, jm, jd)
    &&& jalali_to_gregorian_fits(jy, jm, jd)
    &&& gregorian_to_jalali_fits(
        gregorian_date_of(jy, jm, jd).0,
        gregorian_date_of(jy, jm, jd).1,
        gregorian_date_of(jy, jm, jd).2,
    )
    &&& !(jm == 12 && jd == 30 && !jalali_cycle_leap(jy))
}

/// The Gregorian text of a Jalali date converts back to that date's Jalali
/// text, for the dates of `gregorian_round_trip_date`.
#[verifier::spinoff_prover]
pub proof fn gregorian_text_converts_back(jy: int, jm: int, jd: int)
    requires
        gregorian_round_trip_date(jy, jm, jd),
    ensures
        jalali_of_gregorian_text(crate::date::jalali_to_gregorian_text(jy, jm, jd)) == jalali_text(
            jy,
            jm,
            jd,
        ),
{
    lemma_jalali_year_days_nonneg(jy);
    let j = jalali_year_days(jy) + jalali_days_before_month(jm) + jd - 1;
    assert(j >= 0);
    let g = j + 79;
    assert(g <= i32::MAX) by {
        assert(crate::date::jalali_count_fits(jy, jm, jd));
    }
    let yd = lemma_gregorian_fields_forward(g);
    let y = yd.0;
    let doy = yd.1;
    let leap = greg_leap_rule(y);
    lemma_greg_month_walk_forward(doy, leap);
    let gm = month_walk(doy, 0, leap).0;
    let gd = month_walk(doy, 0, leap).1;
    let gy = 1600 + y;
    lemma_leap_rule_from_1600(gy);
    assert(greg_month_len(gm, leap) == days_in_month(gy, gm + 1));
    assert(valid_date(gy, gm + 1, gd + 1));
    assert(greg_day_count(gy, gm + 1, gd + 1) == g);
    lemma_greg_year_days_bound(y);
    assert(gy <= i32::MAX);
    assert(gregorian_date_of(jy, jm, jd) == (gy, gm + 1, gd + 1));
    lemma_jalali_text_of(gy, gm + 1, gd + 1);
    lemma_jalali_fields_of_count(jy, jm, jd - 1);
    assert(jalali_date_of(gy, gm + 1, gd + 1) == (jy, jm, jd));
}

} // verus!
