//! Reading and showing numbers in entry fields: amounts in rials with
//! grouped digits, quantities in thousandths, unit names and balances.

use vstd::prelude::*;

use crate::text::{
    all_digits, append_chars, ascii_digit_for, ascii_digit_of, chars_of, decimal,
    decimal_thousandths, digit_char, digits_up_to, digits_value, fraction_digits, grouped_integer,
    int_text, int_to_string, is_digit, lemma_decimal_len, lemma_decimal_value, lemma_digit_char,
    lemma_digits_normalized, lemma_normalized_append, lemma_thousandths_text_reads_back,
    lemma_three_digits, normalized_number, parse_grouped_integer, parse_thousandths, pow10,
    push_char, push_int, push_zero_padded, same_text, thousandths_text, trim_end_char, zero_padded,
    zeros,
};

verus! {

broadcast use vstd::string::group_string_axioms;

/// A typed amount: digits in any of the three scripts, thousands separators
/// allowed, nothing else.
pub fn parse_amount(value: &str) -> (r: Option<i64>)
    ensures
        r matches Some(x) ==> grouped_integer(value@) == Some(x as int),
        r is None ==> grouped_integer(value@) is None,
{
    parse_grouped_integer(value)
}

/// Digits of `s` grouped by threes from the right with `,` (every character,
/// a leading `-` included, counts toward a group).
pub open spec fn grouped(s: Seq<char>) -> Seq<char>
    decreases s.len(),
{
    if s.len() <= 3 {
        s
    } else {
        grouped(s.take(s.len() - 3)) + seq![','] + s.skip(s.len() - 3)
    }
}

fn push_grouped(out: &mut String, v: &Vec<char>, end: usize)
    requires
        end <= v.len(),
    ensures
        final(out)@ == old(out)@ + grouped(v@.take(end as int)),
    decreases end,
{
    if end <= 3 {
        append_chars(out, v, 0, end);
        assert(v@.subrange(0, end as int) =~= v@.take(end as int));
    } else {
        push_grouped(out, v, end - 3);
        push_char(out, ',');
        append_chars(out, v, end - 3, end);
        assert(v@.take(end as int).take(end - 3) =~= v@.take(end - 3));
        assert(v@.take(end as int).skip(end - 3) =~= v@.subrange(end - 3, end as int));
    }
}

/// `value` printed with its digits grouped by threes, as in `1,250,000`.
pub fn format_number(value: i64) -> (r: String)
    ensures
        r@ == grouped(int_text(value as int)),
{
    let digits = int_to_string(value);
    let chars = chars_of(digits.as_str());
    let mut out = String::new();
    push_grouped(&mut out, &chars, chars.len());
    assert(chars@.take(chars@.len() as int) =~= chars@);
    assert(out@ =~= grouped(int_text(value as int)));
    out
}

pub open spec fn rial_suffix() -> Seq<char> {
    " ریال"@
}

/// Number entry reads grouped digits as the digits, the commas dropped.
proof fn lemma_grouped_normalized(s: Seq<char>)
    requires
        all_digits(s),
    ensures
        normalized_number(grouped(s), false) == Some(s),
    decreases s.len(),
{
    if s.len() <= 3 {
        lemma_digits_normalized(s, false);
    } else {
        let a = s.take(s.len() - 3);
        let b = s.skip(s.len() - 3);
        assert(all_digits(a)) by {
            assert forall|i: int| 0 <= i < a.len() implies is_digit(#[trigger] a[i]) by {
                assert(a[i] == s[i]);
            }
        }
        assert(all_digits(b)) by {
            assert forall|i: int| 0 <= i < b.len() implies is_digit(#[trigger] b[i]) by {
                assert(b[i] == s[i + s.len() - 3]);
            }
        }
        lemma_grouped_normalized(a);
        lemma_digits_normalized(b, false);
        let comma = seq![','];
        assert(comma.drop_last() =~= Seq::<char>::empty());
        assert(normalized_number(comma, false) == Some(Seq::<char>::empty())) by {
            assert(normalized_number(Seq::<char>::empty(), false) == Some(Seq::<char>::empty()));
            assert(ascii_digit_for(',') is None);
        }
        lemma_normalized_append(grouped(a), comma, false);
        lemma_normalized_append(grouped(a) + comma, b, false);
        assert(a + Seq::<char>::empty() + b =~= s);
    }
}

/// An amount that is not negative, printed with its digits grouped, reads
/// back as the same amount.
pub proof fn formatted_amount_reads_back(v: int)
    requires
        0 <= v <= i64::MAX,
    ensures
        grouped_integer(grouped(int_text(v))) == Some(v),
{
    lemma_decimal_value(v as nat);
    lemma_decimal_len(v as nat);
    lemma_grouped_normalized(decimal(v as nat));
}

/// An amount in rials with grouped digits.
pub fn format_amount(value: i64) -> (r: String)
    ensures
        r@ == grouped(int_text(value as int)) + rial_suffix(),
{
    let mut out = format_number(value);
    out.append(" ریال");
    out
}

/// How a customer balance reads: what is owed, what is due back, or settled.
pub open spec fn balance_text(value: int) -> Seq<char> {
    if value > 0 {
        "بدهکار • "@ + grouped(int_text(value)) + rial_suffix()
    } else if value < 0 {
        "بستانکار • "@ + grouped(int_text(-value)) + rial_suffix()
    } else {
        "تسویه"@
    }
}

pub fn balance_label(value: i64) -> (r: String)
    requires
        value != i64::MIN,
    ensures
        r@ == balance_text(value as int),
{
    if value > 0 {
        let mut out = String::from_str("بدهکار • ");
        out.append(format_amount(value).as_str());
        out
    } else if value < 0 {
        let mut out = String::from_str("بستانکار • ");
        out.append(format_amount(-value).as_str());
        out
    } else {
        String::from_str("تسویه")
    }
}

/// The unit code stored for the position in the unit picker.
pub open spec fn unit_code_for(index: int) -> Seq<char> {
    if index == 0 {
        "each"@
    } else if index == 1 {
        "kilogram"@
    } else if index == 2 {
        "gram"@
    } else if index == 3 {
        "liter"@
    } else if index == 4 {
        "meter"@
    } else if index == 5 {
        "hour"@
    } else if index == 6 {
        "session"@
    } else {
        "custom"@
    }
}

pub fn unit_code(index: i32) -> (r: &'static str)
    ensures
        r@ == unit_code_for(index as int),
{
    if index == 0 {
        "each"
    } else if index == 1 {
        "kilogram"
    } else if index == 2 {
        "gram"
    } else if index == 3 {
        "liter"
    } else if index == 4 {
        "meter"
    } else if index == 5 {
        "hour"
    } else if index == 6 {
        "session"
    } else {
        "custom"
    }
}

/// The Persian name shown for a unit code; unknown codes read as "custom".
pub open spec fn unit_name(code: Seq<char>) -> Seq<char> {
    if code == "each"@ {
        "عدد"@
    } else if code == "kilogram"@ {
        "کیلوگرم"@
    } else if code == "gram"@ {
        "گرم"@
    } else if code == "liter"@ {
        "لیتر"@
    } else if code == "meter"@ {
        "متر"@
    } else if code == "hour"@ {
        "ساعت"@
    } else if code == "session"@ {
        "جلسه"@
    } else {
        "سفارشی"@
    }
}

pub fn unit_label(code: &str) -> (r: &'static str)
    ensures
        r@ == unit_name(code@),
{
    if same_text(code, "each") {
        "عدد"
    } else if same_text(code, "kilogram") {
        "کیلوگرم"
    } else if same_text(code, "gram") {
        "گرم"
    } else if same_text(code, "liter") {
        "لیتر"
    } else if same_text(code, "meter") {
        "متر"
    } else if same_text(code, "hour") {
        "ساعت"
    } else if same_text(code, "session") {
        "جلسه"
    } else {
        "سفارشی"
    }
}

/// A typed quantity in thousandths of a unit (see `decimal_thousandths`).
pub fn parse_quantity_value(value: &str) -> (r: Option<i64>)
    ensures
        r matches Some(x) ==> decimal_thousandths(value@) == Some(x as int),
        r is None ==> decimal_thousandths(value@) is None,
{
    parse_thousandths(value)
}

/// A typed quantity that must be greater than zero.
pub fn parse_quantity(value: &str) -> (r: Option<i64>)
    ensures
        r matches Some(x) ==> x > 0 && decimal_thousandths(value@) == Some(x as int),
        r is None ==> !(decimal_thousandths(value@) matches Some(v) && v > 0),
{
    match parse_quantity_value(value) {
        Some(v) if v > 0 => Some(v),
        _ => None,
    }
}

/// A typed quantity that may be zero.
pub fn parse_nonnegative_quantity(value: &str) -> (r: Option<i64>)
    ensures
        r matches Some(x) ==> decimal_thousandths(value@) == Some(x as int),
        r is None ==> decimal_thousandths(value@) is None,
{
    parse_quantity_value(value)
}

/// A quantity in thousandths as text: the whole part, and when the
/// thousandths are not zero a `.` and them without trailing zeros. Both parts
/// are Rust's truncating quotient and remainder by 1000.
pub open spec fn quantity_text(value: int) -> Seq<char> {
    let whole = crate::models::div_trunc(value, 1000);
    let fraction = value - 1000 * whole;
    if fraction == 0 {
        int_text(whole)
    } else {
        trim_end_char(int_text(whole) + seq!['.'] + zero_padded(fraction, 3), '0')
    }
}

fn trim_trailing_zeros(s: String) -> (r: String)
    ensures
        r@ == trim_end_char(s@, '0'),
{
    let chars = chars_of(s.as_str());
    let mut end = chars.len();
    assert(chars@.take(end as int) =~= chars@);
    while end > 0 && chars[end - 1] == '0'
        invariant
            end <= chars.len(),
            trim_end_char(chars@, '0') == trim_end_char(chars@.take(end as int), '0'),
        decreases end,
    {
        assert(chars@.take(end as int).drop_last() =~= chars@.take(end - 1));
        end = end - 1;
    }
    let mut out = String::new();
    append_chars(&mut out, &chars, 0, end);
    assert(chars@.subrange(0, end as int) =~= chars@.take(end as int));
    assert(out@ =~= trim_end_char(s@, '0'));
    out
}

/// For a quantity that is not negative, its text is the decimal number its
/// thousandths stand for.
proof fn lemma_quantity_text_of_count(v: int)
    requires
        0 <= v <= i64::MAX,
    ensures
        quantity_text(v) == thousandths_text(v),
{
    let w = v / 1000;
    let f = v % 1000;
    vstd::arithmetic::div_mod::lemma_fundamental_div_mod(v, 1000);
    assert(crate::models::div_trunc(v, 1000) == w);
    if f != 0 {
        let fnat = f as nat;
        lemma_three_digits(fnat);
        let a = fnat / 100;
        let b = (fnat / 10) % 10;
        let c = fnat % 10;
        lemma_digit_char(a);
        lemma_digit_char(b);
        lemma_digit_char(c);
        lemma_digit_char(0);
        let z = zero_padded(f, 3);
        vstd::arithmetic::div_mod::lemma_div_denominator(f, 10, 10);
        if f >= 100 {
            assert(decimal(fnat / 10) == decimal(fnat / 100).push(digit_char(b)));
            assert(decimal(fnat / 100) == seq![digit_char(a)]);
            assert(zeros(0) =~= Seq::<char>::empty());
        } else if f >= 10 {
            assert(decimal(fnat / 10) == seq![digit_char(b)]);
            assert(zeros(1) =~= seq!['0']);
        } else {
            assert(zeros(2) =~= seq!['0', '0']);
        }
        assert(z =~= seq![digit_char(a), digit_char(b), digit_char(c)]);
        let head = int_text(w) + seq!['.'];
        let full = head + z;
        assert(int_text(w) == decimal(w as nat));
        assert(digit_char(0) == '0');
        let body = if c != 0 {
            assert(digit_char(c) != '0');
            assert(fraction_digits(fnat) =~= z);
            assert(trim_end_char(full, '0') == full);
            full
        } else if b != 0 {
            assert(digit_char(b) != '0');
            assert(full.last() == '0');
            assert(full.drop_last() =~= head + seq![digit_char(a), digit_char(b)]);
            assert(trim_end_char(full.drop_last(), '0') == full.drop_last());
            assert(trim_end_char(full, '0') == full.drop_last());
            assert(fraction_digits(fnat) =~= seq![digit_char(a), digit_char(b)]);
            full.drop_last()
        } else {
            assert(digit_char(a) != '0');
            assert(full.last() == '0');
            assert(full.drop_last() =~= head + seq![digit_char(a), digit_char(b)]);
            assert(full.drop_last().last() == '0');
            assert(full.drop_last().drop_last() =~= head + seq![digit_char(a)]);
            assert(trim_end_char(full.drop_last().drop_last(), '0') == full.drop_last().drop_last());
            assert(trim_end_char(full.drop_last(), '0') == full.drop_last().drop_last());
            assert(trim_end_char(full, '0') == full.drop_last().drop_last());
            assert(fraction_digits(fnat) =~= seq![digit_char(a)]);
            full.drop_last().drop_last()
        };
        assert(quantity_text(v) == trim_end_char(full, '0'));
        assert(trim_end_char(full, '0') == body);
        assert(body =~= decimal(w as nat) + seq!['.'] + fraction_digits(fnat));
        assert(thousandths_text(v) == decimal(w as nat) + seq!['.'] + fraction_digits(fnat));
    }
}

/// A quantity that is not negative, written as text, reads back as the
/// same quantity.
pub proof fn quantity_text_reads_back(v: int)
    requires
        0 <= v <= i64::MAX,
    ensures
        decimal_thousandths(quantity_text(v)) == Some(v),
{
    lemma_quantity_text_of_count(v);
    lemma_thousandths_text_reads_back(v);
}

pub fn format_quantity(value: i64) -> (r: String)
    ensures
        r@ == quantity_text(value as int),
{
    let whole = value / 1000;
    let fraction = value % 1000;
    if fraction == 0 {
        int_to_string(whole)
    } else {
        let mut text = String::new();
        push_int(&mut text, whole);
        push_char(&mut text, '.');
        push_zero_padded(&mut text, fraction, 3);
        assert(text@ =~= int_text(whole as int) + seq!['.'] + zero_padded(fraction as int, 3));
        trim_trailing_zeros(text)
    }
}

// ---------------------------------------------------------------------
// The price entry field
// ---------------------------------------------------------------------

/// The bytes a character takes in UTF-8.
pub open spec fn utf8_width(c: char) -> nat {
    let v = c as u32;
    if v < 0x80 {
        1
    } else if v < 0x800 {
        2
    } else if v < 0x10000 {
        3
    } else {
        4
    }
}

/// The length of a text in UTF-8 bytes.
pub open spec fn utf8_len(s: Seq<char>) -> nat
    decreases s.len(),
{
    if s.len() == 0 {
        0
    } else {
        utf8_len(s.drop_last()) + utf8_width(s.last())
    }
}

/// Byte offset `b` falls between two characters of `s` (or at an end).
pub open spec fn on_char_boundary(s: Seq<char>, b: int) -> bool {
    exists|k: int| 0 <= k <= s.len() && #[trigger] utf8_len(s.take(k)) == b
}

/// The index of the first character that starts at or after byte `b`.
pub open spec fn char_at_byte(s: Seq<char>, b: int) -> int
    decreases s.len(),
{
    if s.len() == 0 || b <= 0 {
        0
    } else {
        1 + char_at_byte(s.drop_first(), b - utf8_width(s[0]))
    }
}

/// How many characters of `s` are digits in any of the three scripts.
pub open spec fn digit_like_count(s: Seq<char>) -> nat
    decreases s.len(),
{
    if s.len() == 0 {
        0
    } else {
        digit_like_count(s.drop_last()) + if ascii_digit_for(s.last()) is Some {
            1nat
        } else {
            0nat
        }
    }
}

/// How many characters of `s` are ASCII digits.
pub open spec fn ascii_digit_count(s: Seq<char>) -> nat
    decreases s.len(),
{
    if s.len() == 0 {
        0
    } else {
        ascii_digit_count(s.drop_last()) + if is_digit(s.last()) {
            1nat
        } else {
            0nat
        }
    }
}

/// The digits of `s` in any script, as ASCII digits; everything else dropped.
pub open spec fn ascii_digits_of(s: Seq<char>) -> Seq<char>
    decreases s.len(),
{
    if s.len() == 0 {
        Seq::empty()
    } else {
        let p = ascii_digits_of(s.drop_last());
        match ascii_digit_for(s.last()) {
            Some(d) => p.push(d),
            None => p,
        }
    }
}

/// The first position `k >= from` of `s` with exactly `d` ASCII digits from
/// there to the end, or `s.len()`.
pub open spec fn position_with_digits_after(s: Seq<char>, d: int, from: int) -> int
    decreases s.len() - from,
{
    if from >= s.len() {
        s.len() as int
    } else if ascii_digit_count(s.skip(from)) == d {
        from
    } else {
        position_with_digits_after(s, d, from + 1)
    }
}

/// The byte offset in `s` that has `d` ASCII digits to its right: the
/// earliest such offset, the end when `d` is 0 or no offset has them.
pub open spec fn cursor_target(s: Seq<char>, d: int) -> int {
    if d == 0 {
        utf8_len(s) as int
    } else {
        utf8_len(s.take(position_with_digits_after(s, d, 0))) as int
    }
}

fn utf8_width_of(c: char) -> (r: u8)
    ensures
        r == utf8_width(c),
{
    let v = c as u32;
    if v < 0x80 {
        1
    } else if v < 0x800 {
        2
    } else if v < 0x10000 {
        3
    } else {
        4
    }
}

proof fn lemma_utf8_len_bound(s: Seq<char>)
    ensures
        s.len() <= utf8_len(s) <= 4 * s.len(),
    decreases s.len(),
{
    if s.len() > 0 {
        lemma_utf8_len_bound(s.drop_last());
    }
}

proof fn lemma_utf8_len_ascii(s: Seq<char>)
    requires
        forall|i: int| 0 <= i < s.len() ==> (#[trigger] s[i] as u32) < 0x80,
    ensures
        utf8_len(s) == s.len(),
    decreases s.len(),
{
    if s.len() > 0 {
        lemma_utf8_len_ascii(s.drop_last());
    }
}

/// The length in UTF-8 bytes of the characters.
fn utf8_len_of(v: &Vec<char>) -> (r: u128)
    ensures
        r == utf8_len(v@),
{
    let mut total: u128 = 0;
    let mut i: usize = 0;
    assert(v@.take(0) =~= Seq::<char>::empty());
    while i < v.len()
        invariant
            i <= v.len(),
            total == utf8_len(v@.take(i as int)),
        decreases v.len() - i,
    {
        proof {
            lemma_utf8_len_bound(v@.take(i as int));
        }
        assert(v@.take(i + 1).drop_last() =~= v@.take(i as int));
        total = total + utf8_width_of(v[i]) as u128;
        i = i + 1;
    }
    assert(v@.take(v@.len() as int) =~= v@);
    total
}

/// The byte offset in `value` that has `digits_to_right` ASCII digits to its
/// right (see `cursor_target`).
pub fn cursor_for_digits_to_right(value: &str, digits_to_right: usize) -> (r: usize)
    requires
        utf8_len(value@) <= usize::MAX,
    ensures
        r == cursor_target(value@, digits_to_right as int),
{
    let chars = chars_of(value);
    let ghost s = chars@;
    let total = utf8_len_of(&chars);
    if digits_to_right == 0 {
        return total as usize;
    }
    let mut remaining: usize = 0;
    let mut j: usize = chars.len();
    assert(s.skip(j as int) =~= Seq::<char>::empty());
    while j > 0
        invariant
            j <= chars.len(),
            s == chars@,
            remaining == ascii_digit_count(s.skip(j as int)),
            remaining <= chars.len() - j,
        decreases j,
    {
        j = j - 1;
        proof {
            lemma_digit_count_front(s.skip(j as int));
            assert(s.skip(j as int).drop_first() =~= s.skip(j + 1));
        }
        let c = chars[j];
        if 0x30 <= c as u32 && c as u32 <= 0x39 {
            remaining = remaining + 1;
        }
    }
    let mut offset: u128 = 0;
    let mut i: usize = 0;
    assert(s.take(0) =~= Seq::<char>::empty());
    assert(s.skip(0) =~= s);
    while i < chars.len()
        invariant
            i <= chars.len(),
            s == chars@,
            digits_to_right > 0,
            s == value@,
            offset == utf8_len(s.take(i as int)),
            offset <= total == utf8_len(s),
            remaining == ascii_digit_count(s.skip(i as int)),
            position_with_digits_after(s, digits_to_right as int, 0) == position_with_digits_after(
                s,
                digits_to_right as int,
                i as int,
            ),
            utf8_len(s) <= usize::MAX,
        decreases chars.len() - i,
    {
        if remaining == digits_to_right {
            assert(position_with_digits_after(s, digits_to_right as int, i as int) == i);
            return offset as usize;
        }
        proof {
            lemma_digit_count_front(s.skip(i as int));
            assert(s.skip(i as int).drop_first() =~= s.skip(i + 1));
            assert(s.take(i + 1).drop_last() =~= s.take(i as int));
            lemma_utf8_len_prefix(s, i + 1);
        }
        let c = chars[i];
        if 0x30 <= c as u32 && c as u32 <= 0x39 {
            remaining = remaining - 1;
        }
        offset = offset + utf8_width_of(c) as u128;
        i = i + 1;
    }
    assert(s.take(s.len() as int) =~= s);
    total as usize
}

proof fn lemma_digit_count_front(s: Seq<char>)
    requires
        s.len() > 0,
    ensures
        ascii_digit_count(s) == ascii_digit_count(s.drop_first()) + if is_digit(s[0]) {
            1nat
        } else {
            0nat
        },
    decreases s.len(),
{
    if s.len() > 1 {
        lemma_digit_count_front(s.drop_last());
        assert(s.drop_last().drop_first() =~= s.drop_first().drop_last());
        assert(s.drop_first().last() == s.last());
        assert(s.drop_last()[0] == s[0]);
    } else {
        assert(s.drop_first() =~= Seq::<char>::empty());
        assert(s.drop_last() =~= Seq::<char>::empty());
    }
}

proof fn lemma_utf8_len_prefix(s: Seq<char>, k: int)
    requires
        0 <= k <= s.len(),
    ensures
        utf8_len(s.take(k)) <= utf8_len(s),
    decreases s.len() - k,
{
    if k < s.len() {
        lemma_utf8_len_prefix(s, k + 1);
        assert(s.take(k + 1).drop_last() =~= s.take(k));
    } else {
        assert(s.take(k) =~= s);
    }
}

proof fn lemma_decimal_below(n: nat, k: nat)
    requires
        k >= 1,
        n < pow10(k),
    ensures
        decimal(n).len() <= k,
        forall|i: int| 0 <= i < decimal(n).len() ==> (#[trigger] decimal(n)[i] as u32) < 0x80,
    decreases n,
{
    if n >= 10 {
        assert(k >= 2) by {
            if k == 1 {
                assert(pow10(1) == 10 * pow10(0));
            }
        }
        let k1 = (k - 1) as nat;
        assert(pow10(k) == 10 * pow10(k1));
        assert(n / 10 < pow10(k1)) by (nonlinear_arith)
            requires
                n < 10 * pow10(k1),
        {
        }
        lemma_decimal_below(n / 10, k1);
        let d = n % 10;
        assert(((48 + d) as char) as u32 == 48 + d);
        assert forall|i: int| 0 <= i < decimal(n).len() implies (#[trigger] decimal(n)[i] as u32)
            < 0x80 by {
            if i < decimal(n / 10).len() {
                assert(decimal(n)[i] == decimal(n / 10)[i]);
            }
        }
    } else {
        assert(((48 + n) as char) as u32 == 48 + n);
    }
}

proof fn lemma_decimal_shape(n: nat)
    requires
        n <= i64::MAX,
    ensures
        decimal(n).len() <= 19,
        forall|i: int| 0 <= i < decimal(n).len() ==> (#[trigger] decimal(n)[i] as u32) < 0x80,
{
    assert(pow10(19) == 10000000000000000000) by {
        reveal_with_fuel(pow10, 20);
    }
    lemma_decimal_below(n, 19);
}

/// A price field after an edit: the text with its digits grouped, and the
/// caret as a byte offset.
#[derive(Debug, Clone, PartialEq, Eq)]
pub struct FormattedInput {
    pub text: String,
    pub cursor: i32,
}

/// The text a price field shows for its digits: grouped when they fit in
/// `i64`, else the digits as they are.
pub open spec fn price_input_text(digits: Seq<char>) -> Seq<char> {
    if digits_value(digits) <= i64::MAX {
        grouped(int_text(digits_value(digits) as int))
    } else {
        digits
    }
}

/// The byte offset the caret stands at: a negative or past-the-end caret
/// stands at the end.
pub open spec fn clamped_caret(s: Seq<char>, cursor: int) -> int {
    if cursor < 0 || cursor >= utf8_len(s) {
        utf8_len(s) as int
    } else {
        cursor
    }
}

proof fn lemma_ascii_digits(s: Seq<char>)
    ensures
        all_digits(ascii_digits_of(s)),
        ascii_digits_of(s).len() <= s.len(),
    decreases s.len(),
{
    if s.len() > 0 {
        lemma_ascii_digits(s.drop_last());
        let c = s.last();
        let v = c as u32;
        if 0x6f0 <= v <= 0x6f9 {
            assert(((48 + (v - 0x6f0)) as char) as u32 == 48 + (v - 0x6f0));
        }
        if 0x660 <= v <= 0x669 {
            assert(((48 + (v - 0x660)) as char) as u32 == 48 + (v - 0x660));
        }
    }
}

proof fn lemma_grouped_ascii(s: Seq<char>)
    requires
        forall|i: int| 0 <= i < s.len() ==> (#[trigger] s[i] as u32) < 0x80,
    ensures
        forall|i: int| 0 <= i < grouped(s).len() ==> (#[trigger] grouped(s)[i] as u32) < 0x80,
        grouped(s).len() <= 2 * s.len(),
    decreases s.len(),
{
    if s.len() > 3 {
        let a = s.take(s.len() - 3);
        assert forall|i: int| 0 <= i < a.len() implies (#[trigger] a[i] as u32) < 0x80 by {
            assert(a[i] == s[i]);
        }
        lemma_grouped_ascii(a);
        let g = grouped(s);
        let b = s.skip(s.len() - 3);
        assert(g == grouped(a) + seq![','] + b);
        assert forall|i: int| 0 <= i < g.len() implies (#[trigger] g[i] as u32) < 0x80 by {
            if i < grouped(a).len() {
            } else if i == grouped(a).len() {
            } else {
                assert(g[i] == b[i - grouped(a).len() - 1]);
            }
        }
    }
}

/// Searching from `from` finds a position with `d` digits after it when there
/// are at least `d` digits from `from` on, and reaches the end otherwise.
proof fn lemma_position_with_digits(s: Seq<char>, d: int, from: int)
    requires
        0 <= from <= s.len(),
        0 <= d,
    ensures
        from <= position_with_digits_after(s, d, from) <= s.len(),
        d <= ascii_digit_count(s.skip(from)) ==> ascii_digit_count(
            s.skip(position_with_digits_after(s, d, from)),
        ) == d,
        d > ascii_digit_count(s.skip(from)) ==> position_with_digits_after(s, d, from) == s.len(),
    decreases s.len() - from,
{
    if from < s.len() {
        lemma_digit_count_front(s.skip(from));
        assert(s.skip(from).drop_first() =~= s.skip(from + 1));
        lemma_position_with_digits(s, d, from + 1);
    } else {
        assert(s.skip(from) =~= Seq::<char>::empty());
    }
}

/// The text a price field shows is plain ASCII.
proof fn lemma_price_text_ascii(digits: Seq<char>)
    requires
        all_digits(digits),
    ensures
        forall|i: int|
            0 <= i < price_input_text(digits).len() ==> (#[trigger] price_input_text(digits)[i] as u32)
                < 0x80,
{
    if digits_value(digits) <= i64::MAX {
        lemma_decimal_shape(digits_value(digits));
        lemma_grouped_ascii(decimal(digits_value(digits)));
    } else {
        assert forall|i: int| 0 <= i < digits.len() implies (#[trigger] digits[i] as u32) < 0x80 by {
            assert(is_digit(digits[i]));
        }
    }
}

/// The caret of a reformatted price field keeps the digits it had to its
/// right: it has exactly as many to its right in the new text, or, when the
/// new text holds fewer digits than that (leading zeros dropped), it stands
/// at the end.
pub proof fn price_caret_keeps_digits_to_its_right(value: Seq<char>, cursor: int)
    requires
        ascii_digits_of(value).len() > 0,
    ensures
        ({
            let t = price_input_text(ascii_digits_of(value));
            let n = digit_like_count(value.skip(char_at_byte(value, clamped_caret(value, cursor))));
            let c = cursor_target(t, n as int);
            &&& 0 <= c <= t.len()
            &&& n <= ascii_digit_count(t) ==> ascii_digit_count(t.skip(c)) == n
            &&& n > ascii_digit_count(t) ==> c == t.len()
        }),
{
    let digits = ascii_digits_of(value);
    let t = price_input_text(digits);
    let n = digit_like_count(value.skip(char_at_byte(value, clamped_caret(value, cursor))));
    lemma_ascii_digits(value);
    lemma_price_text_ascii(digits);
    lemma_utf8_len_ascii(t);
    assert(t.skip(0) =~= t);
    lemma_position_with_digits(t, n as int, 0);
    let k = position_with_digits_after(t, n as int, 0);
    assert forall|i: int| 0 <= i < t.take(k).len() implies (#[trigger] t.take(k)[i] as u32) < 0x80 by {
        assert(t.take(k)[i] == t[i]);
    }
    lemma_utf8_len_ascii(t.take(k));
    if n == 0 {
        assert(t.skip(t.len() as int) =~= Seq::<char>::empty());
    }
}

/// Reformats a price field after an edit: the digits typed in any script
/// become ASCII and are grouped by threes, and the caret keeps the same
/// number of digits to its right.
pub fn format_price_input(value: &str, cursor: i32) -> (r: FormattedInput)
    requires
        clamped_caret(value@, cursor as int) == utf8_len(value@) || on_char_boundary(
            value@,
            cursor as int,
        ),
    ensures
        ascii_digits_of(value@).len() == 0 ==> r.text@ == Seq::<char>::empty() && r.cursor == 0,
        ascii_digits_of(value@).len() > 0 ==> r.text@ == price_input_text(ascii_digits_of(value@))
            && r.cursor == cursor_target(
            price_input_text(ascii_digits_of(value@)),
            digit_like_count(value@.skip(char_at_byte(value@, clamped_caret(value@, cursor as int))))
                as int,
        ) as i32,
{
    let chars = chars_of(value);
    let ghost s = chars@;
    let total = utf8_len_of(&chars);
    let caret: u128 = if cursor < 0 || cursor as u128 >= total {
        total
    } else {
        cursor as u128
    };
    let mut k: usize = 0;
    let mut offset: u128 = 0;
    assert(s.skip(0) =~= s);
    assert(s.take(0) =~= Seq::<char>::empty());
    while k < chars.len() && offset < caret
        invariant
            k <= chars.len(),
            s == chars@,
            offset == utf8_len(s.take(k as int)),
            caret <= total == utf8_len(s),
            char_at_byte(s, caret as int) == k + char_at_byte(s.skip(k as int), caret - offset),
        decreases chars.len() - k,
    {
        proof {
            let t = s.skip(k as int);
            assert(t[0] == s[k as int]);
            assert(t.drop_first() =~= s.skip(k + 1));
            assert(s.take(k + 1).drop_last() =~= s.take(k as int));
            lemma_utf8_len_prefix(s, k + 1);
        }
        offset = offset + utf8_width_of(chars[k]) as u128;
        k = k + 1;
    }
    proof {
        if k == chars.len() {
            assert(s.skip(k as int) =~= Seq::<char>::empty());
        }
    }
    let mut digits_to_right: usize = 0;
    let mut j: usize = k;
    assert(s.skip(k as int).take(0) =~= Seq::<char>::empty());
    while j < chars.len()
        invariant
            k <= j <= chars.len(),
            s == chars@,
            digits_to_right == digit_like_count(s.skip(k as int).take(j - k)),
            digits_to_right <= j - k,
        decreases chars.len() - j,
    {
        assert(s.skip(k as int).take(j - k + 1).drop_last() =~= s.skip(k as int).take(j - k));
        assert(s.skip(k as int).take(j - k + 1).last() == s[j as int]);
        if ascii_digit_of(chars[j]).is_some() {
            digits_to_right = digits_to_right + 1;
        }
        j = j + 1;
    }
    assert(s.skip(k as int).take(chars.len() - k) =~= s.skip(k as int));
    let mut digits: Vec<char> = Vec::new();
    let mut i: usize = 0;
    assert(s.take(0) =~= Seq::<char>::empty());
    while i < chars.len()
        invariant
            i <= chars.len(),
            s == chars@,
            digits@ == ascii_digits_of(s.take(i as int)),
        decreases chars.len() - i,
    {
        assert(s.take(i + 1).drop_last() =~= s.take(i as int));
        match ascii_digit_of(chars[i]) {
            Some(d) => {
                digits.push(d);
            },
            None => {},
        }
        i = i + 1;
    }
    assert(s.take(s.len() as int) =~= s);
    proof {
        lemma_ascii_digits(s);
    }
    if digits.len() == 0 {
        return FormattedInput { text: String::new(), cursor: 0 };
    }
    assert(digits@.subrange(0, digits@.len() as int) =~= digits@);
    let formatted = match digits_up_to(&digits, 0, digits.len(), 9223372036854775807u64) {
        Some(v) => format_number(v as i64),
        None => {
            let mut out = String::new();
            append_chars(&mut out, &digits, 0, digits.len());
            out
        },
    };
    proof {
        let f = formatted@;
        if digits_value(digits@) <= i64::MAX {
            let n = digits_value(digits@);
            lemma_decimal_shape(n);
            lemma_grouped_ascii(decimal(n));
        } else {
            assert forall|i: int| 0 <= i < f.len() implies (#[trigger] f[i] as u32) < 0x80 by {
                assert(is_digit(digits@[i]));
            }
        }
        lemma_utf8_len_ascii(f);
    }
    let caret_after = cursor_for_digits_to_right(formatted.as_str(), digits_to_right);
    FormattedInput { text: formatted, cursor: caret_after as i32 }
}

} // verus!
