//! Character-level text handling shared by the parsers and formatters:
//! whitespace trimming, splitting, decimal parsing and decimal printing.

use vstd::prelude::*;

verus! {

broadcast use vstd::string::group_string_axioms;

// ---------------------------------------------------------------------
// Whitespace and trimming
// ---------------------------------------------------------------------

/// The characters with the Unicode `White_Space` property, which is the set
/// that `char::is_whitespace` and `str::trim` use.
pub open spec fn is_space(c: char) -> bool {
    let v = c as u32;
    ||| 0x09 <= v <= 0x0d
    ||| v == 0x20
    ||| v == 0x85
    ||| v == 0xa0
    ||| v == 0x1680
    ||| 0x2000 <= v <= 0x200a
    ||| v == 0x2028
    ||| v == 0x2029
    ||| v == 0x202f
    ||| v == 0x205f
    ||| v == 0x3000
}

/// `s` without its leading whitespace.
pub open spec fn trim_start(s: Seq<char>) -> Seq<char>
    decreases s.len(),
{
    if s.len() > 0 && is_space(s[0]) {
        trim_start(s.drop_first())
    } else {
        s
    }
}

/// `s` without its trailing whitespace.
pub open spec fn trim_end(s: Seq<char>) -> Seq<char>
    decreases s.len(),
{
    if s.len() > 0 && is_space(s.last()) {
        trim_end(s.drop_last())
    } else {
        s
    }
}

/// `s` without leading or trailing whitespace, as `str::trim` gives it.
pub open spec fn trimmed(s: Seq<char>) -> Seq<char> {
    trim_end(trim_start(s))
}

/// A text is blank when nothing is left of it after trimming.
pub open spec fn is_blank(s: Seq<char>) -> bool {
    trimmed(s).len() == 0
}

/// The view of an optional string.
pub open spec fn opt_string_view(o: Option<String>) -> Option<Seq<char>> {
    match o {
        Some(s) => Some(s@),
        None => None,
    }
}

/// The view of an optional string slice.
pub open spec fn opt_str_view(o: Option<&str>) -> Option<Seq<char>> {
    match o {
        Some(s) => Some(s@),
        None => None,
    }
}

/// An optional field: none when blank, else the trimmed text.
pub open spec fn optional_text(v: Seq<char>) -> Option<Seq<char>> {
    if is_blank(v) {
        None
    } else {
        Some(trimmed(v))
    }
}

/// An optional field as typed: none when blank, else the trimmed text.
pub fn optional_field(s: &str) -> (r: Option<String>)
    ensures
        opt_string_view(r) == optional_text(s@),
{
    if blank(s) {
        None
    } else {
        Some(trim(s))
    }
}

/// Trimming leaves a text alone when neither of its ends is whitespace.
pub proof fn lemma_trimmed_same(s: Seq<char>)
    requires
        s.len() > 0,
        !is_space(s[0]),
        !is_space(s.last()),
    ensures
        trimmed(s) == s,
        !is_blank(s),
{
    assert(trim_start(s) == s);
    assert(trim_end(s) == s);
}

/// What is left after the leading whitespace does not start with it.
proof fn lemma_trim_start_first(s: Seq<char>)
    ensures
        trim_start(s).len() > 0 ==> !is_space(trim_start(s)[0]),
    decreases s.len(),
{
    if s.len() > 0 && is_space(s[0]) {
        lemma_trim_start_first(s.drop_first());
    }
}

/// What is left after the trailing whitespace is a start of the text that
/// does not end with whitespace.
proof fn lemma_trim_end_prefix(t: Seq<char>)
    ensures
        trim_end(t).len() <= t.len(),
        trim_end(t) == t.take(trim_end(t).len() as int),
        trim_end(t).len() > 0 ==> !is_space(trim_end(t).last()),
    decreases t.len(),
{
    if t.len() > 0 && is_space(t.last()) {
        lemma_trim_end_prefix(t.drop_last());
        assert(t.drop_last().take(trim_end(t).len() as int) =~= t.take(trim_end(t).len() as int));
    } else {
        assert(t.take(t.len() as int) =~= t);
    }
}

/// Trimming a text that is not blank gives a text that trimming leaves
/// alone, and that is not blank either.
pub proof fn lemma_trimmed_twice(s: Seq<char>)
    requires
        !is_blank(s),
    ensures
        trimmed(trimmed(s)) == trimmed(s),
        !is_blank(trimmed(s)),
{
    let a = trim_start(s);
    let r = trimmed(s);
    lemma_trim_start_first(s);
    lemma_trim_end_prefix(a);
    assert(r.len() > 0);
    assert(r[0] == a[0]);
    lemma_trimmed_same(r);
}

pub fn char_is_space(c: char) -> (r: bool)
    ensures
        r == is_space(c),
{
    let v = c as u32;
    (0x09 <= v && v <= 0x0d) || v == 0x20 || v == 0x85 || v == 0xa0 || v == 0x1680 || (0x2000
        <= v && v <= 0x200a) || v == 0x2028 || v == 0x2029 || v == 0x202f || v == 0x205f || v
        == 0x3000
}

/// Calls `String::push`: afterwards the string is the old one with `c` appended.
#[verifier::external_body]
pub(crate) fn push_char(s: &mut String, c: char)
    ensures
        final(s)@ == old(s)@.push(c),
{
    s.push(c);
}

/// The characters of a string slice, in order.
pub fn chars_of(s: &str) -> (v: Vec<char>)
    ensures
        v@ == s@,
{
    let mut v: Vec<char> = Vec::new();
    for c in it: s.chars()
        invariant
            v@ == it.seq().take(it.index() as int),
    {
        v.push(c);
    }
    assert(v@ == s@);
    v
}

/// A string holding `v[from..to]`.
pub fn string_from(v: &Vec<char>, from: usize, to: usize) -> (r: String)
    requires
        from <= to <= v.len(),
    ensures
        r@ == v@.subrange(from as int, to as int),
{
    let mut r = String::new();
    let mut i = from;
    while i < to
        invariant
            from <= i <= to <= v.len(),
            r@ == v@.subrange(from as int, i as int),
        decreases to - i,
    {
        push_char(&mut r, v[i]);
        i = i + 1;
        assert(r@ == v@.subrange(from as int, i as int));
    }
    r
}

/// Appends `v[from..to]` to `out`.
pub fn append_chars(out: &mut String, v: &Vec<char>, from: usize, to: usize)
    requires
        from <= to <= v.len(),
    ensures
        final(out)@ == old(out)@ + v@.subrange(from as int, to as int),
{
    let mut i = from;
    while i < to
        invariant
            from <= i <= to <= v.len(),
            out@ == old(out)@ + v@.subrange(from as int, i as int),
        decreases to - i,
    {
        push_char(out, v[i]);
        i = i + 1;
        assert(out@ == old(out)@ + v@.subrange(from as int, i as int));
    }
}

proof fn lemma_trim_start_skip(s: Seq<char>, i: int)
    requires
        0 <= i < s.len(),
        is_space(s[i]),
    ensures
        trim_start(s.subrange(i, s.len() as int)) == trim_start(s.subrange(i + 1, s.len() as int)),
{
    let t = s.subrange(i, s.len() as int);
    assert(t.drop_first() =~= s.subrange(i + 1, s.len() as int));
}

proof fn lemma_trim_end_skip(s: Seq<char>, j: int)
    requires
        0 < j <= s.len(),
        is_space(s[j - 1]),
    ensures
        trim_end(s.subrange(0, j)) == trim_end(s.subrange(0, j - 1)),
{
    let t = s.subrange(0, j);
    assert(t.drop_last() =~= s.subrange(0, j - 1));
}

/// Bounds `(from, to)` of the trimmed part of `v`.
pub fn trim_bounds(v: &Vec<char>) -> (r: (usize, usize))
    ensures
        r.0 <= r.1 <= v.len(),
        v@.subrange(r.0 as int, r.1 as int) == trimmed(v@),
{
    let n = v.len();
    let mut i: usize = 0;
    assert(v@.subrange(0, n as int) =~= v@);
    while i < n && char_is_space(v[i])
        invariant
            i <= n == v.len(),
            trim_start(v@) == trim_start(v@.subrange(i as int, n as int)),
        decreases n - i,
    {
        proof {
            lemma_trim_start_skip(v@, i as int);
        }
        i = i + 1;
    }
    let ghost start = v@.subrange(i as int, n as int);
    assert(trim_start(v@) == start);
    let mut j: usize = n;
    assert(start.subrange(0, (n - i) as int) =~= start);
    while j > i && char_is_space(v[j - 1])
        invariant
            i <= j <= n == v.len(),
            start == v@.subrange(i as int, n as int),
            trim_end(start) == trim_end(v@.subrange(i as int, j as int)),
        decreases j - i,
    {
        proof {
            lemma_trim_end_skip(start, (j - i) as int);
            assert(start.subrange(0, (j - i) as int) =~= v@.subrange(i as int, j as int));
            assert(start.subrange(0, (j - i - 1) as int) =~= v@.subrange(i as int, j - 1));
        }
        j = j - 1;
    }
    (i, j)
}

/// `str::trim`, as an owned string.
pub fn trim(s: &str) -> (r: String)
    ensures
        r@ == trimmed(s@),
{
    let v = chars_of(s);
    let (from, to) = trim_bounds(&v);
    string_from(&v, from, to)
}

/// Whether `s` is empty after trimming.
pub fn blank(s: &str) -> (r: bool)
    ensures
        r == is_blank(s@),
{
    let v = chars_of(s);
    let (from, to) = trim_bounds(&v);
    from == to
}


// ---------------------------------------------------------------------
// Splitting
// ---------------------------------------------------------------------

/// The pieces of `cur + rest` split at every `sep`, where `cur` is the
/// piece read so far and holds no separator.
pub open spec fn split_from(cur: Seq<char>, rest: Seq<char>, sep: char) -> Seq<Seq<char>>
    decreases rest.len(),
{
    if rest.len() == 0 {
        seq![cur]
    } else if rest[0] == sep {
        seq![cur] + split_from(Seq::empty(), rest.drop_first(), sep)
    } else {
        split_from(cur.push(rest[0]), rest.drop_first(), sep)
    }
}

/// The pieces of `s` between occurrences of `sep`, as `str::split` yields them
/// (there is always at least one piece, and empty pieces are kept).
pub open spec fn split_at_char(s: Seq<char>, sep: char) -> Seq<Seq<char>> {
    split_from(Seq::empty(), s, sep)
}

pub fn split_chars(v: &Vec<char>, sep: char) -> (parts: Vec<Vec<char>>)
    ensures
        parts@.map_values(|p: Vec<char>| p@) == split_at_char(v@, sep),
{
    let mut parts: Vec<Vec<char>> = Vec::new();
    let mut cur: Vec<char> = Vec::new();
    let mut i: usize = 0;
    assert(v@.subrange(0, v@.len() as int) =~= v@);
    while i < v.len()
        invariant
            i <= v.len(),
            parts@.map_values(|p: Vec<char>| p@) + split_from(
                cur@,
                v@.subrange(i as int, v@.len() as int),
                sep,
            ) == split_at_char(v@, sep),
        decreases v.len() - i,
    {
        let ghost rest = v@.subrange(i as int, v@.len() as int);
        assert(rest.drop_first() =~= v@.subrange(i + 1, v@.len() as int));
        let c = v[i];
        if c == sep {
            let ghost before = parts@.map_values(|p: Vec<char>| p@);
            let done = cur;
            parts.push(done);
            cur = Vec::new();
            assert(parts@.map_values(|p: Vec<char>| p@) =~= before.push(done@));
            assert(before + split_from(done@, rest, sep) =~= before.push(done@) + split_from(
                Seq::empty(),
                rest.drop_first(),
                sep,
            ));
        } else {
            cur.push(c);
        }
        i = i + 1;
    }
    let ghost before = parts@.map_values(|p: Vec<char>| p@);
    let last = cur;
    parts.push(last);
    assert(parts@.map_values(|p: Vec<char>| p@) =~= before.push(last@));
    parts
}

// ---------------------------------------------------------------------
// Decimal numbers
// ---------------------------------------------------------------------

pub open spec fn is_digit(c: char) -> bool {
    0x30 <= (c as u32) <= 0x39
}

pub open spec fn digit_value(c: char) -> int {
    (c as u32) - 0x30
}

pub open spec fn all_digits(s: Seq<char>) -> bool {
    forall|i: int| 0 <= i < s.len() ==> is_digit(#[trigger] s[i])
}

/// The number that a string of ASCII digits denotes.
pub open spec fn digits_value(s: Seq<char>) -> nat
    decreases s.len(),
{
    if s.len() == 0 {
        0
    } else {
        digits_value(s.drop_last()) * 10 + (digit_value(s.last()) as nat)
    }
}

/// What `str::parse` reads as an integer before its range check: an optional
/// `+` or `-` followed by at least one ASCII digit.
pub open spec fn signed_value(s: Seq<char>) -> Option<int> {
    if s.len() > 0 && (s[0] == '+' || s[0] == '-') {
        let d = s.drop_first();
        if d.len() > 0 && all_digits(d) {
            Some(
                if s[0] == '-' {
                    -(digits_value(d) as int)
                } else {
                    digits_value(d) as int
                },
            )
        } else {
            None
        }
    } else if s.len() > 0 && all_digits(s) {
        Some(digits_value(s) as int)
    } else {
        None
    }
}

/// `str::parse` for a signed integer type with range `lo..=hi`.
pub open spec fn parse_signed(s: Seq<char>, lo: int, hi: int) -> Option<int> {
    match signed_value(s) {
        Some(v) => if lo <= v <= hi {
            Some(v)
        } else {
            None
        },
        None => None,
    }
}

/// `str::parse` for an unsigned integer type with maximum `hi`: a `-` sign is refused.
pub open spec fn parse_unsigned(s: Seq<char>, hi: int) -> Option<int> {
    if s.len() > 0 && s[0] == '-' {
        None
    } else {
        parse_signed(s, 0, hi)
    }
}

/// A prefix of digits denotes no more than the whole.
pub proof fn lemma_digits_value_prefix(s: Seq<char>, k: int)
    requires
        0 <= k <= s.len(),
    ensures
        digits_value(s.subrange(0, k)) <= digits_value(s),
    decreases s.len(),
{
    if k < s.len() {
        lemma_digits_value_prefix(s.drop_last(), k);
        assert(s.drop_last().subrange(0, k) =~= s.subrange(0, k));
    } else {
        assert(s.subrange(0, k) =~= s);
    }
}

proof fn lemma_digits_value_step(s: Seq<char>, k: int)
    requires
        0 <= k < s.len(),
    ensures
        digits_value(s.subrange(0, k + 1)) == digits_value(s.subrange(0, k)) * 10 + (digit_value(
            s[k],
        ) as nat),
{
    assert(s.subrange(0, k + 1).drop_last() =~= s.subrange(0, k));
}

/// The value of the ASCII digits `v[from..to]`, or `None` when one of them is
/// not a digit or the value exceeds `limit`.
pub fn digits_up_to(v: &Vec<char>, from: usize, to: usize, limit: u64) -> (r: Option<u64>)
    requires
        from <= to <= v.len(),
    ensures
        r is Some <==> all_digits(v@.subrange(from as int, to as int)) && digits_value(
            v@.subrange(from as int, to as int),
        ) <= limit,
        r matches Some(x) ==> x == digits_value(v@.subrange(from as int, to as int)),
{
    let ghost d = v@.subrange(from as int, to as int);
    let mut value: u64 = 0;
    let mut i = from;
    assert(d.subrange(0, 0) =~= Seq::<char>::empty());
    while i < to
        invariant
            from <= i <= to <= v.len(),
            d == v@.subrange(from as int, to as int),
            all_digits(d.subrange(0, (i - from) as int)),
            value == digits_value(d.subrange(0, (i - from) as int)),
            value <= limit,
        decreases to - i,
    {
        let c = v[i];
        let u = c as u32;
        if !(0x30 <= u && u <= 0x39) {
            assert(!is_digit(d[(i - from) as int]));
            return None;
        }
        let digit = (u - 0x30) as u64;
        proof {
            lemma_digits_value_step(d, (i - from) as int);
        }
        let next = match value.checked_mul(10) {
            Some(m) => m.checked_add(digit),
            None => None,
        };
        match next {
            Some(n) if n <= limit => {
                value = n;
            },
            _ => {
                proof {
                    lemma_digits_value_prefix(d, (i - from + 1) as int);
                }
                return None;
            },
        }
        i = i + 1;
        assert(all_digits(d.subrange(0, (i - from) as int)));
    }
    assert(d.subrange(0, (to - from) as int) =~= d);
    Some(value)
}

/// `str::parse::<i64>` of `v[from..to]`, restricted to the range `lo..=hi`
/// (so `parse::<i32>` and narrower types are had by choosing the range).
pub fn parse_int_range(v: &Vec<char>, from: usize, to: usize, lo: i64, hi: i64) -> (r: Option<i64>)
    requires
        from <= to <= v.len(),
    ensures
        r matches Some(x) ==> parse_signed(v@.subrange(from as int, to as int), lo as int, hi as int)
            == Some(x as int),
        r is None ==> parse_signed(v@.subrange(from as int, to as int), lo as int, hi as int)
            is None,
{
    let ghost s = v@.subrange(from as int, to as int);
    if from == to {
        return None;
    }
    let first = v[from];
    let negative = first == '-';
    let start = if first == '+' || first == '-' {
        from + 1
    } else {
        from
    };
    if start == to {
        return None;
    }
    assert(s.drop_first() =~= v@.subrange(from + 1, to as int));
    let magnitude = match digits_up_to(v, start, to, 9223372036854775808u64) {
        Some(m) => m,
        None => {
            return None;
        },
    };
    let value: i64 = if negative {
        if magnitude == 9223372036854775808u64 {
            i64::MIN
        } else {
            -(magnitude as i64)
        }
    } else {
        if magnitude > 9223372036854775807u64 {
            return None;
        }
        magnitude as i64
    };
    if value < lo || value > hi {
        return None;
    }
    Some(value)
}

/// The ASCII digit for `d < 10`.
pub open spec fn digit_char(d: nat) -> char {
    (48 + d) as char
}

/// The decimal digits of `n`, without leading zeros.
pub open spec fn decimal(n: nat) -> Seq<char>
    decreases n,
{
    if n < 10 {
        seq![digit_char(n)]
    } else {
        decimal(n / 10).push(digit_char(n % 10))
    }
}

/// An integer as `ToString` prints it.
pub open spec fn int_text(v: int) -> Seq<char> {
    if v < 0 {
        seq!['-'] + decimal((-v) as nat)
    } else {
        decimal(v as nat)
    }
}

/// `k` zeros; none when `k <= 0`.
pub open spec fn zeros(k: int) -> Seq<char> {
    Seq::new(if k > 0 { k as nat } else { 0 }, |i: int| '0')
}

/// An integer printed with `{:0w$}`: zeros are put between the sign and the
/// digits until the whole is `w` characters long.
pub open spec fn zero_padded(v: int, w: int) -> Seq<char> {
    if v < 0 {
        seq!['-'] + zeros(w - 1 - decimal((-v) as nat).len()) + decimal((-v) as nat)
    } else {
        zeros(w - decimal(v as nat).len()) + decimal(v as nat)
    }
}

pub fn push_decimal(out: &mut String, n: u64)
    ensures
        final(out)@ == old(out)@ + decimal(n as nat),
    decreases n,
{
    if n >= 10 {
        push_decimal(out, n / 10);
    }
    let d = (n % 10) as u32;
    let c = char_from_digit(d);
    push_char(out, c);
    assert(final(out)@ =~= old(out)@ + decimal(n as nat));
}

pub fn char_from_digit(d: u32) -> (c: char)
    requires
        d < 10,
    ensures
        c == digit_char(d as nat),
{
    if d == 0 {
        '0'
    } else if d == 1 {
        '1'
    } else if d == 2 {
        '2'
    } else if d == 3 {
        '3'
    } else if d == 4 {
        '4'
    } else if d == 5 {
        '5'
    } else if d == 6 {
        '6'
    } else if d == 7 {
        '7'
    } else if d == 8 {
        '8'
    } else {
        '9'
    }
}

pub open spec fn magnitude(v: int) -> nat {
    if v < 0 {
        (-v) as nat
    } else {
        v as nat
    }
}

pub fn magnitude_of(v: i64) -> (m: u64)
    ensures
        m == magnitude(v as int),
{
    if v == i64::MIN {
        9223372036854775808u64
    } else if v < 0 {
        (-v) as u64
    } else {
        v as u64
    }
}

/// Every number has at least one decimal digit.
pub proof fn lemma_decimal_len(n: nat)
    ensures
        decimal(n).len() >= 1,
    decreases n,
{
    if n >= 10 {
        lemma_decimal_len(n / 10);
    }
}

/// Appends `v` as `ToString` prints it.
pub fn push_int(out: &mut String, v: i64)
    ensures
        final(out)@ == old(out)@ + int_text(v as int),
{
    if v < 0 {
        push_char(out, '-');
    }
    push_decimal(out, magnitude_of(v));
    assert(final(out)@ =~= old(out)@ + int_text(v as int));
}

/// `v.to_string()`.
pub fn int_to_string(v: i64) -> (r: String)
    ensures
        r@ == int_text(v as int),
{
    let mut r = String::new();
    push_int(&mut r, v);
    assert(r@ =~= int_text(v as int));
    r
}

/// Appends `k` zeros.
pub fn push_zeros(out: &mut String, k: i128)
    ensures
        final(out)@ == old(out)@ + zeros(k as int),
{
    let mut i: i128 = 0;
    while i < k
        invariant
            0 <= i,
            i <= k || k < 0,
            k < 0 ==> i == 0,
            out@ == old(out)@ + zeros(i as int),
        decreases k - i,
    {
        push_char(out, '0');
        i = i + 1;
        assert(out@ =~= old(out)@ + zeros(i as int));
    }
    assert(out@ =~= old(out)@ + zeros(k as int));
}

/// Number of decimal digits of `n`.
pub fn decimal_len(n: u64) -> (r: u64)
    ensures
        r == decimal(n as nat).len(),
        r <= n + 1,
    decreases n,
{
    proof {
        lemma_decimal_len(n as nat);
    }
    if n < 10 {
        1
    } else {
        let r = decimal_len(n / 10);
        1 + r
    }
}

/// Appends `v` as `{:0w$}` prints it.
pub fn push_zero_padded(out: &mut String, v: i64, w: u32)
    ensures
        final(out)@ == old(out)@ + zero_padded(v as int, w as int),
{
    let m = magnitude_of(v);
    let len = decimal_len(m) as i128;
    if v < 0 {
        push_char(out, '-');
        push_zeros(out, w as i128 - 1 - len);
    } else {
        push_zeros(out, w as i128 - len);
    }
    push_decimal(out, m);
    assert(final(out)@ =~= old(out)@ + zero_padded(v as int, w as int));
}


// ---------------------------------------------------------------------
// Digits typed in Latin, Persian or Arabic-Indic script
// ---------------------------------------------------------------------

/// The ASCII digit a Latin, Persian (U+06F0..U+06F9) or Arabic-Indic
/// (U+0660..U+0669) digit stands for.
pub open spec fn ascii_digit_for(c: char) -> Option<char> {
    let v = c as u32;
    if 0x30 <= v <= 0x39 {
        Some(c)
    } else if 0x6f0 <= v <= 0x6f9 {
        Some(digit_char((v - 0x6f0) as nat))
    } else if 0x660 <= v <= 0x669 {
        Some(digit_char((v - 0x660) as nat))
    } else {
        None
    }
}

/// Thousands separators that number entry ignores: `,`, the Arabic thousands
/// separator U+066C and the space.
pub open spec fn is_group_separator(c: char) -> bool {
    c == ',' || c == '\u{66C}' || c == ' '
}

/// Decimal points that number entry accepts: `.`, the Arabic decimal
/// separator U+066B and `/`.
pub open spec fn is_decimal_point(c: char) -> bool {
    c == '.' || c == '\u{66B}' || c == '/'
}

/// The normalized text of a typed number: digits turned into ASCII,
/// separators dropped, and (when `decimal`) decimal points turned into `.`;
/// `None` when any other character occurs.
pub open spec fn normalized_number(s: Seq<char>, decimal: bool) -> Option<Seq<char>>
    decreases s.len(),
{
    if s.len() == 0 {
        Some(Seq::empty())
    } else {
        match normalized_number(s.drop_last(), decimal) {
            None => None,
            Some(p) => {
                let c = s.last();
                if ascii_digit_for(c) is Some {
                    Some(p.push(ascii_digit_for(c)->Some_0))
                } else if decimal && is_decimal_point(c) {
                    Some(p.push('.'))
                } else if is_group_separator(c) {
                    Some(p)
                } else {
                    None
                }
            },
        }
    }
}

/// A typed whole number: at least one digit, separators allowed, value in `i64`.
pub open spec fn grouped_integer(s: Seq<char>) -> Option<int> {
    match normalized_number(s, false) {
        Some(d) => if d.len() > 0 && digits_value(d) <= i64::MAX {
            Some(digits_value(d) as int)
        } else {
            None
        },
        None => None,
    }
}

pub open spec fn pow10(k: nat) -> nat
    decreases k,
{
    if k == 0 {
        1
    } else {
        10 * pow10((k - 1) as nat)
    }
}

/// The first index of `c` in `s`, or `s.len()`.
pub open spec fn first_index_of(s: Seq<char>, c: char) -> int
    decreases s.len(),
{
    if s.len() == 0 {
        0
    } else if s[0] == c {
        0
    } else {
        1 + first_index_of(s.drop_first(), c)
    }
}

/// A normalized decimal number in thousandths: the whole part before the
/// first `.`, at most three fraction digits after it (padded with zeros on
/// the right), no second `.`, and the result in `i64`. An empty whole part
/// counts as 0.
pub open spec fn thousandths(n: Seq<char>) -> Option<int> {
    let dot = first_index_of(n, '.');
    let whole = n.take(dot);
    let frac = if dot < n.len() { n.skip(dot + 1) } else { Seq::empty() };
    if frac.len() > 3 || first_index_of(frac, '.') < frac.len() {
        None
    } else if whole.len() > 0 && digits_value(whole) > i64::MAX {
        None
    } else {
        let v = digits_value(whole) * 1000 + digits_value(frac) * pow10((3 - frac.len()) as nat);
        if v <= i64::MAX {
            Some(v as int)
        } else {
            None
        }
    }
}

/// A typed decimal number in thousandths (see `thousandths`); `None` for an
/// empty entry or a character that is neither a digit, a separator nor a
/// decimal point.
pub open spec fn decimal_thousandths(s: Seq<char>) -> Option<int> {
    match normalized_number(s, true) {
        Some(n) => if n.len() == 0 {
            None
        } else {
            thousandths(n)
        },
        None => None,
    }
}

pub fn ascii_digit_of(c: char) -> (r: Option<char>)
    ensures
        r == ascii_digit_for(c),
{
    let v = c as u32;
    if 0x30 <= v && v <= 0x39 {
        Some(c)
    } else if 0x6f0 <= v && v <= 0x6f9 {
        Some(char_from_digit(v - 0x6f0))
    } else if 0x660 <= v && v <= 0x669 {
        Some(char_from_digit(v - 0x660))
    } else {
        None
    }
}

proof fn lemma_normalized_prefix_none(s: Seq<char>, k: int, decimal: bool)
    requires
        0 <= k <= s.len(),
        normalized_number(s.take(k), decimal) is None,
    ensures
        normalized_number(s, decimal) is None,
    decreases s.len() - k,
{
    if k < s.len() {
        assert(s.take(k + 1).drop_last() =~= s.take(k));
        lemma_normalized_prefix_none(s, k + 1, decimal);
    } else {
        assert(s.take(k) =~= s);
    }
}

/// The normalized text of a typed number (see `normalized_number`).
pub fn normalize_number(v: &Vec<char>, decimal: bool) -> (r: Option<Vec<char>>)
    ensures
        r matches Some(n) ==> normalized_number(v@, decimal) == Some(n@),
        r is None ==> normalized_number(v@, decimal) is None,
{
    let mut out: Vec<char> = Vec::new();
    let mut i: usize = 0;
    assert(v@.take(0) =~= Seq::<char>::empty());
    while i < v.len()
        invariant
            i <= v.len(),
            normalized_number(v@.take(i as int), decimal) == Some(out@),
        decreases v.len() - i,
    {
        let c = v[i];
        assert(v@.take(i + 1).drop_last() =~= v@.take(i as int));
        assert(v@.take(i + 1).last() == c);
        match ascii_digit_of(c) {
            Some(d) => {
                out.push(d);
            },
            None => {
                if decimal && (c == '.' || c == '\u{66B}' || c == '/') {
                    out.push('.');
                } else if c == ',' || c == '\u{66C}' || c == ' ' {
                } else {
                    proof {
                        lemma_normalized_prefix_none(v@, i + 1, decimal);
                    }
                    return None;
                }
            },
        }
        i = i + 1;
    }
    assert(v@.take(v@.len() as int) =~= v@);
    Some(out)
}

proof fn lemma_normalized_digits(s: Seq<char>, n: Seq<char>)
    requires
        normalized_number(s, false) == Some(n),
    ensures
        all_digits(n),
    decreases s.len(),
{
    if s.len() > 0 {
        let p = normalized_number(s.drop_last(), false)->Some_0;
        lemma_normalized_digits(s.drop_last(), p);
        let c = s.last();
        if ascii_digit_for(c) is Some {
            let d = ascii_digit_for(c)->Some_0;
            let v = c as u32;
            if 0x6f0 <= v <= 0x6f9 {
                assert(((48 + (v - 0x6f0)) as char) as u32 == 48 + (v - 0x6f0));
            }
            if 0x660 <= v <= 0x669 {
                assert(((48 + (v - 0x660)) as char) as u32 == 48 + (v - 0x660));
            }
            assert(is_digit(d));
            assert forall|i: int| 0 <= i < n.len() implies is_digit(#[trigger] n[i]) by {
                if i < p.len() {
                    assert(n[i] == p[i]);
                }
            }
        }
    }
}

/// A typed whole number (see `grouped_integer`).
pub fn parse_grouped_integer(s: &str) -> (r: Option<i64>)
    ensures
        r matches Some(x) ==> grouped_integer(s@) == Some(x as int),
        r is None ==> grouped_integer(s@) is None,
{
    let chars = chars_of(s);
    let digits = match normalize_number(&chars, false) {
        Some(d) => d,
        None => {
            return None;
        },
    };
    proof {
        lemma_normalized_digits(chars@, digits@);
    }
    if digits.len() == 0 {
        return None;
    }
    assert(digits@.subrange(0, digits@.len() as int) =~= digits@);
    match digits_up_to(&digits, 0, digits.len(), 9223372036854775807u64) {
        Some(x) => Some(x as i64),
        None => None,
    }
}


proof fn lemma_normalized_digits_or_dots(s: Seq<char>, n: Seq<char>)
    requires
        normalized_number(s, true) == Some(n),
    ensures
        forall|i: int| 0 <= i < n.len() ==> is_digit(#[trigger] n[i]) || n[i] == '.',
    decreases s.len(),
{
    if s.len() > 0 {
        let p = normalized_number(s.drop_last(), true)->Some_0;
        lemma_normalized_digits_or_dots(s.drop_last(), p);
        let c = s.last();
        if ascii_digit_for(c) is Some {
            let v = c as u32;
            if 0x6f0 <= v <= 0x6f9 {
                assert(((48 + (v - 0x6f0)) as char) as u32 == 48 + (v - 0x6f0));
            }
            if 0x660 <= v <= 0x669 {
                assert(((48 + (v - 0x660)) as char) as u32 == 48 + (v - 0x660));
            }
        }
        assert forall|i: int| 0 <= i < n.len() implies is_digit(#[trigger] n[i]) || n[i] == '.' by {
            if i < p.len() {
                assert(n[i] == p[i]);
            }
        }
    }
}

proof fn lemma_first_index(s: Seq<char>, c: char, k: int)
    requires
        0 <= k <= s.len(),
        forall|i: int| 0 <= i < k ==> s[i] != c,
        k < s.len() ==> s[k] == c,
    ensures
        first_index_of(s, c) == k,
    decreases s.len(),
{
    if s.len() > 0 && k > 0 {
        lemma_first_index(s.drop_first(), c, k - 1);
    }
}

/// Position of the first `c` in `v[from..]`, or `v.len()`.
pub fn find_char(v: &Vec<char>, from: usize, c: char) -> (r: usize)
    requires
        from <= v.len(),
    ensures
        from <= r <= v.len(),
        r - from == first_index_of(v@.skip(from as int), c),
        forall|i: int| from <= i < r ==> v@[i] != c,
        r < v.len() ==> v@[r as int] == c,
{
    let mut i = from;
    while i < v.len() && v[i] != c
        invariant
            from <= i <= v.len(),
            forall|j: int| from <= j < i ==> v@[j] != c,
        decreases v.len() - i,
    {
        i = i + 1;
    }
    proof {
        lemma_first_index(v@.skip(from as int), c, (i - from) as int);
    }
    i
}

pub fn pow10_of(k: u64) -> (r: u64)
    requires
        k <= 3,
    ensures
        r == pow10(k as nat),
{
    proof {
        reveal_with_fuel(pow10, 4);
    }
    if k == 0 {
        1
    } else if k == 1 {
        10
    } else if k == 2 {
        100
    } else {
        1000
    }
}

proof fn lemma_digits_value_bound(s: Seq<char>)
    requires
        all_digits(s),
    ensures
        digits_value(s) < pow10(s.len()),
    decreases s.len(),
{
    if s.len() > 0 {
        assert(all_digits(s.drop_last()));
        lemma_digits_value_bound(s.drop_last());
        assert(is_digit(s[s.len() - 1]));
        assert(digits_value(s) < pow10(s.len())) by (nonlinear_arith)
            requires
                digits_value(s) == digits_value(s.drop_last()) * 10 + (digit_value(s.last()) as nat),
                digits_value(s.drop_last()) < pow10(s.drop_last().len()),
                0 <= digit_value(s.last()) <= 9,
                pow10(s.len()) == 10 * pow10(s.drop_last().len()),
        ;
    }
}

/// A typed decimal number in thousandths (see `decimal_thousandths`).
pub fn parse_thousandths(s: &str) -> (r: Option<i64>)
    ensures
        r matches Some(x) ==> decimal_thousandths(s@) == Some(x as int),
        r is None ==> decimal_thousandths(s@) is None,
{
    let chars = chars_of(s);
    let n = match normalize_number(&chars, true) {
        Some(n) => n,
        None => {
            return None;
        },
    };
    if n.len() == 0 {
        return None;
    }
    proof {
        lemma_normalized_digits_or_dots(chars@, n@);
    }
    let dot = find_char(&n, 0, '.');
    assert(n@.skip(0) =~= n@);
    let ghost whole = n@.take(dot as int);
    let frac_start = if dot < n.len() {
        dot + 1
    } else {
        n.len()
    };
    let ghost frac = if dot < n@.len() {
        n@.skip(dot + 1)
    } else {
        Seq::<char>::empty()
    };
    assert(frac =~= n@.subrange(frac_start as int, n@.len() as int));
    if n.len() - frac_start > 3 {
        return None;
    }
    let second = find_char(&n, frac_start, '.');
    assert(n@.skip(frac_start as int) =~= frac);
    if second < n.len() {
        return None;
    }
    assert(all_digits(whole));
    assert(all_digits(frac));
    assert(whole =~= n@.subrange(0, dot as int));
    let whole_value: u64 = if dot == 0 {
        0
    } else {
        match digits_up_to(&n, 0, dot, 9223372036854775807u64) {
            Some(x) => x,
            None => {
                return None;
            },
        }
    };
    proof {
        lemma_digits_value_bound(frac);
        reveal_with_fuel(pow10, 4);
    }
    let frac_digits = match digits_up_to(&n, frac_start, n.len(), 999) {
        Some(x) => x,
        None => {
            return None;
        },
    };
    let scale = pow10_of((3 - (n.len() - frac_start)) as u64);
    assert(frac_digits * scale <= 999000) by (nonlinear_arith)
        requires
            (n.len() - frac_start == 0 && frac_digits < 1 && scale == 1000)
                || (n.len() - frac_start == 1 && frac_digits < 10 && scale == 100)
                || (n.len() - frac_start == 2 && frac_digits < 100 && scale == 10)
                || (n.len() - frac_start == 3 && frac_digits < 1000 && scale == 1),
    ;
    let frac_value = frac_digits * scale;
    let total = match whole_value.checked_mul(1000) {
        Some(w) => w.checked_add(frac_value),
        None => None,
    };
    match total {
        Some(t) if t <= 9223372036854775807u64 => Some(t as i64),
        _ => None,
    }
}


/// Whether two texts are the same.
pub fn same_text(a: &str, b: &str) -> (r: bool)
    ensures
        r == (a@ == b@),
{
    let x = chars_of(a);
    let y = chars_of(b);
    if x.len() != y.len() {
        return false;
    }
    let mut i: usize = 0;
    while i < x.len()
        invariant
            i <= x.len() == y.len(),
            x@ == a@,
            y@ == b@,
            forall|j: int| 0 <= j < i ==> x@[j] == y@[j],
        decreases x.len() - i,
    {
        if x[i] != y[i] {
            assert(x@[i as int] != y@[i as int]);
            return false;
        }
        i = i + 1;
    }
    assert(x@ =~= y@);
    true
}

/// `s` with all trailing `c` removed (`str::trim_end_matches`).
pub open spec fn trim_end_char(s: Seq<char>, c: char) -> Seq<char>
    decreases s.len(),
{
    if s.len() > 0 && s.last() == c {
        trim_end_char(s.drop_last(), c)
    } else {
        s
    }
}

// ---------------------------------------------------------------------
// Printed numbers read back
// ---------------------------------------------------------------------

/// The fraction digits of `f < 1000` thousandths, without the zeros at
/// their end.
pub open spec fn fraction_digits(f: nat) -> Seq<char> {
    if f % 100 == 0 {
        seq![digit_char(f / 100)]
    } else if f % 10 == 0 {
        seq![digit_char(f / 100), digit_char((f / 10) % 10)]
    } else {
        seq![digit_char(f / 100), digit_char((f / 10) % 10), digit_char(f % 10)]
    }
}

/// A count of thousandths printed as the decimal number it stands for: the
/// whole part, then a point and the fraction without its trailing zeros when
/// there is a fraction, and a minus sign first for a negative count.
pub open spec fn thousandths_text(v: int) -> Seq<char> {
    let m = if v < 0 {
        -v
    } else {
        v
    };
    let whole = decimal((m / 1000) as nat);
    let f = (m % 1000) as nat;
    let body = if f == 0 {
        whole
    } else {
        whole + seq!['.'] + fraction_digits(f)
    };
    if v < 0 {
        seq!['-'] + body
    } else {
        body
    }
}

pub(crate) proof fn lemma_digit_char(d: nat)
    requires
        d < 10,
    ensures
        is_digit(digit_char(d)),
        digit_value(digit_char(d)) == d,
        ascii_digit_for(digit_char(d)) == Some(digit_char(d)),
        digit_char(d) != '.',
{
    assert(((48 + d) as char) as u32 == 48 + d);
}

/// The three decimal digits of `f < 1000`.
pub(crate) proof fn lemma_three_digits(f: nat)
    requires
        f < 1000,
    ensures
        f / 100 < 10,
        (f / 10) % 10 < 10,
        f % 10 < 10,
        ((f / 100) * 10 + (f / 10) % 10) * 10 + f % 10 == f,
        f % 100 == 0 ==> (f / 100) * 100 == f,
        f % 10 == 0 ==> ((f / 100) * 10 + (f / 10) % 10) * 10 == f,
{
    vstd::arithmetic::div_mod::lemma_fundamental_div_mod(f as int, 10);
    vstd::arithmetic::div_mod::lemma_fundamental_div_mod((f / 10) as int, 10);
    vstd::arithmetic::div_mod::lemma_fundamental_div_mod(f as int, 100);
    vstd::arithmetic::div_mod::lemma_div_denominator(f as int, 10, 10);
}

/// The digits of `decimal(n)` denote `n`.
pub proof fn lemma_decimal_value(n: nat)
    ensures
        all_digits(decimal(n)),
        digits_value(decimal(n)) == n,
    decreases n,
{
    let s = decimal(n);
    if n < 10 {
        lemma_digit_char(n);
        assert(s.drop_last() =~= Seq::<char>::empty());
        assert(digits_value(Seq::<char>::empty()) == 0);
    } else {
        lemma_decimal_value(n / 10);
        lemma_digit_char(n % 10);
        assert(s.drop_last() =~= decimal(n / 10));
        vstd::arithmetic::div_mod::lemma_fundamental_div_mod(n as int, 10);
        assert forall|i: int| 0 <= i < s.len() implies is_digit(#[trigger] s[i]) by {
            if i < s.len() - 1 {
                assert(s[i] == decimal(n / 10)[i]);
            }
        }
    }
}

/// Number entry reads a text of ASCII digits unchanged.
pub proof fn lemma_digits_normalized(s: Seq<char>, dec: bool)
    requires
        all_digits(s),
    ensures
        normalized_number(s, dec) == Some(s),
    decreases s.len(),
{
    if s.len() > 0 {
        lemma_digits_normalized(s.drop_last(), dec);
        assert(is_digit(s[s.len() - 1]));
        assert(s.drop_last().push(s.last()) =~= s);
    }
}

/// Number entry reads the parts of a text one after the other.
pub(crate) proof fn lemma_normalized_append(a: Seq<char>, b: Seq<char>, dec: bool)
    requires
        normalized_number(a, dec) is Some,
        normalized_number(b, dec) is Some,
    ensures
        normalized_number(a + b, dec) == Some(
            normalized_number(a, dec)->Some_0 + normalized_number(b, dec)->Some_0,
        ),
    decreases b.len(),
{
    if b.len() == 0 {
        assert(a + b =~= a);
        assert(normalized_number(a, dec)->Some_0 + Seq::<char>::empty() =~= normalized_number(
            a,
            dec,
        )->Some_0);
    } else {
        lemma_normalized_append(a, b.drop_last(), dec);
        assert((a + b).drop_last() =~= a + b.drop_last());
        assert((a + b).last() == b.last());
        let p = normalized_number(a, dec)->Some_0;
        let q = normalized_number(b.drop_last(), dec)->Some_0;
        assert((p + q).push('.') =~= p + q.push('.'));
        if ascii_digit_for(b.last()) is Some {
            assert((p + q).push(ascii_digit_for(b.last())->Some_0) =~= p + q.push(
                ascii_digit_for(b.last())->Some_0,
            ));
        }
    }
}

/// A whole number printed in decimal is read back as typed entry.
pub proof fn lemma_grouped_integer_reads_decimal(n: nat)
    requires
        n <= i64::MAX,
    ensures
        grouped_integer(decimal(n)) == Some(n as int),
{
    lemma_decimal_value(n);
    lemma_decimal_len(n);
    lemma_digits_normalized(decimal(n), false);
}

/// The digits of a nonzero fraction of a thousand, read in thousandths,
/// give the fraction back.
proof fn lemma_fraction_digits_value(f: nat)
    requires
        0 < f < 1000,
    ensures
        fraction_digits(f).len() <= 3,
        digits_value(fraction_digits(f)) * pow10((3 - fraction_digits(f).len()) as nat) == f,
{
    let fd = fraction_digits(f);
    let a = f / 100;
    let b = (f / 10) % 10;
    let c = f % 10;
    lemma_three_digits(f);
    lemma_digit_char(a);
    lemma_digit_char(b);
    lemma_digit_char(c);
    assert(pow10(0) == 1 && pow10(1) == 10 && pow10(2) == 100) by {
        reveal_with_fuel(pow10, 3);
    }
    let one = seq![digit_char(a)];
    let two = seq![digit_char(a), digit_char(b)];
    assert(one.drop_last() =~= Seq::<char>::empty());
    assert(two.drop_last() =~= one);
    assert(digits_value(Seq::<char>::empty()) == 0);
    assert(digits_value(one) == a);
    assert(digits_value(two) == a * 10 + b);
    if f % 100 == 0 {
        assert(fd =~= one);
        assert(digits_value(fd) * pow10(2) == a * 100);
    } else if f % 10 == 0 {
        assert(fd =~= two);
        assert(digits_value(fd) * pow10(1) == (a * 10 + b) * 10);
    } else {
        assert(fd.drop_last() =~= two);
        assert(fd.len() == 3);
        assert(digits_value(fd) == (a * 10 + b) * 10 + c);
        assert(digits_value(fd) * pow10(0) == digits_value(fd));
    }
}

/// A positive count of thousandths, printed as its decimal number, is read
/// back as the same count.
pub proof fn lemma_thousandths_text_reads_back(v: int)
    requires
        0 <= v <= i64::MAX,
    ensures
        decimal_thousandths(thousandths_text(v)) == Some(v),
{
    let w = (v / 1000) as nat;
    let f = (v % 1000) as nat;
    let whole = decimal(w);
    lemma_decimal_value(w);
    lemma_decimal_len(w);
    lemma_digits_normalized(whole, true);
    lemma_first_index(whole, '.', whole.len() as int);
    if f == 0 {
        assert(thousandths_text(v) == whole);
        assert(whole.take(whole.len() as int) =~= whole);
        assert(digits_value(Seq::<char>::empty()) == 0);
        assert(pow10(3) == 1000) by {
            reveal_with_fuel(pow10, 4);
        }
        assert(first_index_of(Seq::<char>::empty(), '.') == 0);
        assert(w * 1000 == v);
        assert(digits_value(whole) <= i64::MAX);
        assert(digits_value(whole) * 1000 + digits_value(Seq::<char>::empty()) * pow10(3) == v);
        assert(thousandths(whole) == Some(v));
        assert(decimal_thousandths(whole) == Some(v));
    } else {
        let fd = fraction_digits(f);
        let a = f / 100;
        let b = (f / 10) % 10;
        let c = f % 10;
        lemma_digit_char(a);
        lemma_digit_char(b);
        lemma_digit_char(c);
        assert(all_digits(fd));
        lemma_digits_normalized(fd, true);
        let dot = seq!['.'];
        assert(dot.drop_last() =~= Seq::<char>::empty());
        assert(normalized_number(dot, true) == Some(dot)) by {
            assert(normalized_number(Seq::<char>::empty(), true) == Some(Seq::<char>::empty()));
            assert(dot.last() == '.');
            assert(ascii_digit_for('.') is None);
            assert(is_decimal_point('.'));
            assert(Seq::<char>::empty().push('.') =~= dot);
        }
        lemma_normalized_append(whole, dot, true);
        lemma_normalized_append(whole + dot, fd, true);
        let n = whole + dot + fd;
        assert(thousandths_text(v) == n);
        assert(normalized_number(n, true) == Some(n));
        lemma_first_index(n, '.', whole.len() as int);
        assert(n.take(whole.len() as int) =~= whole);
        assert(n.skip(whole.len() as int + 1) =~= fd);
        lemma_first_index(fd, '.', fd.len() as int);
        lemma_fraction_digits_value(f);
        assert(w * 1000 + f == v);
        assert(thousandths(n) == Some(v));
    }
}

/// The value of digits written after others: the first part shifted by the
/// length of the second.
pub proof fn lemma_digits_value_append(a: Seq<char>, b: Seq<char>)
    ensures
        digits_value(a + b) == digits_value(a) * pow10(b.len()) + digits_value(b),
    decreases b.len(),
{
    if b.len() == 0 {
        assert(a + b =~= a);
        assert(pow10(0) == 1);
    } else {
        lemma_digits_value_append(a, b.drop_last());
        assert((a + b).drop_last() =~= a + b.drop_last());
        assert((a + b).last() == b.last());
        let x = digits_value(a);
        let p = pow10(b.drop_last().len());
        let y = digits_value(b.drop_last());
        assert(pow10(b.len()) == 10 * p);
        assert((x * p + y) * 10 == x * (10 * p) + y * 10) by (nonlinear_arith);
    }
}

/// Zeros are digits and denote nothing.
pub proof fn lemma_zeros_value(k: int)
    ensures
        all_digits(zeros(k)),
        digits_value(zeros(k)) == 0,
    decreases if k > 0 { k } else { 0 },
{
    if k > 0 {
        lemma_zeros_value(k - 1);
        assert(zeros(k).drop_last() =~= zeros(k - 1));
    } else {
        assert(zeros(k) =~= Seq::<char>::empty());
    }
}

/// A number printed zero-padded is made of digits and parses back as the
/// number.
pub proof fn lemma_zero_padded_parses(v: int, w: int)
    requires
        0 <= v <= i64::MAX,
    ensures
        all_digits(zero_padded(v, w)),
        zero_padded(v, w).len() > 0,
        parse_signed(zero_padded(v, w), 0, i64::MAX as int) == Some(v),
        forall|lo: int, hi: int| lo <= v <= hi ==> #[trigger] parse_signed(zero_padded(v, w), lo, hi) == Some(v),
{
    let z = zeros(w - decimal(v as nat).len());
    let d = decimal(v as nat);
    lemma_zeros_value(w - decimal(v as nat).len());
    lemma_decimal_value(v as nat);
    lemma_decimal_len(v as nat);
    lemma_digits_value_append(z, d);
    let s = z + d;
    assert(zero_padded(v, w) == s);
    assert forall|i: int| 0 <= i < s.len() implies is_digit(#[trigger] s[i]) by {
        if i < z.len() {
            assert(s[i] == z[i]);
        } else {
            assert(s[i] == d[i - z.len()]);
        }
    }
    assert(is_digit(s[0]));
}

/// Splitting a text that holds no separator gives it whole, after the piece
/// read so far.
pub proof fn lemma_split_without_sep(cur: Seq<char>, a: Seq<char>, sep: char)
    requires
        forall|i: int| 0 <= i < a.len() ==> #[trigger] a[i] != sep,
    ensures
        split_from(cur, a, sep) == seq![cur + a],
    decreases a.len(),
{
    if a.len() == 0 {
        assert(cur + a =~= cur);
    } else {
        let rest = a.drop_first();
        assert forall|i: int| 0 <= i < rest.len() implies #[trigger] rest[i] != sep by {
            assert(rest[i] == a[i + 1]);
        }
        assert(a[0] != sep);
        lemma_split_without_sep(cur.push(a[0]), rest, sep);
        assert(cur.push(a[0]) + rest =~= cur + a);
    }
}

/// A separator ends the piece read so far.
pub proof fn lemma_split_at_sep(cur: Seq<char>, a: Seq<char>, rest: Seq<char>, sep: char)
    requires
        forall|i: int| 0 <= i < a.len() ==> #[trigger] a[i] != sep,
    ensures
        split_from(cur, a + seq![sep] + rest, sep) == seq![cur + a] + split_from(
            Seq::empty(),
            rest,
            sep,
        ),
    decreases a.len(),
{
    let t = a + seq![sep] + rest;
    if a.len() == 0 {
        assert(t[0] == sep);
        assert(t.drop_first() =~= rest);
        assert(cur + a =~= cur);
    } else {
        let tail = a.drop_first();
        assert forall|i: int| 0 <= i < tail.len() implies #[trigger] tail[i] != sep by {
            assert(tail[i] == a[i + 1]);
        }
        assert(t[0] == a[0]);
        assert(a[0] != sep);
        assert(t.drop_first() =~= tail + seq![sep] + rest);
        lemma_split_at_sep(cur.push(a[0]), tail, rest, sep);
        assert(cur.push(a[0]) + tail =~= cur + a);
    }
}

/// Three pieces joined by a separator they do not hold split back into the
/// three pieces.
pub proof fn lemma_split_three(p: Seq<char>, q: Seq<char>, r: Seq<char>, sep: char)
    requires
        forall|i: int| 0 <= i < p.len() ==> #[trigger] p[i] != sep,
        forall|i: int| 0 <= i < q.len() ==> #[trigger] q[i] != sep,
        forall|i: int| 0 <= i < r.len() ==> #[trigger] r[i] != sep,
    ensures
        split_at_char(p + seq![sep] + q + seq![sep] + r, sep) == seq![p, q, r],
{
    let e = Seq::<char>::empty();
    assert(p + seq![sep] + q + seq![sep] + r =~= p + seq![sep] + (q + seq![sep] + r));
    lemma_split_at_sep(e, p, q + seq![sep] + r, sep);
    lemma_split_at_sep(e, q, r, sep);
    lemma_split_without_sep(e, r, sep);
    assert(e + p =~= p);
    assert(e + q =~= q);
    assert(e + r =~= r);
    assert(seq![p] + (seq![q] + seq![r]) =~= seq![p, q, r]);
}

} // verus!
