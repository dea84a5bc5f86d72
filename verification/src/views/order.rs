//! The order the user picks for a list: by a text key or a whole-number key,
//! rising or falling; rows with equal keys keep the order they came in.

use vstd::prelude::*;

use crate::text::chars_of;

verus! {

broadcast use vstd::string::group_string_axioms;

/// What a row is ordered by.
#[derive(Debug, Clone, PartialEq, Eq)]
pub enum SortKey {
    Int(i64),
    Text(String),
}

/// A key as the order sees it.
pub enum KeyView {
    Int(i64),
    Text(Seq<char>),
}

impl View for SortKey {
    type V = KeyView;

    open spec fn view(&self) -> KeyView {
        match self {
            SortKey::Int(x) => KeyView::Int(*x),
            SortKey::Text(t) => KeyView::Text(t@),
        }
    }
}

pub open spec fn key_views(keys: Seq<SortKey>) -> Seq<KeyView> {
    keys.map_values(|k: SortKey| k@)
}

/// Texts compared character by character by their code points, a prefix
/// first (the order of `String`).
pub open spec fn text_le(a: Seq<char>, b: Seq<char>) -> bool
    decreases a.len(),
{
    if a.len() == 0 {
        true
    } else if b.len() == 0 {
        false
    } else if (a[0] as u32) < (b[0] as u32) {
        true
    } else if (a[0] as u32) > (b[0] as u32) {
        false
    } else {
        text_le(a.drop_first(), b.drop_first())
    }
}

pub open spec fn key_le(a: KeyView, b: KeyView) -> bool {
    match (a, b) {
        (KeyView::Int(x), KeyView::Int(y)) => x <= y,
        (KeyView::Text(x), KeyView::Text(y)) => text_le(x, y),
        _ => true,
    }
}

/// A row with key `a` may stay before a later row with key `b`.
pub open spec fn goes_before(a: KeyView, b: KeyView, descending: bool) -> bool {
    if descending {
        key_le(b, a)
    } else {
        key_le(a, b)
    }
}

/// Where row `n` goes among the rows already ordered: before the first one,
/// from `from` on, that may not stay before it.
pub open spec fn insert_position(
    keys: Seq<KeyView>,
    order: Seq<int>,
    n: int,
    descending: bool,
    from: int,
) -> int
    decreases order.len() - from,
{
    if from < 0 || from >= order.len() {
        order.len() as int
    } else if !goes_before(keys[order[from]], keys[n], descending) {
        from
    } else {
        insert_position(keys, order, n, descending, from + 1)
    }
}

/// The order of the first `n` rows: each row in turn goes after the rows
/// already ordered that may stay before it.
pub open spec fn stable_order(keys: Seq<KeyView>, n: int, descending: bool) -> Seq<int>
    decreases n,
{
    if n <= 0 {
        Seq::empty()
    } else {
        let o = stable_order(keys, n - 1, descending);
        o.insert(insert_position(keys, o, n - 1, descending, 0), n - 1)
    }
}

/// `text_le` on two strings.
pub fn text_at_most(a: &str, b: &str) -> (r: bool)
    ensures
        r == text_le(a@, b@),
{
    let x = chars_of(a);
    let y = chars_of(b);
    let mut i: usize = 0;
    assert(x@.skip(0) =~= x@);
    assert(y@.skip(0) =~= y@);
    while i < x.len() && i < y.len() && x[i] as u32 == y[i] as u32
        invariant
            i <= x.len(),
            i <= y.len(),
            x@ == a@,
            y@ == b@,
            text_le(a@, b@) == text_le(x@.skip(i as int), y@.skip(i as int)),
        decreases x.len() - i,
    {
        assert(x@.skip(i as int).drop_first() =~= x@.skip(i + 1));
        assert(y@.skip(i as int).drop_first() =~= y@.skip(i + 1));
        i = i + 1;
    }
    if i == x.len() {
        return true;
    }
    if i == y.len() {
        return false;
    }
    assert(x@.skip(i as int)[0] == x[i as int]);
    assert(y@.skip(i as int)[0] == y[i as int]);
    (x[i] as u32) < (y[i] as u32)
}

pub fn key_goes_before(a: &SortKey, b: &SortKey, descending: bool) -> (r: bool)
    ensures
        r == goes_before(a@, b@, descending),
{
    let (first, second) = if descending {
        (b, a)
    } else {
        (a, b)
    };
    match (first, second) {
        (SortKey::Int(x), SortKey::Int(y)) => *x <= *y,
        (SortKey::Text(x), SortKey::Text(y)) => text_at_most(x.as_str(), y.as_str()),
        _ => true,
    }
}

pub open spec fn indices(order: Seq<usize>) -> Seq<int> {
    order.map_values(|i: usize| i as int)
}

/// The order of the rows with these keys (see `stable_order`): the indices
/// of the rows, first to last.
pub fn sort_order(keys: &Vec<SortKey>, descending: bool) -> (r: Vec<usize>)
    ensures
        indices(r@) == stable_order(key_views(keys@), keys.len() as int, descending),
        r.len() == keys.len(),
        forall|k: int| 0 <= k < r.len() ==> #[trigger] r@[k] < keys.len(),
{
    let mut order: Vec<usize> = Vec::new();
    let mut n: usize = 0;
    while n < keys.len()
        invariant
            n <= keys.len(),
            order.len() == n,
            indices(order@) == stable_order(key_views(keys@), n as int, descending),
            forall|k: int| 0 <= k < order.len() ==> #[trigger] order@[k] < n,
        decreases keys.len() - n,
    {
        let ghost o = indices(order@);
        let mut p: usize = 0;
        while p < order.len() && key_goes_before(&keys[order[p]], &keys[n], descending)
            invariant
                p <= order.len(),
                n < keys.len(),
                o == indices(order@),
                forall|k: int| 0 <= k < order.len() ==> #[trigger] order@[k] < n,
                insert_position(key_views(keys@), o, n as int, descending, 0) == insert_position(
                    key_views(keys@),
                    o,
                    n as int,
                    descending,
                    p as int,
                ),
            decreases order.len() - p,
        {
            assert(o[p as int] == order@[p as int] as int);
            assert(key_views(keys@)[o[p as int]] == keys@[order@[p as int] as int]@);
            assert(key_views(keys@)[n as int] == keys@[n as int]@);
            p = p + 1;
        }
        proof {
            if p < order.len() {
                assert(o[p as int] == order@[p as int] as int);
                assert(key_views(keys@)[o[p as int]] == keys@[order@[p as int] as int]@);
                assert(key_views(keys@)[n as int] == keys@[n as int]@);
            }
        }
        let ghost before = order@;
        order.insert(p, n);
        assert(indices(order@) =~= o.insert(p as int, n as int));
        assert forall|k: int| 0 <= k < order.len() implies #[trigger] order@[k] < n + 1 by {
            if k < p {
                assert(order@[k] == before[k]);
            } else if k > p {
                assert(order@[k] == before[k - 1]);
            }
        }
        n = n + 1;
    }
    order
}

proof fn lemma_insert_position_bounds(
    keys: Seq<KeyView>,
    order: Seq<int>,
    n: int,
    descending: bool,
    from: int,
)
    requires
        0 <= from <= order.len(),
    ensures
        from <= insert_position(keys, order, n, descending, from) <= order.len(),
        forall|k: int|
            from <= k < insert_position(keys, order, n, descending, from) ==> goes_before(
                keys[#[trigger] order[k]],
                keys[n],
                descending,
            ),
        insert_position(keys, order, n, descending, from) < order.len() ==> !goes_before(
            keys[order[insert_position(keys, order, n, descending, from)]],
            keys[n],
            descending,
        ),
    decreases order.len() - from,
{
    if from < order.len() && goes_before(keys[order[from]], keys[n], descending) {
        lemma_insert_position_bounds(keys, order, n, descending, from + 1);
    }
}

/// Every row appears exactly once in the order.
pub proof fn order_holds_every_row_once(keys: Seq<KeyView>, n: int, descending: bool)
    requires
        0 <= n,
    ensures
        stable_order(keys, n, descending).len() == n,
        forall|k: int|
            0 <= k < n ==> 0 <= #[trigger] stable_order(keys, n, descending)[k] < n,
        forall|j: int, k: int|
            0 <= j < k < n ==> stable_order(keys, n, descending)[j] != stable_order(
                keys,
                n,
                descending,
            )[k],
    decreases n,
{
    if n > 0 {
        let o = stable_order(keys, n - 1, descending);
        order_holds_every_row_once(keys, n - 1, descending);
        lemma_insert_position_bounds(keys, o, n - 1, descending, 0);
        let p = insert_position(keys, o, n - 1, descending, 0);
        let r = stable_order(keys, n, descending);
        assert(r == o.insert(p, n - 1));
        o.insert_ensures(p, n - 1);
        assert forall|k: int| 0 <= k < n implies 0 <= #[trigger] r[k] < n by {
            if k < p {
                assert(r[k] == o[k]);
            } else if k > p {
                assert(r[k] == o[k - 1]);
            }
        }
        assert forall|j: int, k: int| 0 <= j < k < n implies r[j] != r[k] by {
            if j < p {
                assert(r[j] == o[j]);
            } else if j > p {
                assert(r[j] == o[j - 1]);
            }
            if k < p {
                assert(r[k] == o[k]);
            } else if k > p {
                assert(r[k] == o[k - 1]);
            }
        }
    }
}

proof fn lemma_text_le_total(a: Seq<char>, b: Seq<char>)
    ensures
        text_le(a, b) || text_le(b, a),
    decreases a.len(),
{
    if a.len() > 0 && b.len() > 0 && (a[0] as u32) == (b[0] as u32) {
        lemma_text_le_total(a.drop_first(), b.drop_first());
    }
}

proof fn lemma_text_le_trans(a: Seq<char>, b: Seq<char>, c: Seq<char>)
    requires
        text_le(a, b),
        text_le(b, c),
    ensures
        text_le(a, c),
    decreases a.len(),
{
    if a.len() > 0 && b.len() > 0 && c.len() > 0 && (a[0] as u32) == (b[0] as u32) && (b[0] as u32)
        == (c[0] as u32) {
        lemma_text_le_trans(a.drop_first(), b.drop_first(), c.drop_first());
    }
}

/// All keys are of one kind: all numbers or all texts.
pub open spec fn uniform(keys: Seq<KeyView>) -> bool {
    ||| forall|k: int| 0 <= k < keys.len() ==> #[trigger] keys[k] is Int
    ||| forall|k: int| 0 <= k < keys.len() ==> #[trigger] keys[k] is Text
}

proof fn lemma_goes_before_total(keys: Seq<KeyView>, i: int, j: int, descending: bool)
    requires
        uniform(keys),
        0 <= i < keys.len(),
        0 <= j < keys.len(),
    ensures
        goes_before(keys[i], keys[j], descending) || goes_before(keys[j], keys[i], descending),
{
    match (keys[i], keys[j]) {
        (KeyView::Text(x), KeyView::Text(y)) => lemma_text_le_total(x, y),
        _ => {},
    }
}

proof fn lemma_goes_before_trans(keys: Seq<KeyView>, i: int, j: int, k: int, descending: bool)
    requires
        uniform(keys),
        0 <= i < keys.len(),
        0 <= j < keys.len(),
        0 <= k < keys.len(),
        goes_before(keys[i], keys[j], descending),
        goes_before(keys[j], keys[k], descending),
    ensures
        goes_before(keys[i], keys[k], descending),
{
    match (keys[i], keys[j], keys[k]) {
        (KeyView::Text(x), KeyView::Text(y), KeyView::Text(z)) => {
            if descending {
                lemma_text_le_trans(z, y, x);
            } else {
                lemma_text_le_trans(x, y, z);
            }
        },
        _ => {},
    }
}

/// The chosen order is sorted: every row may stay before every later one.
pub proof fn order_is_sorted(keys: Seq<KeyView>, n: int, descending: bool)
    requires
        uniform(keys),
        0 <= n <= keys.len(),
    ensures
        forall|i: int, j: int|
            0 <= i < j < n ==> goes_before(
                keys[#[trigger] stable_order(keys, n, descending)[i]],
                keys[#[trigger] stable_order(keys, n, descending)[j]],
                descending,
            ),
    decreases n,
{
    if n > 0 {
        let o = stable_order(keys, n - 1, descending);
        order_is_sorted(keys, n - 1, descending);
        order_holds_every_row_once(keys, n - 1, descending);
        lemma_insert_position_bounds(keys, o, n - 1, descending, 0);
        let p = insert_position(keys, o, n - 1, descending, 0);
        let r = stable_order(keys, n, descending);
        assert(r == o.insert(p, n - 1));
        o.insert_ensures(p, n - 1);
        if p < o.len() {
            lemma_goes_before_total(keys, o[p], n - 1, descending);
        }
        assert forall|i: int, j: int| 0 <= i < j < n implies goes_before(
            keys[#[trigger] r[i]],
            keys[#[trigger] r[j]],
            descending,
        ) by {
            if j < p {
                assert(r[i] == o[i] && r[j] == o[j]);
            } else if j == p {
                assert(r[i] == o[i]);
            } else if i < p {
                assert(r[i] == o[i] && r[j] == o[j - 1]);
            } else if i == p {
                assert(r[j] == o[j - 1]);
                if j - 1 > p {
                    lemma_goes_before_trans(keys, n - 1, o[p], o[j - 1], descending);
                }
            } else {
                assert(r[i] == o[i - 1] && r[j] == o[j - 1]);
            }
        }
    }
}

/// Rows with equal keys keep the order they came in.
pub proof fn order_keeps_equal_rows_in_place(keys: Seq<KeyView>, n: int, descending: bool)
    requires
        uniform(keys),
        0 <= n <= keys.len(),
    ensures
        forall|i: int, j: int|
            0 <= i < n && 0 <= j < n && #[trigger] stable_order(keys, n, descending)[i]
                < #[trigger] stable_order(keys, n, descending)[j] && key_le(
                keys[stable_order(keys, n, descending)[i]],
                keys[stable_order(keys, n, descending)[j]],
            ) && key_le(
                keys[stable_order(keys, n, descending)[j]],
                keys[stable_order(keys, n, descending)[i]],
            ) ==> i < j,
    decreases n,
{
    if n > 0 {
        let o = stable_order(keys, n - 1, descending);
        order_keeps_equal_rows_in_place(keys, n - 1, descending);
        order_is_sorted(keys, n - 1, descending);
        order_holds_every_row_once(keys, n - 1, descending);
        lemma_insert_position_bounds(keys, o, n - 1, descending, 0);
        let p = insert_position(keys, o, n - 1, descending, 0);
        let r = stable_order(keys, n, descending);
        assert(r == o.insert(p, n - 1));
        o.insert_ensures(p, n - 1);
        assert forall|i: int, j: int|
            0 <= i < n && 0 <= j < n && #[trigger] r[i] < #[trigger] r[j] && key_le(
                keys[r[i]],
                keys[r[j]],
            ) && key_le(keys[r[j]], keys[r[i]]) implies i < j by {
            if i == p {
                assert(r[j] < n - 1 || r[j] == n - 1);
                if j < p {
                    assert(r[j] == o[j]);
                } else if j > p {
                    assert(r[j] == o[j - 1]);
                }
            } else if j == p {
                if i > p {
                    assert(r[i] == o[i - 1]);
                    if i - 1 > p {
                        assert(goes_before(keys[o[p]], keys[o[i - 1]], descending));
                    }
                    let x = o[p];
                    let y = o[i - 1];
                    let z = n - 1;
                    if descending {
                        assert(key_le(keys[y], keys[x]));
                        assert(key_le(keys[z], keys[y]));
                        lemma_goes_before_trans(keys, z, y, x, false);
                    } else {
                        assert(key_le(keys[x], keys[y]));
                        assert(key_le(keys[y], keys[z]));
                        lemma_goes_before_trans(keys, x, y, z, false);
                    }
                }
            } else {
                let oi = if i < p {
                    i
                } else {
                    i - 1
                };
                let oj = if j < p {
                    j
                } else {
                    j - 1
                };
                assert(r[i] == o[oi] && r[j] == o[oj]);
            }
        }
    }
}

} // verus!
