//! Stable sorting by text keys.
//!
//! Text is ordered as `str` orders it: by code points, a proper prefix
//! first. (Byte order of UTF-8 and code point order agree.)
use vstd::prelude::*;

verus! {

/// `a` comes strictly before `b` in code point order.
pub open spec fn chars_lt(a: Seq<char>, b: Seq<char>) -> bool
    decreases a.len(),
{
    if a.len() == 0 {
        b.len() > 0
    } else if b.len() == 0 {
        false
    } else if a[0] != b[0] {
        (a[0] as int) < (b[0] as int)
    } else {
        chars_lt(a.drop_first(), b.drop_first())
    }
}

/// A sort key: a rank, compared first, then a text.
pub struct SortKey {
    /// Smaller ranks come first.
    pub rank: u8,
    /// Within a rank, texts in code point order.
    pub text: Vec<char>,
}

/// A sort key's value: rank, then text.
pub type Key = (u8, Seq<char>);

impl SortKey {
    /// The key's value.
    pub open spec fn view(&self) -> Key {
        (self.rank, self.text@)
    }
}

/// The values of `keys`.
pub open spec fn key_views(keys: Seq<SortKey>) -> Seq<Key> {
    keys.map_values(|k: SortKey| k@)
}

/// `a` sorts strictly before `b`.
pub open spec fn key_lt(a: Key, b: Key) -> bool {
    a.0 < b.0 || (a.0 == b.0 && chars_lt(a.1, b.1))
}

/// `order` lists the indices of `keys` in stable sorted order: every index
/// once, keys never decreasing, and indices of equal keys in the order
/// they had.
pub open spec fn stably_sorted(keys: Seq<Key>, order: Seq<usize>) -> bool {
    &&& order.len() == keys.len()
    &&& forall|i: int| 0 <= i < order.len() ==> #[trigger] order[i] < keys.len()
    &&& forall|i: int, j: int| 0 <= i < j < order.len() ==> order[i] != order[j]
    &&& forall|i: int, j: int|
        0 <= i < j < order.len() ==> !key_lt(keys[order[j] as int], keys[order[i] as int])
    &&& forall|i: int, j: int|
        0 <= i < j < order.len() && !key_lt(keys[order[i] as int], keys[order[j] as int])
            ==> order[i] < order[j]
}

proof fn lemma_chars_lt_irreflexive(a: Seq<char>)
    ensures
        !chars_lt(a, a),
    decreases a.len(),
{
    if a.len() > 0 {
        lemma_chars_lt_irreflexive(a.drop_first());
    }
}

proof fn lemma_chars_lt_transitive(a: Seq<char>, b: Seq<char>, c: Seq<char>)
    requires
        chars_lt(a, b),
        chars_lt(b, c),
    ensures
        chars_lt(a, c),
    decreases a.len(),
{
    if a.len() > 0 && b.len() > 0 && c.len() > 0 && a[0] == b[0] && b[0] == c[0] {
        lemma_chars_lt_transitive(a.drop_first(), b.drop_first(), c.drop_first());
    }
}

proof fn lemma_chars_lt_total(a: Seq<char>, b: Seq<char>)
    ensures
        a == b || chars_lt(a, b) || chars_lt(b, a),
    decreases a.len(),
{
    if a.len() > 0 && b.len() > 0 {
        if a[0] == b[0] {
            lemma_chars_lt_total(a.drop_first(), b.drop_first());
            if a.drop_first() == b.drop_first() {
                assert(a =~= seq![a[0]] + a.drop_first());
                assert(b =~= seq![b[0]] + b.drop_first());
            }
        } else {
            assert((a[0] as int) != (b[0] as int));
        }
    } else if a.len() == 0 && b.len() == 0 {
        assert(a =~= b);
    }
}

/// `key_lt` is a strict total order on key values.
proof fn lemma_key_order(a: Key, b: Key, c: Key)
    ensures
        !key_lt(a, a),
        key_lt(a, b) && key_lt(b, c) ==> key_lt(a, c),
        key_lt(a, b) ==> !key_lt(b, a),
        a == b || key_lt(a, b) || key_lt(b, a),
{
    lemma_chars_lt_irreflexive(a.1);
    if key_lt(a, b) && key_lt(b, c) && a.0 == b.0 && b.0 == c.0 {
        lemma_chars_lt_transitive(a.1, b.1, c.1);
    }
    if key_lt(a, b) && a.0 == b.0 && chars_lt(b.1, a.1) {
        lemma_chars_lt_transitive(a.1, b.1, a.1);
    }
    lemma_chars_lt_total(a.1, b.1);
}

proof fn lemma_lt_le(a: Key, b: Key, c: Key)
    requires
        key_lt(a, b),
        !key_lt(c, b),
    ensures
        key_lt(a, c),
{
    lemma_key_order(b, c, a);
    lemma_key_order(a, b, c);
}

/// Whether `a` comes strictly before `b` in code point order.
pub fn chars_less(a: &Vec<char>, b: &Vec<char>) -> (r: bool)
    ensures
        r == chars_lt(a@, b@),
{
    let n = if a.len() < b.len() {
        a.len()
    } else {
        b.len()
    };
    let mut i: usize = 0;
    assert(a@.skip(0) =~= a@);
    assert(b@.skip(0) =~= b@);
    while i < n
        invariant
            n <= a@.len(),
            n <= b@.len(),
            i <= n,
            n == a@.len() || n == b@.len(),
            chars_lt(a@, b@) == chars_lt(a@.skip(i as int), b@.skip(i as int)),
        decreases n - i,
    {
        let x = a[i];
        let y = b[i];
        assert(a@.skip(i as int)[0] == x);
        assert(b@.skip(i as int)[0] == y);
        if x != y {
            return x < y;
        }
        assert(a@.skip(i as int).drop_first() =~= a@.skip(i + 1));
        assert(b@.skip(i as int).drop_first() =~= b@.skip(i + 1));
        i = i + 1;
    }
    assert(a@.skip(i as int).len() == 0 || b@.skip(i as int).len() == 0);
    a.len() < b.len()
}

/// Whether key `a` sorts strictly before key `b`.
pub fn key_less(a: &SortKey, b: &SortKey) -> (r: bool)
    ensures
        r == key_lt(a@, b@),
{
    if a.rank != b.rank {
        a.rank < b.rank
    } else {
        chars_less(&a.text, &b.text)
    }
}

/// The indices of `keys` in stable sorted order (insertion sort).
pub fn stable_order(keys: &Vec<SortKey>) -> (order: Vec<usize>)
    ensures
        stably_sorted(key_views(keys@), order@),
{
    let ghost kv = key_views(keys@);
    let n = keys.len();
    let mut order: Vec<usize> = Vec::new();
    let mut i: usize = 0;
    while i < n
        invariant
            n == keys@.len(),
            kv == key_views(keys@),
            kv.len() == n,
            i <= n,
            order@.len() == i,
            forall|a: int| 0 <= a < order@.len() ==> #[trigger] order@[a] < i,
            forall|a: int, b: int| 0 <= a < b < order@.len() ==> order@[a] != order@[b],
            forall|a: int, b: int|
                0 <= a < b < order@.len() ==> !key_lt(
                    kv[order@[b] as int],
                    kv[order@[a] as int],
                ),
            forall|a: int, b: int|
                0 <= a < b < order@.len() && !key_lt(
                    kv[order@[a] as int],
                    kv[order@[b] as int],
                ) ==> order@[a] < order@[b],
        decreases n - i,
    {
        let m = order.len();
        let mut p: usize = 0;
        while p < m && !key_less(&keys[i], &keys[order[p]])
            invariant
                n == keys@.len(),
                kv == key_views(keys@),
                kv.len() == n,
                i < n,
                m == order@.len(),
                p <= m,
                forall|a: int| 0 <= a < order@.len() ==> #[trigger] order@[a] < i,
                forall|q: int|
                    0 <= q < p ==> !key_lt(kv[i as int], #[trigger] kv[order@[q] as int]),
            decreases m - p,
        {
            p = p + 1;
        }
        let ghost old_order = order@;
        order.insert(p, i);
        proof {
            let ki = kv[i as int];
            assert forall|a: int, b: int| 0 <= a < b < order@.len() implies !key_lt(
                kv[order@[b] as int],
                kv[order@[a] as int],
            ) && (!key_lt(kv[order@[a] as int], kv[order@[b] as int]) ==> order@[a]
                < order@[b]) by {
                let ka = kv[order@[a] as int];
                let kb = kv[order@[b] as int];
                lemma_key_order(ka, kb, ki);
                lemma_key_order(kb, ka, ki);
                if b < p {
                    assert(order@[a] == old_order[a] && order@[b] == old_order[b]);
                } else if b == p {
                    assert(order@[a] == old_order[a]);
                    assert(!key_lt(ki, ka));
                } else if a == p {
                    assert(order@[b] == old_order[b - 1]);
                    let kp = kv[old_order[p as int] as int];
                    if b - 1 > p {
                        assert(!key_lt(kb, kp));
                        lemma_lt_le(ki, kp, kb);
                    }
                    assert(key_lt(ki, kb));
                } else if a < p {
                    assert(order@[a] == old_order[a] && order@[b] == old_order[b - 1]);
                } else {
                    assert(order@[a] == old_order[a - 1] && order@[b] == old_order[b - 1]);
                }
            }
            assert forall|a: int, b: int| 0 <= a < b < order@.len() implies order@[a]
                != order@[b] by {
                if a < p && b < p {
                    assert(order@[a] == old_order[a] && order@[b] == old_order[b]);
                } else if a < p && b > p {
                    assert(order@[a] == old_order[a] && order@[b] == old_order[b - 1]);
                } else if a > p {
                    assert(order@[a] == old_order[a - 1] && order@[b] == old_order[b - 1]);
                }
            }
            assert forall|a: int| 0 <= a < order@.len() implies #[trigger] order@[a] < i + 1 by {
                if a < p {
                    assert(order@[a] == old_order[a]);
                } else if a > p {
                    assert(order@[a] == old_order[a - 1]);
                }
            }
        }
        i = i + 1;
    }
    order
}

/// The elements of `items` in the order that `order` lists their indices.
pub open spec fn arranged<T>(items: Seq<T>, order: Seq<usize>) -> Seq<T> {
    order.map_values(|i: usize| items[i as int])
}

/// Some earlier position of `order` holds `j`.
pub open spec fn listed_before(order: Seq<usize>, k: int, j: int) -> bool {
    exists|a: int| 0 <= a < k && order[a] == j
}

/// Moves the elements of `items` into the order that `order` gives, a list
/// of each of its indices once.
pub fn arrange<T>(items: Vec<T>, order: &Vec<usize>) -> (r: Vec<T>)
    requires
        order@.len() == items@.len(),
        forall|i: int| 0 <= i < order@.len() ==> #[trigger] order@[i] < items@.len(),
        forall|i: int, j: int| 0 <= i < j < order@.len() ==> order@[i] != order@[j],
    ensures
        r@ == arranged(items@, order@),
{
    let ghost orig = items@;
    let n = items.len();
    let mut items = items;
    let mut slots: Vec<Option<T>> = Vec::new();
    let mut i: usize = 0;
    while i < n
        invariant
            n == orig.len(),
            i <= n,
            items@ == orig.skip(i as int),
            slots@.len() == i,
            forall|j: int| 0 <= j < i ==> #[trigger] slots@[j] == Some(orig[j]),
        decreases n - i,
    {
        let x = items.remove(0);
        assert(orig.skip(i as int).remove(0) =~= orig.skip(i + 1));
        slots.push(Some(x));
        i = i + 1;
    }
    let mut r: Vec<T> = Vec::new();
    let mut k: usize = 0;
    while k < n
        invariant
            n == orig.len(),
            order@.len() == n,
            forall|a: int| 0 <= a < n ==> #[trigger] order@[a] < n,
            forall|a: int, b: int| 0 <= a < b < n ==> order@[a] != order@[b],
            k <= n,
            slots@.len() == n,
            forall|j: int|
                0 <= j < n ==> #[trigger] slots@[j] == if listed_before(order@, k as int, j) {
                    None
                } else {
                    Some(orig[j])
                },
            r@ == arranged(orig, order@.take(k as int)),
        decreases n - k,
    {
        let j = order[k];
        assert(!listed_before(order@, k as int, j as int)) by {
            if listed_before(order@, k as int, j as int) {
                let a = choose|a: int| 0 <= a < k && order@[a] == j;
                assert(order@[a] != order@[k as int]);
            }
        }
        let x = slots[j].take();
        let ghost taken = x;
        assert(taken == Some(orig[j as int]));
        match x {
            Some(v) => {
                r.push(v);
            },
            None => {},
        }
        proof {
            assert forall|q: int| 0 <= q < n implies #[trigger] slots@[q] == if listed_before(
                order@,
                k + 1,
                q,
            ) {
                None
            } else {
                Some(orig[q])
            } by {
                if q == j {
                    assert(listed_before(order@, k + 1, q));
                } else {
                    if listed_before(order@, k + 1, q) {
                        let a = choose|a: int| 0 <= a < k + 1 && order@[a] == q;
                        assert(a < k);
                        assert(listed_before(order@, k as int, q));
                    }
                    if listed_before(order@, k as int, q) {
                        let a = choose|a: int| 0 <= a < k && order@[a] == q;
                        assert(listed_before(order@, k + 1, q));
                    }
                }
            }
            assert(arranged(orig, order@.take(k + 1)) =~= arranged(orig, order@.take(k as int)).push(
                orig[j as int],
            ));
        }
        k = k + 1;
    }
    assert(order@.take(n as int) =~= order@);
    r
}

} // verus!
