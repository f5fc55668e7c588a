//! Orders on texts and sort keys, and a stable ordering of items by key.

use vstd::prelude::*;

verus! {

/// `a` comes strictly before `b` in lexicographic order of their characters
/// (the order of `str`, since UTF-8 keeps the order of code points).
pub open spec fn text_lt(a: Seq<char>, b: Seq<char>) -> bool {
    exists|i: int|
        0 <= i <= a.len() && i <= b.len() && #[trigger] a.take(i) == b.take(i) && (
            (i == a.len() && i < b.len()) || (i < a.len() && i < b.len() && (a[i] as u32) < (b[i] as u32)))
}

/// Whether `a` comes strictly before `b` in lexicographic order.
pub fn text_less(a: &str, b: &str) -> (r: bool)
    ensures
        r == text_lt(a@, b@),
{
    let n = a.unicode_len();
    let m = b.unicode_len();
    let mut i: usize = 0;
    while i < n && i < m
        invariant
            n == a@.len(),
            m == b@.len(),
            i <= n,
            i <= m,
            a@.take(i as int) == b@.take(i as int),
        decreases n - i,
    {
        let x = a.get_char(i);
        let y = b.get_char(i);
        if x != y {
            let r = (x as u32) < (y as u32);
            proof {
                if r {
                    assert(a@.take(i as int) == b@.take(i as int));
                } else {
                    assert forall|j: int|
                        0 <= j <= a@.len() && j <= b@.len() && #[trigger] a@.take(j) == b@.take(j) implies !(
                            (j == a@.len() && j < b@.len()) || (j < a@.len() && j < b@.len() && (a@[j] as u32) < (b@[j] as u32))) by {
                        if j > i {
                            assert(a@.take(j)[i as int] == b@.take(j)[i as int]);
                        } else if j < i {
                            assert(a@.take(i as int)[j] == b@.take(i as int)[j]);
                        }
                    }
                }
            }
            return r;
        }
        assert(a@.take(i as int + 1) =~= a@.take(i as int).push(x));
        assert(b@.take(i as int + 1) =~= b@.take(i as int).push(y));
        i = i + 1;
    }
    let r = i == n && i < m;
    proof {
        if !r {
            assert forall|j: int|
                0 <= j <= a@.len() && j <= b@.len() && #[trigger] a@.take(j) == b@.take(j) implies !(
                    (j == a@.len() && j < b@.len()) || (j < a@.len() && j < b@.len() && (a@[j] as u32) < (b@[j] as u32))) by {
                if j < i {
                    assert(a@.take(i as int)[j] == b@.take(i as int)[j]);
                }
            }
        }
    }
    r
}

/// A sort key: a small rank first, then a text.
pub struct SortKey {
    pub rank: u32,
    pub text: String,
}

/// The mathematical value of a sort key.
pub struct SortKeyView {
    pub rank: u32,
    pub text: Seq<char>,
}

impl View for SortKey {
    type V = SortKeyView;

    open spec fn view(&self) -> SortKeyView {
        SortKeyView { rank: self.rank, text: self.text@ }
    }
}

/// `a` comes strictly before `b`: a smaller rank, or the same rank and a smaller text.
pub open spec fn key_lt(a: SortKeyView, b: SortKeyView) -> bool {
    a.rank < b.rank || (a.rank == b.rank && text_lt(a.text, b.text))
}

/// Whether key `a` comes strictly before key `b`.
pub fn key_less(a: &SortKey, b: &SortKey) -> (r: bool)
    ensures
        r == key_lt(a@, b@),
{
    a.rank < b.rank || (a.rank == b.rank && text_less(a.text.as_str(), b.text.as_str()))
}

/// Item `x` goes before item `y` in a stable sort by `keys`: its key is smaller,
/// or the keys tie and it came first.
pub open spec fn goes_before(keys: Seq<SortKeyView>, x: int, y: int) -> bool {
    key_lt(keys[x], keys[y]) || (!key_lt(keys[y], keys[x]) && x < y)
}

/// `order` lists every index of `keys` once, in the order of a stable sort by key.
pub open spec fn is_stable_order(keys: Seq<SortKeyView>, order: Seq<int>) -> bool {
    &&& order.len() == keys.len()
    &&& forall|i: int| 0 <= i < order.len() ==> 0 <= #[trigger] order[i] < keys.len()
    &&& forall|i: int, j: int| 0 <= i < j < order.len() ==> order[i] != order[j]
    &&& forall|k: int| 0 <= k < keys.len() ==> #[trigger] order.contains(k)
    &&& forall|i: int| 0 <= i < order.len() - 1 ==> goes_before(keys, #[trigger] order[i], order[i + 1])
}

/// Whether index `k` occurs in a list of indices.
pub open spec fn occurs(order: Seq<usize>, k: int) -> bool {
    exists|i: int| 0 <= i < order.len() && #[trigger] order[i] == k
}

/// The indices of `keys` in the order of a stable sort by key.
pub fn stable_order(keys: &Vec<SortKey>) -> (r: Vec<usize>)
    ensures
        is_stable_order(keys@.map_values(|k: SortKey| k@), r@.map_values(|i: usize| i as int)),
{
    let ghost ks = keys@.map_values(|k: SortKey| k@);
    let mut order: Vec<usize> = Vec::new();
    let mut j: usize = 0;
    while j < keys.len()
        invariant
            j <= keys@.len(),
            ks == keys@.map_values(|k: SortKey| k@),
            order@.len() == j,
            forall|i: int| 0 <= i < order@.len() ==> #[trigger] order@[i] < j,
            forall|a: int, b: int| 0 <= a < b < order@.len() ==> order@[a] != order@[b],
            forall|k: int| 0 <= k < j ==> #[trigger] occurs(order@, k),
            forall|i: int| 0 <= i < order@.len() - 1 ==> goes_before(ks, #[trigger] order@[i] as int, order@[i + 1] as int),
        decreases keys@.len() - j,
    {
        let mut p: usize = 0;
        while p < order.len() && !key_less(&keys[j], &keys[order[p]])
            invariant
                j < keys@.len(),
                ks == keys@.map_values(|k: SortKey| k@),
                p <= order@.len(),
                forall|i: int| 0 <= i < order@.len() ==> #[trigger] order@[i] < j,
                forall|q: int| 0 <= q < p ==> !key_lt(ks[j as int], #[trigger] ks[order@[q] as int]),
            decreases order@.len() - p,
        {
            p = p + 1;
        }
        let ghost old_order = order@;
        order.insert(p, j);
        proof {
            assert(order@ == old_order.insert(p as int, j));
            assert forall|i: int| 0 <= i < order@.len() - 1 implies goes_before(ks, #[trigger] order@[i] as int, order@[i + 1] as int) by {
                if i + 1 < p {
                    assert(order@[i] == old_order[i] && order@[i + 1] == old_order[i + 1]);
                } else if i + 1 == p {
                    assert(order@[i] == old_order[i]);
                    assert(order@[i + 1] == j);
                    assert(!key_lt(ks[j as int], ks[old_order[i] as int]));
                } else if i == p {
                    assert(order@[i] == j);
                    assert(order@[i + 1] == old_order[p as int]);
                } else {
                    assert(order@[i] == old_order[i - 1] && order@[i + 1] == old_order[i]);
                }
            }
            assert forall|a: int, b: int| 0 <= a < b < order@.len() implies order@[a] != order@[b] by {
                if a < p && b < p {
                } else if a < p && b == p {
                    assert(old_order[a] < j);
                } else if a < p {
                    assert(order@[b] == old_order[b - 1]);
                } else if a == p {
                    assert(order@[b] == old_order[b - 1]);
                    assert(old_order[b - 1] < j);
                } else {
                    assert(order@[a] == old_order[a - 1]);
                    assert(order@[b] == old_order[b - 1]);
                }
            }
            assert forall|k: int| 0 <= k < j + 1 implies #[trigger] occurs(order@, k) by {
                if k == j {
                    assert(order@[p as int] == k);
                } else {
                    assert(occurs(old_order, k));
                    let i = choose|i: int| 0 <= i < old_order.len() && #[trigger] old_order[i] == k;
                    if i < p {
                        assert(order@[i] == k);
                    } else {
                        assert(order@[i + 1] == k);
                    }
                }
            }
            assert forall|i: int| 0 <= i < order@.len() implies #[trigger] order@[i] < j + 1 by {
                if i < p {
                    assert(order@[i] == old_order[i]);
                } else if i > p {
                    assert(order@[i] == old_order[i - 1]);
                }
            }
        }
        j = j + 1;
    }
    let ghost os = order@.map_values(|i: usize| i as int);
    assert(os.len() == ks.len());
    assert forall|i: int| 0 <= i < os.len() - 1 implies goes_before(ks, #[trigger] os[i], os[i + 1]) by {
        assert(os[i] == order@[i] as int);
    }
    assert forall|a: int, b: int| 0 <= a < b < os.len() implies os[a] != os[b] by {
        assert(os[a] == order@[a] as int);
    }
    assert forall|k: int| 0 <= k < ks.len() implies #[trigger] os.contains(k) by {
        assert(occurs(order@, k));
        let i = choose|i: int| 0 <= i < order@.len() && #[trigger] order@[i] == k;
        assert(os[i] == k);
    }
    order
}

/// No text comes both before and after another.
pub proof fn lemma_text_lt_asymmetric(a: Seq<char>, b: Seq<char>)
    requires
        text_lt(a, b),
    ensures
        !text_lt(b, a),
{
    let i = choose|i: int|
        0 <= i <= a.len() && i <= b.len() && #[trigger] a.take(i) == b.take(i) && (
            (i == a.len() && i < b.len()) || (i < a.len() && i < b.len() && (a[i] as u32) < (b[i] as u32)));
    if text_lt(b, a) {
        let j = choose|j: int|
            0 <= j <= b.len() && j <= a.len() && #[trigger] b.take(j) == a.take(j) && (
                (j == b.len() && j < a.len()) || (j < b.len() && j < a.len() && (b[j] as u32) < (a[j] as u32)));
        if i < j {
            assert(a.take(j)[i] == b.take(j)[i]);
        } else if j < i {
            assert(a.take(i)[j] == b.take(i)[j]);
        }
    }
}

/// No key comes both before and after another.
pub proof fn lemma_key_lt_asymmetric(a: SortKeyView, b: SortKeyView)
    requires
        key_lt(a, b),
    ensures
        !key_lt(b, a),
{
    if a.rank == b.rank {
        lemma_text_lt_asymmetric(a.text, b.text);
    }
}

/// An item that goes before another has a key no larger than the other's.
pub proof fn lemma_goes_before_key(keys: Seq<SortKeyView>, x: int, y: int)
    requires
        goes_before(keys, x, y),
    ensures
        !key_lt(keys[y], keys[x]),
{
    if key_lt(keys[x], keys[y]) {
        lemma_key_lt_asymmetric(keys[x], keys[y]);
    }
}

} // verus!
