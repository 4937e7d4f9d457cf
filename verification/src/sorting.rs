//! A stable sort by two-level string keys, as `slice::sort_by` does it with a
//! comparator that compares an optional primary text (possibly reversed) and
//! then a secondary text.
use crate::text::{compare_str, lemma_order_antisym, lemma_order_trans, seq_order};
use vstd::prelude::*;

verus! {

/// A sort key: an optional primary text (absent sorts first, as `None` does
/// in `Option`'s order) and a secondary text.
pub struct SortKey {
    pub has_primary: bool,
    pub primary: String,
    pub secondary: String,
}

pub struct KeyView {
    pub has_primary: bool,
    pub primary: Seq<char>,
    pub secondary: Seq<char>,
}

impl View for SortKey {
    type V = KeyView;

    open spec fn view(&self) -> KeyView {
        KeyView { has_primary: self.has_primary, primary: self.primary@, secondary: self.secondary@ }
    }
}

pub open spec fn primary_order(a: KeyView, b: KeyView) -> int {
    if a.has_primary && b.has_primary {
        seq_order(a.primary, b.primary)
    } else if a.has_primary {
        1
    } else if b.has_primary {
        -1
    } else {
        0
    }
}

/// The order of two keys: by primary text (reversed when `desc`), then by
/// secondary text; -1, 0 or 1.
pub open spec fn key_order(a: KeyView, b: KeyView, desc: bool) -> int {
    let p = if desc {
        -primary_order(a, b)
    } else {
        primary_order(a, b)
    };
    if p != 0 {
        p
    } else {
        seq_order(a.secondary, b.secondary)
    }
}

pub proof fn lemma_key_order_antisym(a: KeyView, b: KeyView, desc: bool)
    ensures
        key_order(a, b, desc) == -key_order(b, a, desc),
        -1 <= key_order(a, b, desc) <= 1,
{
    lemma_order_antisym(a.primary, b.primary);
    lemma_order_antisym(a.secondary, b.secondary);
}

pub proof fn lemma_key_order_trans(a: KeyView, b: KeyView, c: KeyView, desc: bool)
    requires
        key_order(a, b, desc) <= 0,
        key_order(b, c, desc) <= 0,
    ensures
        key_order(a, c, desc) <= 0,
        key_order(a, b, desc) < 0 || key_order(b, c, desc) < 0 ==> key_order(a, c, desc) < 0,
{
    lemma_order_antisym(a.primary, b.primary);
    lemma_order_antisym(b.primary, c.primary);
    lemma_order_antisym(a.primary, c.primary);
    lemma_order_antisym(a.secondary, b.secondary);
    lemma_order_antisym(b.secondary, c.secondary);
    lemma_order_antisym(a.secondary, c.secondary);
    if a.has_primary && b.has_primary && c.has_primary {
        if desc {
            if seq_order(b.primary, a.primary) <= 0 && seq_order(c.primary, b.primary) <= 0 {
                lemma_order_trans(c.primary, b.primary, a.primary);
            }
        } else {
            if seq_order(a.primary, b.primary) <= 0 && seq_order(b.primary, c.primary) <= 0 {
                lemma_order_trans(a.primary, b.primary, c.primary);
            }
        }
    }
    if primary_order(a, b) == 0 && primary_order(b, c) == 0 {
        if a.has_primary && b.has_primary && c.has_primary {
            assert(a.primary == b.primary && b.primary == c.primary);
        }
        lemma_order_trans(a.secondary, b.secondary, c.secondary);
    }
}

pub fn compare_keys(a: &SortKey, b: &SortKey, desc: bool) -> (r: i8)
    ensures
        r as int == key_order(a@, b@, desc),
{
    proof {
        lemma_order_antisym(a.primary@, b.primary@);
    }
    let p: i8 = if a.has_primary && b.has_primary {
        compare_str(a.primary.as_str(), b.primary.as_str())
    } else if a.has_primary {
        1
    } else if b.has_primary {
        -1
    } else {
        0
    };
    let p2: i8 = if desc {
        -p
    } else {
        p
    };
    if p2 != 0 {
        p2
    } else {
        compare_str(a.secondary.as_str(), b.secondary.as_str())
    }
}

pub open spec fn keys_view(k: Seq<SortKey>) -> Seq<KeyView> {
    k.map_values(|x: SortKey| x@)
}

/// `r` lists each of `0..n` exactly once.
pub open spec fn is_permutation(r: Seq<usize>, n: nat) -> bool {
    &&& r.len() == n
    &&& forall|a: int| 0 <= a < r.len() ==> #[trigger] r[a] < n
    &&& forall|a: int, b: int| 0 <= a < b < r.len() ==> r[a] != r[b]
}

/// The keys taken in the order `r` are ascending.
pub open spec fn is_sorted_by_keys(r: Seq<usize>, k: Seq<KeyView>, desc: bool) -> bool {
    forall|a: int, b: int|
        0 <= a < b < r.len() ==> key_order(k[r[a] as int], k[r[b] as int], desc) <= 0
}

/// Entries with equal keys keep their original relative order.
pub open spec fn is_stable_by_keys(r: Seq<usize>, k: Seq<KeyView>, desc: bool) -> bool {
    forall|a: int, b: int|
        0 <= a < b < r.len() && key_order(k[r[a] as int], k[r[b] as int], desc) == 0 ==> r[a]
            < r[b]
}

/// The order in which a stable sort by `keys` puts the entries `0..n`.
pub fn stable_sort_order(keys: &Vec<SortKey>, desc: bool) -> (r: Vec<usize>)
    ensures
        is_permutation(r@, keys@.len()),
        is_sorted_by_keys(r@, keys_view(keys@), desc),
        is_stable_by_keys(r@, keys_view(keys@), desc),
{
    let ghost k = keys_view(keys@);
    let n = keys.len();
    let mut r: Vec<usize> = Vec::new();
    let mut i: usize = 0;
    while i < n
        invariant
            n == keys@.len(),
            k == keys_view(keys@),
            k.len() == n,
            i <= n,
            r@.len() == i,
            forall|a: int| 0 <= a < r@.len() ==> #[trigger] r@[a] < i,
            forall|a: int, b: int| 0 <= a < b < r@.len() ==> r@[a] != r@[b],
            is_sorted_by_keys(r@, k, desc),
            is_stable_by_keys(r@, k, desc),
        decreases n - i,
    {
        let mut p: usize = 0;
        while p < r.len() && compare_keys(&keys[r[p]], &keys[i], desc) <= 0
            invariant
                n == keys@.len(),
                k == keys_view(keys@),
                k.len() == n,
                i < n,
                r@.len() == i,
                p <= r@.len(),
                forall|a: int| 0 <= a < r@.len() ==> #[trigger] r@[a] < i,
                forall|q: int| 0 <= q < p ==> key_order(k[r@[q] as int], k[i as int], desc) <= 0,
            decreases r@.len() - p,
        {
            assert(keys@[r@[p as int] as int]@ == k[r@[p as int] as int]);
            p = p + 1;
        }
        proof {
            if p < r@.len() {
                assert(keys@[r@[p as int] as int]@ == k[r@[p as int] as int]);
                assert(key_order(k[r@[p as int] as int], k[i as int], desc) > 0);
            }
            assert forall|q: int| p <= q < r@.len() implies key_order(
                k[i as int],
                k[#[trigger] r@[q] as int],
                desc,
            ) < 0 by {
                lemma_key_order_antisym(k[r@[p as int] as int], k[i as int], desc);
                if q > p {
                    assert(key_order(k[r@[p as int] as int], k[r@[q] as int], desc) <= 0);
                    lemma_key_order_trans(
                        k[i as int],
                        k[r@[p as int] as int],
                        k[r@[q] as int],
                        desc,
                    );
                }
            }
        }
        let ghost old_r = r@;
        r.insert(p, i);
        proof {
            let nr = r@;
            assert(nr.len() == i + 1);
            assert forall|a: int| 0 <= a < nr.len() implies #[trigger] nr[a] < i + 1 by {
                if a < p {
                    assert(nr[a] == old_r[a]);
                } else if a > p {
                    assert(nr[a] == old_r[a - 1]);
                }
            }
            assert forall|a: int, b: int| 0 <= a < b < nr.len() implies nr[a] != nr[b] by {
                if a < p && b < p {
                    assert(nr[a] == old_r[a] && nr[b] == old_r[b]);
                } else if a < p && b == p {
                    assert(nr[a] == old_r[a]);
                } else if a < p && b > p {
                    assert(nr[a] == old_r[a] && nr[b] == old_r[b - 1]);
                } else if a == p {
                    assert(nr[b] == old_r[b - 1]);
                } else {
                    assert(nr[a] == old_r[a - 1] && nr[b] == old_r[b - 1]);
                }
            }
            assert forall|a: int, b: int| 0 <= a < b < nr.len() implies key_order(
                k[nr[a] as int],
                k[nr[b] as int],
                desc,
            ) <= 0 && (key_order(k[nr[a] as int], k[nr[b] as int], desc) == 0 ==> nr[a]
                < nr[b]) by {
                if a < p && b < p {
                    assert(nr[a] == old_r[a] && nr[b] == old_r[b]);
                } else if a < p && b == p {
                    assert(nr[a] == old_r[a]);
                    assert(nr[b] == i);
                } else if a < p && b > p {
                    assert(nr[a] == old_r[a] && nr[b] == old_r[b - 1]);
                } else if a == p {
                    assert(nr[a] == i);
                    assert(nr[b] == old_r[b - 1]);
                    assert(key_order(k[i as int], k[old_r[b - 1] as int], desc) < 0);
                } else {
                    assert(nr[a] == old_r[a - 1] && nr[b] == old_r[b - 1]);
                }
            }
        }
        i = i + 1;
    }
    r
}

/// A permutation of `0..n` takes every value below `n`.
pub proof fn lemma_permutation_onto(order: Seq<usize>, n: nat, k: int)
    requires
        is_permutation(order, n),
        0 <= k < n,
    ensures
        exists|a: int| 0 <= a < order.len() && order[a] as int == k,
{
    broadcast use vstd::set::group_set_axioms;
    let m = order.map_values(|x: usize| x as int);
    assert(m.no_duplicates()) by {
        assert forall|a: int, b: int| 0 <= a < m.len() && 0 <= b < m.len() && a != b implies m[a]
            != m[b] by {
            if a < b {
                assert(order[a] != order[b]);
            } else {
                assert(order[b] != order[a]);
            }
        }
    }
    m.unique_seq_to_set();
    if !(exists|a: int| 0 <= a < order.len() && order[a] as int == k) {
        let range = vstd::set_lib::set_int_range(0, n as int);
        vstd::set_lib::lemma_int_range(0, n as int);
        let smaller = range.remove(k);
        assert(m.to_set().subset_of(smaller)) by {
            assert forall|x: int| m.to_set().contains(x) implies smaller.contains(x) by {
                assert(m.contains(x));
                let a = choose|a: int| 0 <= a < m.len() && m[a] == x;
                assert(order[a] < n);
                assert(order[a] as int != k);
            }
        }
        vstd::set_lib::lemma_len_subset(m.to_set(), smaller);
    }
}

} // verus!
