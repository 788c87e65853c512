//! Listing by key: the order in which rows are listed, and what holds of
//! it.

use crate::text::{
    chars_precede, lemma_precedes_asymmetric, lemma_precedes_transitive, precedes,
};
use vstd::prelude::*;

verus! {

/// Whether `a` has to come strictly before `b` in a listing by key, in
/// ascending or in descending order of the keys.
pub open spec fn ranks_before(a: Seq<char>, b: Seq<char>, descending: bool) -> bool {
    if descending {
        precedes(b, a)
    } else {
        precedes(a, b)
    }
}

/// The place of a new key in a listing: the first position whose key the
/// new key ranks strictly before; the end where there is none.
pub open spec fn slot(
    order: Seq<int>,
    keys: Seq<Seq<char>>,
    key: Seq<char>,
    descending: bool,
) -> int
    decreases order.len(),
{
    if order.len() == 0 {
        0
    } else if ranks_before(key, keys[order[0]], descending) {
        0
    } else {
        1 + slot(order.drop_first(), keys, key, descending)
    }
}

/// The order in which the first `n` of `keys` are listed, as positions into
/// `keys`: by key, and keys that are equal in the order in which they
/// stand. Each key in turn takes its [`slot`] among those before it.
pub open spec fn ranking(keys: Seq<Seq<char>>, n: nat, descending: bool) -> Seq<int>
    decreases n,
{
    if n == 0 {
        Seq::empty()
    } else {
        let before = ranking(keys, (n - 1) as nat, descending);
        before.insert(slot(before, keys, keys[n - 1], descending), n - 1)
    }
}

/// `rows` in the order of `keys`.
pub open spec fn ranked<T>(rows: Seq<T>, keys: Seq<Seq<char>>, descending: bool) -> Seq<T> {
    ranking(keys, rows.len(), descending).map_values(|i: int| rows[i])
}

/// A slot lies within the listing or at its end.
pub proof fn lemma_slot_range(
    order: Seq<int>,
    keys: Seq<Seq<char>>,
    key: Seq<char>,
    descending: bool,
)
    ensures
        0 <= slot(order, keys, key, descending) <= order.len(),
    decreases order.len(),
{
    if order.len() > 0 {
        lemma_slot_range(order.drop_first(), keys, key, descending);
    }
}

/// The ranking of the first `n` keys has `n` entries, each below `n`.
pub proof fn lemma_ranking_range(keys: Seq<Seq<char>>, n: nat, descending: bool)
    ensures
        ranking(keys, n, descending).len() == n,
        forall|k: int| 0 <= k < n ==> 0 <= #[trigger] ranking(keys, n, descending)[k] < n,
    decreases n,
{
    if n > 0 {
        let before = ranking(keys, (n - 1) as nat, descending);
        lemma_ranking_range(keys, (n - 1) as nat, descending);
        lemma_slot_range(before, keys, keys[n - 1], descending);
    }
}

/// The texts of a list of keys, each given by its characters.
pub open spec fn key_views(keys: Seq<Vec<char>>) -> Seq<Seq<char>> {
    keys.map_values(|k: Vec<char>| k@)
}

/// The positions held in a ranking.
pub open spec fn positions(order: Seq<usize>) -> Seq<int> {
    order.map_values(|i: usize| i as int)
}

/// Finds the place of `keys[i]` among the keys listed in `order`.
fn find_slot(order: &Vec<usize>, keys: &Vec<Vec<char>>, i: usize, descending: bool) -> (p: usize)
    requires
        i < keys.len(),
        forall|k: int| 0 <= k < order.len() ==> order@[k] < keys.len(),
    ensures
        p == slot(positions(order@), key_views(keys@), keys@[i as int]@, descending),
        p <= order.len(),
{
    let ghost listed = positions(order@);
    let ghost texts = key_views(keys@);
    let ghost key = keys@[i as int]@;
    let mut p: usize = 0;
    proof {
        assert(listed.skip(0) =~= listed);
    }
    while p < order.len()
        invariant
            p <= order.len(),
            i < keys.len(),
            listed == positions(order@),
            texts == key_views(keys@),
            key == keys@[i as int]@,
            forall|k: int| 0 <= k < order.len() ==> order@[k] < keys.len(),
            slot(listed, texts, key, descending) == p + slot(
                listed.skip(p as int),
                texts,
                key,
                descending,
            ),
        decreases order.len() - p,
    {
        let other = &keys[order[p]];
        let first = if descending {
            chars_precede(other, &keys[i])
        } else {
            chars_precede(&keys[i], other)
        };
        proof {
            let rest = listed.skip(p as int);
            assert(rest[0] == order@[p as int] as int);
            assert(texts[rest[0]] == other@);
            assert(rest.drop_first() =~= listed.skip(p as int + 1));
        }
        if first {
            return p;
        }
        p += 1;
    }
    p
}

/// Ranks the keys; see [`ranking`].
pub fn rank(keys: &Vec<Vec<char>>, descending: bool) -> (order: Vec<usize>)
    ensures
        positions(order@) == ranking(key_views(keys@), keys@.len(), descending),
        order@.len() == keys@.len(),
        forall|k: int| 0 <= k < order@.len() ==> order@[k] < keys@.len(),
{
    let ghost texts = key_views(keys@);
    let mut order: Vec<usize> = Vec::new();
    let mut n: usize = 0;
    proof {
        assert(positions(order@) =~= ranking(texts, 0, descending));
    }
    while n < keys.len()
        invariant
            n <= keys.len(),
            texts == key_views(keys@),
            order@.len() == n,
            forall|k: int| 0 <= k < order@.len() ==> order@[k] < n,
            positions(order@) == ranking(texts, n as nat, descending),
        decreases keys.len() - n,
    {
        let p = find_slot(&order, keys, n, descending);
        let ghost before = positions(order@);
        order.insert(p, n);
        proof {
            assert(texts[n as int] == keys@[n as int]@);
            assert(positions(order@) =~= before.insert(p as int, n as int));
        }
        n += 1;
    }
    order
}

/// What a slot is: the new key ranks before the key at the slot, and before
/// none of the keys ahead of the slot.
pub proof fn lemma_slot(order: Seq<int>, keys: Seq<Seq<char>>, key: Seq<char>, descending: bool)
    ensures
        0 <= slot(order, keys, key, descending) <= order.len(),
        forall|k: int|
            0 <= k < slot(order, keys, key, descending) ==> !ranks_before(
                key,
                keys[#[trigger] order[k]],
                descending,
            ),
        slot(order, keys, key, descending) < order.len() ==> ranks_before(
            key,
            keys[order[slot(order, keys, key, descending)]],
            descending,
        ),
    decreases order.len(),
{
    if order.len() > 0 && !ranks_before(key, keys[order[0]], descending) {
        let rest = order.drop_first();
        lemma_slot(rest, keys, key, descending);
        let p = slot(rest, keys, key, descending);
        assert forall|k: int| 0 <= k < p + 1 implies !ranks_before(
            key,
            keys[#[trigger] order[k]],
            descending,
        ) by {
            if k > 0 {
                assert(order[k] == rest[k - 1]);
            }
        }
        if p < rest.len() {
            assert(order[p + 1] == rest[p]);
        }
    }
}

/// A ranking is in order: no entry ranks strictly before an entry ahead of
/// it, and of two entries with the same key the one that stands first in
/// `keys` comes first. It holds every position below `n`, each once.
pub proof fn lemma_ranking(keys: Seq<Seq<char>>, n: nat, descending: bool)
    ensures
        ranking(keys, n, descending).len() == n,
        forall|a: int| 0 <= a < n ==> 0 <= #[trigger] ranking(keys, n, descending)[a] < n,
        forall|a: int, b: int|
            0 <= a < b < n ==> #[trigger] ranking(keys, n, descending)[a] != #[trigger] ranking(
                keys,
                n,
                descending,
            )[b],
        forall|j: int| 0 <= j < n ==> #[trigger] ranking(keys, n, descending).contains(j),
        forall|a: int, b: int|
            0 <= a < b < n ==> !ranks_before(
                keys[#[trigger] ranking(keys, n, descending)[b]],
                keys[#[trigger] ranking(keys, n, descending)[a]],
                descending,
            ),
        forall|a: int, b: int|
            0 <= a < b < n && keys[#[trigger] ranking(keys, n, descending)[a]] == keys[#[trigger] ranking(
                keys,
                n,
                descending,
            )[b]] ==> ranking(keys, n, descending)[a] < ranking(keys, n, descending)[b],
    decreases n,
{
    if n > 0 {
        let m = (n - 1) as nat;
        let before = ranking(keys, m, descending);
        let key = keys[n - 1];
        let p = slot(before, keys, key, descending);
        let r = ranking(keys, n, descending);
        lemma_ranking(keys, m, descending);
        lemma_slot(before, keys, key, descending);
        assert(r == before.insert(p, n - 1));
        assert(r.len() == n);
        assert forall|a: int| 0 <= a < n implies (#[trigger] r[a] == if a < p {
            before[a]
        } else if a == p {
            n - 1
        } else {
            before[a - 1]
        }) by {}
        assert forall|j: int| 0 <= j < n implies #[trigger] r.contains(j) by {
            if j == n - 1 {
                assert(r[p] == j);
            } else {
                assert(before.contains(j));
                let a0 = choose|a: int| 0 <= a < before.len() && before[a] == j;
                if a0 < p {
                    assert(r[a0] == j);
                } else {
                    assert(r[a0 + 1] == j);
                }
            }
        }
        assert forall|a: int, b: int| 0 <= a < b < n implies !ranks_before(
            keys[#[trigger] r[b]],
            keys[#[trigger] r[a]],
            descending,
        ) by {
            if a == p {
                // the new key against an entry behind it
                let kb = keys[before[b - 1]];
                let kp = keys[before[p]];
                if descending {
                    lemma_precedes_asymmetric(kp, key);
                    if precedes(key, kb) {
                        if b - 1 != p {
                            lemma_precedes_transitive(kp, key, kb);
                        }
                    }
                } else {
                    lemma_precedes_asymmetric(key, kp);
                    if precedes(kb, key) {
                        if b - 1 != p {
                            lemma_precedes_transitive(kb, key, kp);
                        }
                    }
                }
                if b - 1 != p {
                    assert(!ranks_before(keys[before[b - 1]], keys[before[p]], descending));
                }
            } else if b == p {
                assert(!ranks_before(key, keys[before[a]], descending));
            } else {
                let a1 = if a < p {
                    a
                } else {
                    a - 1
                };
                let b1 = if b < p {
                    b
                } else {
                    b - 1
                };
                assert(!ranks_before(keys[before[b1]], keys[before[a1]], descending));
            }
        }
        assert forall|a: int, b: int|
            0 <= a < b < n && keys[#[trigger] r[a]] == keys[#[trigger] r[b]] implies r[a] < r[b] by {
            if a == p {
                // an entry behind the new key has another key
                let kb = keys[before[b - 1]];
                let kp = keys[before[p]];
                if b - 1 != p {
                    assert(!ranks_before(keys[before[b - 1]], keys[before[p]], descending));
                }
                lemma_precedes_asymmetric(kp, key);
                lemma_precedes_asymmetric(key, kp);
            } else if b == p {
                assert(r[a] == before[a]);
            } else {
                let a1 = if a < p {
                    a
                } else {
                    a - 1
                };
                let b1 = if b < p {
                    b
                } else {
                    b - 1
                };
                assert(keys[before[a1]] == keys[before[b1]]);
            }
        }
        assert forall|a: int, b: int| 0 <= a < b < n implies #[trigger] r[a] != #[trigger] r[b] by {
            if a != p && b != p {
                let a1 = if a < p {
                    a
                } else {
                    a - 1
                };
                let b1 = if b < p {
                    b
                } else {
                    b - 1
                };
                assert(before[a1] != before[b1]);
            }
        }
    }
}

/// The first `n` rows, ranked by their keys, are the same rows, each as
/// often as it stands among them.
pub proof fn lemma_ranked_prefix<T>(rows: Seq<T>, keys: Seq<Seq<char>>, n: nat, descending: bool)
    requires
        n <= rows.len(),
    ensures
        ranking(keys, n, descending).map_values(|i: int| rows[i]).to_multiset() == rows.take(
            n as int,
        ).to_multiset(),
    decreases n,
{
    broadcast use vstd::seq_lib::group_to_multiset_ensures;

    let pick = |i: int| rows[i];
    if n == 0 {
        assert(ranking(keys, n, descending).map_values(pick) =~= rows.take(0));
    } else {
        let m = (n - 1) as nat;
        let before = ranking(keys, m, descending);
        let p = slot(before, keys, keys[n - 1], descending);
        lemma_ranked_prefix(rows, keys, m, descending);
        lemma_ranking_range(keys, m, descending);
        lemma_slot_range(before, keys, keys[n - 1], descending);
        let listed = ranking(keys, n, descending).map_values(pick);
        let listed_before = before.map_values(pick);
        assert(listed.remove(p) =~= listed_before);
        assert(listed[p] == rows[n - 1]);
        assert(listed.remove(p).to_multiset() == listed.to_multiset().remove(listed[p]));
        assert(listed.contains(rows[n - 1]));
        assert(listed.to_multiset() =~= listed_before.to_multiset().insert(rows[n - 1]));
        assert(rows.take(n as int) =~= rows.take(m as int).push(rows[n - 1]));
    }
}

/// Ranking rearranges: the ranked rows are the same rows, each as often as
/// before.
pub proof fn lemma_ranked_rearranges<T>(rows: Seq<T>, keys: Seq<Seq<char>>, descending: bool)
    ensures
        ranked(rows, keys, descending).to_multiset() == rows.to_multiset(),
        ranked(rows, keys, descending).len() == rows.len(),
{
    lemma_ranked_prefix(rows, keys, rows.len(), descending);
    lemma_ranking_range(keys, rows.len(), descending);
    assert(rows.take(rows.len() as int) =~= rows);
}

} // verus!
