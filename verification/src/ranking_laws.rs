//! What holds of the lists in the message of a failed replay: the nearest
//! URLs come in the order of their distances, and the recorded methods in
//! the order of strings, each once.

use crate::cassette::InteractionView;
use crate::diagnostics::{
    method_insert, method_point, rank_insert, rank_point, ranked, recorded_methods, text_less,
    text_less_from,
};
use vstd::prelude::*;

verus! {

/// Where the items of a ranked list stood before they were ranked: the
/// position of each in the list it was taken from.
pub open spec fn ranked_origins(items: Seq<(Seq<char>, nat)>, n: nat) -> Seq<int>
    decreases n,
{
    if n == 0 || n > items.len() {
        Seq::empty()
    } else {
        ranked_origins(items, (n - 1) as nat).insert(
            rank_point(ranked(items, (n - 1) as nat), items[n - 1].1, (n - 1) as nat) as int,
            n - 1,
        )
    }
}

/// Whether an item at distance `d1` that stood at `o1` comes before one at
/// distance `d2` that stood at `o2`: it is nearer, or as near and earlier.
pub open spec fn comes_before(d1: nat, o1: int, d2: nat, o2: int) -> bool {
    d1 < d2 || (d1 == d2 && o1 < o2)
}

/// Whether `list` is `items` put in order: it holds the first `n` items,
/// each once, `origins` saying where each stood, nearer ones before farther
/// ones and, among items at the same distance, earlier ones before later
/// ones.
pub open spec fn is_ranking(
    items: Seq<(Seq<char>, nat)>,
    n: nat,
    list: Seq<(Seq<char>, nat)>,
    origins: Seq<int>,
) -> bool {
    &&& list.len() == n
    &&& origins.len() == n
    &&& forall|i: int|
        0 <= i < n ==> 0 <= (#[trigger] origins[i]) < n && list[i] == items[origins[i]]
    &&& forall|i: int, j: int|
        0 <= i < j < n ==> comes_before(
            (#[trigger] list[i]).1,
            origins[i],
            (#[trigger] list[j]).1,
            origins[j],
        )
    &&& forall|k: int| 0 <= k < n ==> origins.contains(k)
}

/// The place of a new item lies behind every item that is not farther and
/// before every item that is.
pub proof fn lemma_rank_point(list: Seq<(Seq<char>, nat)>, d: nat, start: nat)
    requires
        start <= list.len(),
    ensures
        rank_point(list, d, start) <= start,
        forall|k: int| rank_point(list, d, start) <= k < start ==> (#[trigger] list[k]).1 > d,
        rank_point(list, d, start) > 0 ==> list[rank_point(list, d, start) - 1].1 <= d,
    decreases start,
{
    if start > 0 && list[start - 1].1 > d {
        lemma_rank_point(list, d, (start - 1) as nat);
    }
}

/// Ranking puts the items in the order of their distances and leaves items
/// at the same distance in the order in which they stood; it neither drops
/// nor repeats an item.
pub proof fn lemma_ranked_in_order(items: Seq<(Seq<char>, nat)>, n: nat)
    requires
        n <= items.len(),
    ensures
        is_ranking(items, n, ranked(items, n), ranked_origins(items, n)),
    decreases n,
{
    if n > 0 {
        let m = (n - 1) as nat;
        lemma_ranked_in_order(items, m);
        let prev = ranked(items, m);
        let prev_origins = ranked_origins(items, m);
        let item = items[n - 1];
        lemma_rank_point(prev, item.1, m);
        let p = rank_point(prev, item.1, m) as int;
        let list = ranked(items, n);
        let origins = ranked_origins(items, n);
        assert(list == prev.insert(p, item));
        assert(origins == prev_origins.insert(p, n - 1));
        assert forall|i: int| 0 <= i < n implies 0 <= (#[trigger] origins[i]) < n && list[i]
            == items[origins[i]] by {
            if i < p {
                assert(origins[i] == prev_origins[i]);
            } else if i > p {
                assert(origins[i] == prev_origins[i - 1]);
            }
        }
        assert forall|i: int, j: int| 0 <= i < j < n implies comes_before(
            (#[trigger] list[i]).1,
            origins[i],
            (#[trigger] list[j]).1,
            origins[j],
        ) by {
            if j < p {
                assert(list[i] == prev[i] && list[j] == prev[j]);
                assert(origins[i] == prev_origins[i] && origins[j] == prev_origins[j]);
            } else if j == p {
                assert(list[i] == prev[i] && origins[i] == prev_origins[i]);
                if i < p - 1 {
                    assert(comes_before(
                        prev[i].1,
                        prev_origins[i],
                        prev[p - 1].1,
                        prev_origins[p - 1],
                    ));
                }
            } else if i < p {
                assert(list[i] == prev[i] && list[j] == prev[j - 1]);
                assert(origins[i] == prev_origins[i] && origins[j] == prev_origins[j - 1]);
            } else if i == p {
                assert(list[j] == prev[j - 1]);
            } else {
                assert(list[i] == prev[i - 1] && list[j] == prev[j - 1]);
                assert(origins[i] == prev_origins[i - 1] && origins[j] == prev_origins[j - 1]);
            }
        }
        assert forall|k: int| 0 <= k < n implies origins.contains(k) by {
            if k == n - 1 {
                assert(origins[p] == k);
            } else {
                assert(prev_origins.contains(k));
                let at = choose|at: int| 0 <= at < prev_origins.len() && prev_origins[at] == k;
                if at < p {
                    assert(origins[at] == k);
                } else {
                    assert(origins[at + 1] == k);
                }
            }
        }
    }
}

/// No text comes before itself.
pub proof fn lemma_less_irreflexive(a: Seq<char>, i: int)
    ensures
        !text_less_from(a, a, i),
    decreases a.len() - i,
{
    if 0 <= i < a.len() {
        lemma_less_irreflexive(a, i + 1);
    }
}

/// What comes before a text that comes before a third comes before the
/// third.
pub proof fn lemma_less_transitive(a: Seq<char>, b: Seq<char>, c: Seq<char>, i: int)
    requires
        text_less_from(a, b, i),
        text_less_from(b, c, i),
    ensures
        text_less_from(a, c, i),
    decreases c.len() - i,
{
    if 0 <= i < a.len() && i < b.len() && i < c.len() {
        if a[i] == b[i] && b[i] == c[i] {
            lemma_less_transitive(a, b, c, i + 1);
        }
    }
}

/// Of two different texts one comes before the other.
pub proof fn lemma_less_total(a: Seq<char>, b: Seq<char>, i: int)
    requires
        0 <= i <= a.len(),
        i <= b.len(),
        a.take(i) == b.take(i),
        !text_less_from(a, b, i),
        !text_less_from(b, a, i),
    ensures
        a == b,
    decreases b.len() - i,
{
    if i < b.len() {
        assert(i < a.len());
        assert(a[i] == b[i]);
        assert(a.take(i + 1) =~= a.take(i).push(a[i]));
        assert(b.take(i + 1) =~= b.take(i).push(b[i]));
        lemma_less_total(a, b, i + 1);
    } else {
        assert(a.take(i) =~= a);
        assert(b.take(i) =~= b);
    }
}

/// Whether every text of a list comes before the texts behind it.
pub open spec fn strictly_ascending(list: Seq<Seq<char>>) -> bool {
    forall|i: int, j: int|
        0 <= i < j < list.len() ==> text_less(#[trigger] list[i], #[trigger] list[j])
}

/// The place of a new method lies before every method that comes after it
/// and behind one that does not.
pub proof fn lemma_method_point(sorted: Seq<Seq<char>>, m: Seq<char>, start: nat)
    requires
        start <= sorted.len(),
    ensures
        method_point(sorted, m, start) <= start,
        forall|k: int|
            method_point(sorted, m, start) <= k < start ==> text_less(m, #[trigger] sorted[k]),
        method_point(sorted, m, start) > 0 ==> !text_less(
            m,
            sorted[method_point(sorted, m, start) - 1],
        ),
    decreases start,
{
    if start > 0 && text_less(m, sorted[start - 1]) {
        lemma_method_point(sorted, m, (start - 1) as nat);
    }
}

/// One more method keeps an ascending list ascending and adds that method
/// to its members, and no other.
pub proof fn lemma_method_insert(sorted: Seq<Seq<char>>, m: Seq<char>)
    requires
        strictly_ascending(sorted),
    ensures
        strictly_ascending(method_insert(sorted, m)),
        forall|x: Seq<char>|
            method_insert(sorted, m).contains(x) <==> (sorted.contains(x) || x == m),
{
    lemma_method_point(sorted, m, sorted.len());
    let p = method_point(sorted, m, sorted.len()) as int;
    let list = method_insert(sorted, m);
    if p > 0 && sorted[p - 1] == m {
        assert(sorted.contains(m));
    } else {
        assert(list == sorted.insert(p, m));
        if p > 0 && !text_less(sorted[p - 1], m) {
            assert(sorted[p - 1].take(0) =~= m.take(0));
            lemma_less_total(sorted[p - 1], m, 0);
        }
        assert forall|i: int, j: int| 0 <= i < j < list.len() implies text_less(
            #[trigger] list[i],
            #[trigger] list[j],
        ) by {
            if j < p {
                assert(list[i] == sorted[i] && list[j] == sorted[j]);
            } else if j == p {
                assert(list[i] == sorted[i]);
                if i < p - 1 {
                    lemma_less_transitive(sorted[i], sorted[p - 1], m, 0);
                }
            } else if i < p {
                assert(list[i] == sorted[i] && list[j] == sorted[j - 1]);
            } else if i == p {
                assert(list[j] == sorted[j - 1]);
            } else {
                assert(list[i] == sorted[i - 1] && list[j] == sorted[j - 1]);
            }
        }
        assert forall|x: Seq<char>| list.contains(x) <==> (sorted.contains(x) || x == m) by {
            if list.contains(x) {
                let at = choose|at: int| 0 <= at < list.len() && list[at] == x;
                if at < p {
                    assert(sorted[at] == x);
                } else if at > p {
                    assert(sorted[at - 1] == x);
                }
            }
            if sorted.contains(x) {
                let at = choose|at: int| 0 <= at < sorted.len() && sorted[at] == x;
                if at < p {
                    assert(list[at] == x);
                } else {
                    assert(list[at + 1] == x);
                }
            }
            if x == m {
                assert(list[p] == x);
            }
        }
    }
}

/// Whether `x` is the method of one of the first `n` recorded requests.
pub open spec fn is_recorded_method(recorded: Seq<InteractionView>, n: nat, x: Seq<char>) -> bool {
    exists|k: int| 0 <= k < n && k < recorded.len() && (#[trigger] recorded[k]).request.method == x
}

/// The list of recorded methods is in the order of strings, each method
/// once, and its members are the methods of the recorded requests.
pub proof fn lemma_recorded_methods(recorded: Seq<InteractionView>, n: nat)
    requires
        n <= recorded.len(),
    ensures
        strictly_ascending(recorded_methods(recorded, n)),
        forall|x: Seq<char>|
            recorded_methods(recorded, n).contains(x) <==> #[trigger] is_recorded_method(
                recorded,
                n,
                x,
            ),
    decreases n,
{
    if n > 0 {
        let m = (n - 1) as nat;
        lemma_recorded_methods(recorded, m);
        let prev = recorded_methods(recorded, m);
        let method = recorded[n - 1].request.method;
        lemma_method_insert(prev, method);
        let list = recorded_methods(recorded, n);
        assert(list == method_insert(prev, method));
        assert forall|x: Seq<char>| list.contains(x) <==> #[trigger] is_recorded_method(
            recorded,
            n,
            x,
        ) by {
            assert(method_insert(prev, method).contains(x) <==> (prev.contains(x) || x == method));
            assert(prev.contains(x) <==> is_recorded_method(recorded, m, x));
            if is_recorded_method(recorded, m, x) {
                let k = choose|k: int|
                    0 <= k < m && k < recorded.len() && (#[trigger] recorded[k]).request.method
                        == x;
                assert(0 <= k < n && recorded[k].request.method == x);
                assert(is_recorded_method(recorded, n, x));
            }
            if x == method {
                assert(recorded[n - 1].request.method == x);
                assert(is_recorded_method(recorded, n, x));
            }
            if is_recorded_method(recorded, n, x) {
                let k = choose|k: int|
                    0 <= k < n && k < recorded.len() && (#[trigger] recorded[k]).request.method
                        == x;
                if k < n - 1 {
                    assert(0 <= k < m && recorded[k].request.method == x);
                    assert(is_recorded_method(recorded, m, x));
                } else {
                    assert(x == method);
                }
            }
        }
    } else {
        assert(recorded_methods(recorded, 0).len() == 0);
    }
}

} // verus!
