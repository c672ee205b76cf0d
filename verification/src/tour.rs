//! Tours and their validity: a tour is a permutation of the cities `1..n`,
//! city `0` being the fixed, implicit start of every path. This module holds
//! the lemmas that keep that shape stable under shuffling, crossover and
//! swapping.

use vstd::prelude::*;
use vstd::seq_lib::*;
use vstd::set_lib::*;

verus! {

/// A candidate solution: the cities `1..N` in visiting order, starting
/// implicitly at city `0`.
pub type Path = Vec<usize>;

/// The length of a tour: a sum of integer distances.
pub type PathLen = usize;

/// A valid tour over `n` cities: each of `1..n` exactly once, city `0`
/// excluded (it is the implicit start).
pub open spec fn valid_tour(t: Seq<usize>, n: int) -> bool {
    &&& t.len() == n - 1
    &&& t.no_duplicates()
    &&& forall|i: int| 0 <= i < t.len() ==> 1 <= #[trigger] t[i] < n
}

/// The cities a tour must visit: every index in `[1, n)`.
pub open spec fn city_set(n: int) -> Set<usize> {
    Set::new(|v: usize| 1 <= v < n)
}

/// `[1, n)` holds exactly `n - 1` cities.
pub proof fn lemma_city_set_card(n: int)
    requires
        1 <= n,
        n <= usize::MAX as int + 1,
    ensures
        city_set(n).finite(),
        city_set(n).len() == n - 1,
    decreases n,
{
    if n == 1 {
        assert(city_set(1) =~= Set::<usize>::empty());
    } else {
        lemma_city_set_card(n - 1);
        assert(city_set(n) =~= city_set(n - 1).insert((n - 1) as usize));
    }
}

/// A valid tour visits exactly the cities `1..n`.
pub proof fn lemma_valid_tour_to_set(t: Seq<usize>, n: int)
    requires
        valid_tour(t, n),
        n <= usize::MAX as int + 1,
    ensures
        t.to_set() == city_set(n),
{
    broadcast use seq_to_set_is_finite;

    t.unique_seq_to_set();
    lemma_city_set_card(n);
    assert forall|v: usize| t.to_set().contains(v) implies city_set(n).contains(v) by {
        let i = choose|i: int| 0 <= i < t.len() && t[i] == v;
        assert(1 <= t[i] < n);
    }
    assert forall|v: usize| city_set(n).contains(v) implies t.to_set().contains(v) by {
        if !t.to_set().contains(v) {
            t.to_set().lemma_subset_not_in_lt(city_set(n), v);
        }
    }
    assert(t.to_set() =~= city_set(n));
}

/// A valid tour contains every city of `[1, n)`.
pub proof fn lemma_valid_tour_contains(t: Seq<usize>, n: int, v: usize)
    requires
        valid_tour(t, n),
        n <= usize::MAX as int + 1,
        1 <= v < n,
    ensures
        t.contains(v),
{
    lemma_valid_tour_to_set(t, n);
    assert(city_set(n).contains(v));
}

/// A duplicate-free sequence of in-range cities that visits all of `1..n`
/// is a valid tour; in particular its length must be `n - 1`.
pub proof fn lemma_valid_tour_from_set(t: Seq<usize>, n: int)
    requires
        t.no_duplicates(),
        forall|i: int| 0 <= i < t.len() ==> 1 <= #[trigger] t[i] < n,
        t.to_set() == city_set(n),
        1 <= n,
        n <= usize::MAX as int + 1,
    ensures
        valid_tour(t, n),
{
    t.unique_seq_to_set();
    lemma_city_set_card(n);
}

/// Reordering the entries of a valid tour yields a valid tour.
pub proof fn lemma_permutation_preserves_valid(s: Seq<usize>, t: Seq<usize>, n: int)
    requires
        valid_tour(s, n),
        t.len() == s.len(),
        t.to_multiset() == s.to_multiset(),
    ensures
        valid_tour(t, n),
{
    broadcast use group_to_multiset_ensures;

    s.lemma_multiset_has_no_duplicates();
    t.lemma_multiset_has_no_duplicates_conv();
    assert forall|i: int| 0 <= i < t.len() implies 1 <= #[trigger] t[i] < n by {
        assert(t.contains(t[i]));
        assert(t.to_multiset().count(t[i]) > 0);
        assert(s.to_multiset().count(t[i]) > 0);
        assert(s.contains(t[i]));
    }
}

/// What pushing one entry does to membership.
pub proof fn lemma_push_contains(s: Seq<usize>, x: usize, v: usize)
    ensures
        s.push(x).contains(v) <==> (s.contains(v) || v == x),
{
    assert(s.push(x)[s.len() as int] == x);
    if s.push(x).contains(v) {
        let i = choose|i: int| 0 <= i < s.push(x).len() && s.push(x)[i] == v;
        if i < s.len() {
            assert(s[i] == v);
        }
    }
    if s.contains(v) {
        let i = choose|i: int| 0 <= i < s.len() && s[i] == v;
        assert(s.push(x)[i] == v);
    }
}

/// The sequence `s` with the entries at `a` and `b` exchanged.
pub open spec fn swap_seq(s: Seq<usize>, a: int, b: int) -> Seq<usize> {
    s.update(a, s[b]).update(b, s[a])
}

/// `t` arises from `s` by exchanging two entries (possibly the same one,
/// which leaves `s` unchanged).
pub open spec fn is_swap_of(t: Seq<usize>, s: Seq<usize>) -> bool {
    exists|a: int, b: int|
        0 <= a < s.len() && 0 <= b < s.len() && t == swap_seq(s, a, b)
}

/// Swap mutation is closed over valid tours.
pub proof fn lemma_swap_preserves_valid(t: Seq<usize>, n: int, a: int, b: int)
    requires
        valid_tour(t, n),
        0 <= a < t.len(),
        0 <= b < t.len(),
    ensures
        valid_tour(swap_seq(t, a, b), n),
{
    let s = swap_seq(t, a, b);
    assert forall|i: int, j: int|
        0 <= i < s.len() && 0 <= j < s.len() && i != j implies s[i] != s[j] by {
        assert(s[i] == t[if i == b { a } else if i == a { b } else { i }]);
        assert(s[j] == t[if j == b { a } else if j == a { b } else { j }]);
    }
}

} // verus!
