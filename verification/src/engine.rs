//! The evolution engine: fitness evaluation, elite selection, one-point
//! order-preserving crossover, swap mutation, and the generation step that
//! replaces the whole population.
//!
//! Fitness is the reciprocal of a tour's length, so the engine works on the
//! integer lengths directly: the fittest tour is exactly the shortest one,
//! and a caller that needs the numeric fitness values (for example to build
//! a weighted sampling distribution over the population) derives them from
//! the `lengths` vector.

use vstd::prelude::*;

use crate::map::DistanceMap;
use crate::rng::Rng;
use crate::tour::{
    is_swap_of, lemma_push_contains, lemma_swap_preserves_valid, lemma_valid_tour_contains,
    lemma_valid_tour_from_set, swap_seq, valid_tour, Path,
};
use crate::TspError;

verus! {

/// The genes of `p2` that are not among the first `c` genes of a tour whose
/// prefix is `pre`, in `p2`'s original order.
pub open spec fn remainder(p2: Seq<usize>, pre: Seq<usize>) -> Seq<usize>
    decreases p2.len(),
{
    if p2.len() == 0 {
        Seq::empty()
    } else {
        let rest = remainder(p2.drop_last(), pre);
        if !pre.contains(p2.last()) {
            rest.push(p2.last())
        } else {
            rest
        }
    }
}

/// One-point order-preserving crossover: the first `c` genes of `p1`, then
/// every gene of `p2` not already taken, in `p2`'s order.
pub open spec fn spec_crossover(p1: Seq<usize>, p2: Seq<usize>, c: int) -> Seq<usize> {
    p1.take(c) + remainder(p2, p1.take(c))
}

/// What `remainder` keeps: exactly the genes of `p2` outside the prefix,
/// each at most once.
pub proof fn lemma_remainder_props(p2: Seq<usize>, pre: Seq<usize>)
    requires
        p2.no_duplicates(),
    ensures
        remainder(p2, pre).no_duplicates(),
        forall|v: usize| #[trigger]
            remainder(p2, pre).contains(v) <==> (p2.contains(v) && !pre.contains(v)),
    decreases p2.len(),
{
    let r = remainder(p2, pre);
    if p2.len() == 0 {
        assert(forall|v: usize| !(#[trigger] r.contains(v)));
    } else {
        let dl = p2.drop_last();
        let g = p2.last();
        assert(dl.no_duplicates());
        lemma_remainder_props(dl, pre);
        let rest = remainder(dl, pre);
        assert(!dl.contains(g)) by {
            if dl.contains(g) {
                let x = choose|x: int| 0 <= x < dl.len() && dl[x] == g;
                assert(p2[x] == p2[p2.len() - 1]);
            }
        }
        assert(p2 =~= dl.push(g));
        if !pre.contains(g) {
            assert(r == rest.push(g));
            assert(!rest.contains(g));
            assert forall|i: int, j: int|
                0 <= i < r.len() && 0 <= j < r.len() && i != j implies r[i] != r[j] by {
                assert(forall|x: int| 0 <= x < rest.len() ==> r[x] == #[trigger] rest[x]);
                assert(r[rest.len() as int] == g);
            }
            assert forall|v: usize| #[trigger]
                r.contains(v) <==> (p2.contains(v) && !pre.contains(v)) by {
                lemma_push_contains(rest, g, v);
                lemma_push_contains(dl, g, v);
            }
        } else {
            assert(r == rest);
            assert forall|v: usize| #[trigger]
                r.contains(v) <==> (p2.contains(v) && !pre.contains(v)) by {
                lemma_push_contains(dl, g, v);
            }
        }
    }
}

/// Whether `r` is the elite of `lengths`: the index of the fittest tour,
/// i.e. the smallest length, ties broken by first occurrence.
pub open spec fn is_best_index(lengths: Seq<usize>, r: int) -> bool {
    &&& 0 <= r < lengths.len()
    &&& forall|i: int| 0 <= i < lengths.len() ==> lengths[r] <= #[trigger] lengths[i]
    &&& forall|i: int| 0 <= i < r ==> lengths[r] < #[trigger] lengths[i]
}

/// The crossover point drawn for a generation: uniform over `[0, N-2)`;
/// with only two cities that range is empty and the point is `0`.
pub open spec fn crossover_point_ok(c: int, n: int) -> bool {
    if n > 2 {
        0 <= c < n - 2
    } else {
        c == 0
    }
}

/// Whether the membership test against the first `c` genes of `p` holds.
fn prefix_contains(p: &Path, c: usize, g: usize) -> (r: bool)
    requires
        c <= p@.len(),
    ensures
        r == p@.take(c as int).contains(g),
{
    let mut k: usize = 0;
    while k < c
        invariant
            c <= p@.len(),
            0 <= k <= c,
            !p@.take(k as int).contains(g),
        decreases c - k,
    {
        if p[k] == g {
            assert(p@.take(c as int)[k as int] == g);
            return true;
        }
        proof {
            assert(p@.take(k as int + 1) =~= p@.take(k as int).push(p@[k as int]));
        }
        k = k + 1;
    }
    false
}

/// A fresh owned copy of a tour.
fn copy_path(p: &Path) -> (r: Path)
    ensures
        r@ == p@,
{
    let mut r: Path = Vec::new();
    let mut k: usize = 0;
    while k < p.len()
        invariant
            0 <= k <= p@.len(),
            r@ == p@.take(k as int),
        decreases p@.len() - k,
    {
        r.push(p[k]);
        proof {
            assert(p@.take(k as int + 1) =~= p@.take(k as int).push(p@[k as int]));
        }
        k = k + 1;
    }
    proof {
        assert(p@.take(p@.len() as int) =~= p@);
    }
    r
}

/// Builds the child of `p1` and `p2` at crossover point `c`: the first `c`
/// genes of `p1` unchanged, then the genes of `p2` in `p2`'s original order,
/// skipping any gene already present in the taken prefix. The child is again
/// a valid tour: no duplicates arise and no city is lost.
pub fn one_point_crossover(p1: &Path, p2: &Path, c: usize) -> (r: Path)
    requires
        p1@.len() == p2@.len(),
        valid_tour(p1@, p1@.len() as int + 1),
        valid_tour(p2@, p1@.len() as int + 1),
        c <= p1@.len(),
    ensures
        r@ == spec_crossover(p1@, p2@, c as int),
        valid_tour(r@, p1@.len() as int + 1),
{
    let ghost n = p1@.len() as int + 1;
    let ghost pre = p1@.take(c as int);
    let mut child: Path = Vec::new();
    let mut k: usize = 0;
    while k < c
        invariant
            c <= p1@.len(),
            0 <= k <= c,
            child@ == p1@.take(k as int),
        decreases c - k,
    {
        child.push(p1[k]);
        proof {
            assert(p1@.take(k as int + 1) =~= p1@.take(k as int).push(p1@[k as int]));
        }
        k = k + 1;
    }
    proof {
        assert(child@ =~= pre + remainder(p2@.take(0), pre));
    }

    let len = p2.len();
    let mut j: usize = 0;
    while j < len
        invariant
            len == p2@.len(),
            c <= p1@.len(),
            pre == p1@.take(c as int),
            0 <= j <= len,
            child@ == pre + remainder(p2@.take(j as int), pre),
        decreases len - j,
    {
        let g = p2[j];
        let ghost child0 = child@;
        let ghost prev = p2@.take(j as int);
        let take_it = !prefix_contains(p1, c, g);
        if take_it {
            child.push(g);
        }
        j = j + 1;
        proof {
            let cur = p2@.take(j as int);
            assert(cur.drop_last() =~= prev);
            assert(cur.last() == g);
            if take_it {
                assert(remainder(cur, pre) == remainder(prev, pre).push(g));
                assert(child@ =~= pre + remainder(cur, pre));
            } else {
                assert(remainder(cur, pre) == remainder(prev, pre));
            }
        }
    }

    proof {
        assert(p2@.take(len as int) =~= p2@);
        lemma_remainder_props(p2@, pre);
        let rem = remainder(p2@, pre);
        assert(child@ == pre + rem);
        // No duplicates: the prefix and the remainder are each
        // duplicate-free, and the remainder avoids the prefix.
        assert forall|i: int, jj: int|
            0 <= i < child@.len() && 0 <= jj < child@.len() && i != jj
            implies child@[i] != child@[jj] by {
            assert(forall|x: int| 0 <= x < pre.len() ==> child@[x] == #[trigger] pre[x]);
            assert(forall|x: int|
                pre.len() <= x < child@.len() ==> child@[x] == #[trigger] rem[x - pre.len()]);
            if i < pre.len() && jj >= pre.len() {
                assert(rem.contains(rem[jj - pre.len()]));
            }
            if jj < pre.len() && i >= pre.len() {
                assert(rem.contains(rem[i - pre.len()]));
            }
        }
        // The child visits exactly the cities 1..n, so its length must be
        // n - 1.
        assert forall|i: int| 0 <= i < child@.len() implies 1 <= #[trigger] child@[i] < n by {
            if i < pre.len() {
                assert(child@[i] == p1@[i]);
            } else {
                assert(child@[i] == rem[i - pre.len()]);
                assert(rem.contains(child@[i]));
                let x = choose|x: int| 0 <= x < p2@.len() && p2@[x] == child@[i];
            }
        }
        assert(child@.to_set() =~= crate::tour::city_set(n)) by {
            assert forall|v: usize| child@.to_set().contains(v) implies crate::tour::city_set(
                n,
            ).contains(v) by {
                let i = choose|i: int| 0 <= i < child@.len() && child@[i] == v;
            }
            assert forall|v: usize| crate::tour::city_set(n).contains(v)
                implies child@.to_set().contains(v) by {
                lemma_valid_tour_contains(p2@, n, v);
                if pre.contains(v) {
                    let x = choose|x: int| 0 <= x < pre.len() && pre[x] == v;
                    assert(child@[x] == v);
                } else {
                    assert(rem.contains(v));
                    let x = choose|x: int| 0 <= x < rem.len() && rem[x] == v;
                    assert(child@[x + pre.len()] == v);
                }
            }
        }
        lemma_valid_tour_from_set(child@, n);
    }
    child
}

/// Both children of one pairing: `p1` crossed with `p2` and `p2` crossed
/// with `p1`, at the same point.
pub fn crossover(p1: &Path, p2: &Path, c: usize) -> (r: Vec<Path>)
    requires
        p1@.len() == p2@.len(),
        valid_tour(p1@, p1@.len() as int + 1),
        valid_tour(p2@, p1@.len() as int + 1),
        c <= p1@.len(),
    ensures
        r@.len() == 2,
        r@[0]@ == spec_crossover(p1@, p2@, c as int),
        r@[1]@ == spec_crossover(p2@, p1@, c as int),
        valid_tour(r@[0]@, p1@.len() as int + 1),
        valid_tour(r@[1]@, p1@.len() as int + 1),
{
    let child_p1 = one_point_crossover(p1, p2, c);
    let child_p2 = one_point_crossover(p2, p1, c);
    let mut r: Vec<Path> = Vec::new();
    r.push(child_p1);
    r.push(child_p2);
    r
}

/// The tour with the genes at positions `a` and `b` exchanged — the
/// deterministic half of swap mutation. If `a == b` the tour is unchanged.
pub fn swap_positions(path: &Path, a: usize, b: usize) -> (r: Path)
    requires
        a < path@.len(),
        b < path@.len(),
        valid_tour(path@, path@.len() as int + 1),
    ensures
        r@ == swap_seq(path@, a as int, b as int),
        valid_tour(r@, path@.len() as int + 1),
{
    let mut swapped = copy_path(path);
    let va = swapped[a];
    let vb = swapped[b];
    swapped[a] = vb;
    swapped[b] = va;
    proof {
        lemma_swap_preserves_valid(path@, path@.len() as int + 1, a as int, b as int);
    }
    swapped
}

/// Swap mutation: two positions drawn uniformly (with replacement; they may
/// coincide, leaving the tour unchanged) and their genes exchanged. The
/// result is again a valid tour.
pub fn mutate(path: &Path, rng: &mut Rng) -> (r: Path)
    requires
        1 <= path@.len(),
        valid_tour(path@, path@.len() as int + 1),
    ensures
        is_swap_of(r@, path@),
        valid_tour(r@, path@.len() as int + 1),
{
    let len = path.len();
    let a = rng.gen_range(0, len);
    let b = rng.gen_range(0, len);
    swap_positions(path, a, b)
}

/// The elite of the population: the index of the smallest length — i.e. of
/// the largest fitness `1/length` — ties broken by first occurrence.
pub fn best_index(lengths: &Vec<usize>) -> (r: usize)
    requires
        1 <= lengths@.len(),
    ensures
        is_best_index(lengths@, r as int),
{
    let mut best: usize = 0;
    let mut i: usize = 1;
    while i < lengths.len()
        invariant
            1 <= lengths@.len(),
            0 <= best < i <= lengths@.len(),
            forall|k: int| 0 <= k < i ==> lengths@[best as int] <= #[trigger] lengths@[k],
            forall|k: int| 0 <= k < best ==> lengths@[best as int] < #[trigger] lengths@[k],
        decreases lengths@.len() - i,
    {
        if lengths[i] < lengths[best] {
            best = i;
        }
        i = i + 1;
    }
    best
}

/// How a new population arises from an old one: for the `k`-th partner
/// index, children `2k` and `2k+1` are the two crossings of the elite
/// (at index `b`) with that partner at point `c`, each then swap-mutated.
pub open spec fn bred_from(
    newpop: Seq<Path>,
    oldpop: Seq<Path>,
    partners: Seq<usize>,
    b: int,
    c: int,
) -> bool {
    forall|k: int|
        0 <= k < partners.len() ==> {
            let alpha = oldpop[b]@;
            let partner = oldpop[#[trigger] partners[k] as int]@;
            &&& is_swap_of(newpop[2 * k]@, spec_crossover(alpha, partner, c))
            &&& is_swap_of(newpop[2 * k + 1]@, spec_crossover(partner, alpha, c))
        }
}

/// The evolution engine: the distance map it was constructed against, the
/// current population of tours, and their lengths. The fitness of tour `i`
/// is `1 / lengths[i]`, so the `lengths` vector is the fitness record:
/// shorter means fitter.
#[derive(Debug)]
pub struct EvolutionEngine {
    pub map: DistanceMap,
    pub population: Vec<Path>,
    pub lengths: Vec<usize>,
}

impl EvolutionEngine {
    /// Between steps: every tour is a valid permutation over the map's
    /// cities, and `lengths` is exactly the recomputed length of each tour.
    pub open spec fn wf(self) -> bool {
        &&& self.map.wf()
        &&& self.population@.len() == self.lengths@.len()
        &&& forall|i: int|
            0 <= i < self.population@.len() ==> valid_tour(
                (#[trigger] self.population@[i])@,
                self.map.city_count as int,
            )
        &&& forall|i: int|
            0 <= i < self.population@.len() ==> #[trigger] self.lengths@[i]
                == self.map.spec_path_length(self.population@[i]@)
    }

    /// Constructs the engine against a map: `population_size` independent
    /// uniformly random tours and their lengths. A population of size zero
    /// is a configuration error.
    pub fn new(map: DistanceMap, population_size: usize, rng: &mut Rng) -> (r: Result<
        EvolutionEngine,
        TspError,
    >)
        requires
            map.wf(),
        ensures
            match r {
                Ok(e) => {
                    &&& 1 <= population_size
                    &&& e.wf()
                    &&& e.map == map
                    &&& e.population@.len() == population_size
                },
                Err(err) => population_size == 0 && err == TspError::ZeroPopulation,
            },
    {
        if population_size == 0 {
            return Err(TspError::ZeroPopulation);
        }
        let mut population: Vec<Path> = Vec::new();
        let mut k: usize = 0;
        while k < population_size
            invariant
                map.wf(),
                0 <= k <= population_size,
                population@.len() == k,
                forall|i: int|
                    0 <= i < k ==> valid_tour(
                        (#[trigger] population@[i])@,
                        map.city_count as int,
                    ),
            decreases population_size - k,
        {
            let path = map.get_random_path(rng);
            population.push(path);
            k = k + 1;
        }
        let lengths = compute_lengths(&map, &population);
        Ok(EvolutionEngine { map, population, lengths })
    }

    /// The elite query: the index of the fittest tour of the current
    /// population (the smallest length, first occurrence on ties). The tour
    /// itself and its length are `population[r]` and `lengths[r]`.
    pub fn best(&self) -> (r: usize)
        requires
            self.wf(),
            1 <= self.population@.len(),
        ensures
            is_best_index(self.lengths@, r as int),
    {
        best_index(&self.lengths)
    }

    /// One generation step. The caller samples `floor(P/2)` partner indices
    /// from the fitness-proportional distribution over the current
    /// population (weights `1/lengths[i]`) and passes them in; the step
    /// crosses the elite with every partner both ways at one shared
    /// crossover point, swap-mutates every child, and replaces population
    /// and lengths wholesale. The new population holds exactly the
    /// `2 * floor(P/2)` children — strictly fewer than `P` when `P` is odd.
    pub fn step(&mut self, partners: &Vec<usize>, rng: &mut Rng)
        requires
            old(self).wf(),
            1 <= old(self).population@.len(),
            partners@.len() == old(self).population@.len() / 2,
            forall|k: int|
                0 <= k < partners@.len() ==> #[trigger] partners@[k]
                    < old(self).population@.len(),
        ensures
            final(self).wf(),
            final(self).map == old(self).map,
            final(self).population@.len() == 2 * (old(self).population@.len() / 2),
            exists|b: int, c: int|
                {
                    &&& is_best_index(old(self).lengths@, b)
                    &&& crossover_point_ok(c, old(self).map.city_count as int)
                    &&& #[trigger] bred_from(
                        final(self).population@,
                        old(self).population@,
                        partners@,
                        b,
                        c,
                    )
                },
    {
        let ghost cc = self.map.city_count as int;
        let b = best_index(&self.lengths);
        let n = self.map.city_count;
        let c = if n > 2 {
            rng.gen_range(0, n - 2)
        } else {
            0
        };
        let alpha = copy_path(&self.population[b]);

        let mut newpop: Vec<Path> = Vec::new();
        let count = partners.len();
        let mut k: usize = 0;
        while k < count
            invariant
                self == old(self),
                self.wf(),
                cc == self.map.city_count,
                1 <= self.population@.len(),
                count == partners@.len(),
                count == self.population@.len() / 2,
                forall|x: int|
                    0 <= x < partners@.len() ==> #[trigger] partners@[x]
                        < self.population@.len(),
                alpha@ == self.population@[b as int]@,
                is_best_index(self.lengths@, b as int),
                crossover_point_ok(c as int, cc),
                c + 2 <= cc,
                0 <= k <= count,
                newpop@.len() == 2 * k,
                bred_from(newpop@, self.population@, partners@.take(k as int), b as int, c as int),
                forall|i: int|
                    0 <= i < newpop@.len() ==> valid_tour((#[trigger] newpop@[i])@, cc),
            decreases count - k,
        {
            let pi = partners[k];
            let children = crossover(&alpha, &self.population[pi], c);
            let m1 = mutate(&children[0], rng);
            let m2 = mutate(&children[1], rng);
            newpop.push(m1);
            newpop.push(m2);
            proof {
                assert(partners@.take(k as int + 1).drop_last() =~= partners@.take(k as int));
                assert forall|x: int|
                    0 <= x < k + 1 implies {
                    let alpha_s = self.population@[b as int]@;
                    let partner = self.population@[#[trigger] partners@.take(k as int + 1)[x] as int]@;
                    &&& is_swap_of(newpop@[2 * x]@, spec_crossover(alpha_s, partner, c as int))
                    &&& is_swap_of(
                        newpop@[2 * x + 1]@,
                        spec_crossover(partner, alpha_s, c as int),
                    )
                } by {
                    if x < k {
                        assert(partners@.take(k as int)[x] == partners@.take(k as int + 1)[x]);
                    }
                }
            }
            k = k + 1;
        }

        let newlens = compute_lengths(&self.map, &newpop);
        self.population = newpop;
        self.lengths = newlens;
        proof {
            assert(partners@.take(partners@.len() as int) =~= partners@);
            assert(bred_from(
                final(self).population@,
                old(self).population@,
                partners@,
                b as int,
                c as int,
            ));
        }
    }
}

/// The lengths of a population of valid tours, recomputed from scratch
/// against the map.
fn compute_lengths(map: &DistanceMap, population: &Vec<Path>) -> (r: Vec<usize>)
    requires
        map.wf(),
        forall|i: int|
            0 <= i < population@.len() ==> valid_tour(
                (#[trigger] population@[i])@,
                map.city_count as int,
            ),
    ensures
        r@.len() == population@.len(),
        forall|i: int|
            0 <= i < population@.len() ==> #[trigger] r@[i] == map.spec_path_length(
                population@[i]@,
            ),
{
    let mut lengths: Vec<usize> = Vec::new();
    let mut k: usize = 0;
    while k < population.len()
        invariant
            map.wf(),
            forall|i: int|
                0 <= i < population@.len() ==> valid_tour(
                    (#[trigger] population@[i])@,
                    map.city_count as int,
                ),
            0 <= k <= population@.len(),
            lengths@.len() == k,
            forall|i: int|
                0 <= i < k ==> #[trigger] lengths@[i] == map.spec_path_length(population@[i]@),
        decreases population@.len() - k,
    {
        let l = map.get_path_length(&population[k]);
        lengths.push(l);
        k = k + 1;
    }
    lengths
}

} // verus!
