//! The distance map: an `N x N` symmetric matrix of non-negative integer
//! distances with a zero diagonal, drawn once at construction and immutable
//! thereafter. City `0` is the implicit start of every tour.

use vstd::prelude::*;

use crate::rng::Rng;
use crate::tour::{lemma_permutation_preserves_valid, valid_tour, Path, PathLen};
use crate::TspError;

verus! {

/// Off-diagonal distances are drawn uniformly from `[1, K * N)`.
pub const K: usize = 5;

/// A symmetric map of distances between `city_count` cities.
#[derive(Debug)]
pub struct DistanceMap {
    pub city_count: usize,
    pub matrix: Vec<Vec<usize>>,
}

/// The matrix is square, has a zero diagonal, is symmetric, and every
/// off-diagonal entry lies in `[1, K * N)`.
pub open spec fn matrix_ok(m: Seq<Vec<usize>>) -> bool {
    &&& forall|i: int| 0 <= i < m.len() ==> (#[trigger] m[i])@.len() == m.len()
    &&& forall|i: int| 0 <= i < m.len() ==> (#[trigger] m[i])@[i] == 0
    &&& forall|i: int, j: int|
        0 <= i < m.len() && 0 <= j < m.len() && i != j ==> 1 <= #[trigger] m[i]@[j] < K * m.len()
    &&& forall|i: int, j: int|
        0 <= i < m.len() && 0 <= j < m.len() ==> #[trigger] m[i]@[j] == m[j]@[i]
}

impl DistanceMap {
    /// The invariant every constructor establishes and every method keeps:
    /// a well-shaped matrix over at least two cities, small enough that no
    /// tour length can overflow a `usize`.
    pub open spec fn wf(self) -> bool {
        &&& 2 <= self.city_count
        &&& self.matrix@.len() == self.city_count
        &&& matrix_ok(self.matrix@)
        &&& K * self.city_count * self.city_count <= usize::MAX
    }

    /// The distance between cities `a` and `b`.
    pub open spec fn dist(self, a: int, b: int) -> int {
        self.matrix@[a]@[b] as int
    }

    /// The length of the open path `0, t[0], ..., t[k-1]`: the first `k`
    /// legs of the tour `t`, starting at the implicit city `0`.
    pub open spec fn path_length_prefix(self, t: Seq<usize>, k: int) -> int
        decreases k,
    {
        if k <= 0 {
            0
        } else if k == 1 {
            self.dist(0, t[0] as int)
        } else {
            self.path_length_prefix(t, k - 1) + self.dist(t[k - 2] as int, t[k - 1] as int)
        }
    }

    /// The length of the whole tour `t`: an open path from city `0` through
    /// every entry of `t` in order. The return to city `0` is deliberately
    /// not included.
    pub open spec fn spec_path_length(self, t: Seq<usize>) -> int {
        self.path_length_prefix(t, t.len() as int)
    }

    /// Every prefix of a path over in-range cities has a length between `1`
    /// and `K * N` per leg, so lengths never overflow a `usize`.
    pub proof fn lemma_path_length_prefix_bounds(self, t: Seq<usize>, k: int)
        requires
            self.wf(),
            forall|i: int| 0 <= i < t.len() ==> 1 <= #[trigger] t[i] < self.city_count,
            1 <= k <= t.len(),
        ensures
            1 <= self.path_length_prefix(t, k) <= K * self.city_count * k,
        decreases k,
    {
        let cc = self.city_count as int;
        if k == 1 {
            assert(1 <= self.dist(0, t[0] as int) < K * cc);
            assert(K * cc * 1 == K * cc) by (nonlinear_arith);
        } else {
            self.lemma_path_length_prefix_bounds(t, k - 1);
            let a = t[k - 2] as int;
            let b = t[k - 1] as int;
            assert(0 <= self.dist(a, b) < K * cc);
            assert(K * cc * (k - 1) + K * cc == K * cc * k) by (nonlinear_arith);
        }
    }

    /// Builds the random symmetric matrix: every off-diagonal pair gets one
    /// uniform draw from `[1, K * size)`. Rejects a city count under two.
    pub fn new(size: usize, rng: &mut Rng) -> (r: Result<DistanceMap, TspError>)
        requires
            K * size * size <= usize::MAX,
        ensures
            match r {
                Ok(m) => 2 <= size && m.wf() && m.city_count == size,
                Err(e) => size < 2 && e == TspError::CityCountTooSmall,
            },
    {
        if size < 2 {
            return Err(TspError::CityCountTooSmall);
        }
        let ghost sz = size as int;
        assert(K * sz <= K * sz * sz) by (nonlinear_arith)
            requires 2 <= sz;
        let hi = K * size;

        let mut matrix: Vec<Vec<usize>> = Vec::new();
        for i in 0..size
            invariant
                matrix@.len() == i,
                forall|a: int| 0 <= a < i ==> (#[trigger] matrix@[a])@.len() == size,
                forall|a: int, b: int|
                    0 <= a < i && 0 <= b < size ==> #[trigger] matrix@[a]@[b] == 0,
        {
            let mut row: Vec<usize> = Vec::new();
            for j in 0..size
                invariant
                    row@.len() == j,
                    forall|b: int| 0 <= b < j ==> #[trigger] row@[b] == 0,
            {
                row.push(0);
            }
            matrix.push(row);
        }

        for i in 0..size
            invariant
                2 <= size,
                hi == K * sz,
                sz == size,
                K * sz * sz <= usize::MAX,
                matrix@.len() == size,
                forall|a: int| 0 <= a < size ==> (#[trigger] matrix@[a])@.len() == size,
                forall|a: int| 0 <= a < size ==> (#[trigger] matrix@[a])@[a] == 0,
                forall|a: int, b: int|
                    0 <= a < b < size && a < i ==> 1 <= #[trigger] matrix@[a]@[b] < K * sz
                        && matrix@[a]@[b] == matrix@[b]@[a],
                forall|a: int, b: int|
                    0 <= a < b < size && i <= a ==> #[trigger] matrix@[a]@[b] == 0
                        && matrix@[b]@[a] == 0,
        {
            let mut j: usize = i + 1;
            while j < size
                invariant
                    2 <= size,
                    hi == K * sz,
                    sz == size,
                    i < j <= size,
                    i < size,
                    matrix@.len() == size,
                    forall|a: int| 0 <= a < size ==> (#[trigger] matrix@[a])@.len() == size,
                    forall|a: int| 0 <= a < size ==> (#[trigger] matrix@[a])@[a] == 0,
                    forall|a: int, b: int|
                        0 <= a < b < size && (a < i || (a == i && b < j)) ==> 1 <= #[trigger] matrix@[a]@[b]
                            < K * sz && matrix@[a]@[b] == matrix@[b]@[a],
                    forall|a: int, b: int|
                        0 <= a < b < size && !(a < i || (a == i && b < j)) ==> #[trigger] matrix@[a]@[b]
                            == 0 && matrix@[b]@[a] == 0,
                decreases size - j,
            {
                let w = rng.gen_range(1, hi);
                matrix[i][j] = w;
                matrix[j][i] = w;
                j = j + 1;
            }
        }

        assert forall|a: int, b: int|
            0 <= a < size && 0 <= b < size && a != b implies 1 <= #[trigger] matrix@[a]@[b] < K
            * sz && matrix@[a]@[b] == matrix@[b]@[a] by {
            if b < a {
                assert(1 <= matrix@[b]@[a] < K * sz);
                assert(matrix@[b]@[a] == matrix@[a]@[b]);
            }
        }
        Ok(DistanceMap { city_count: size, matrix })
    }

    /// Checks a caller-supplied matrix and wraps it into a map: the way to
    /// run the engine over fixed, known distances.
    pub fn from_matrix(matrix: Vec<Vec<usize>>) -> (r: Result<DistanceMap, TspError>)
        ensures
            match r {
                Ok(m) => {
                    &&& m.wf()
                    &&& m.city_count == matrix@.len()
                    &&& m.matrix == matrix
                },
                Err(e) => {
                    &&& e == TspError::CityCountTooSmall <==> matrix@.len() < 2
                    &&& e == TspError::InvalidMatrix <==> (2 <= matrix@.len() && !(matrix_ok(
                        matrix@,
                    ) && K * matrix@.len() * matrix@.len() <= usize::MAX))
                },
            },
            r is Ok <==> (2 <= matrix@.len() && matrix_ok(matrix@) && K * matrix@.len()
                * matrix@.len() <= usize::MAX),
    {
        let size = matrix.len();
        if size < 2 {
            return Err(TspError::CityCountTooSmall);
        }
        let ghost sz = size as int;
        match size.checked_mul(size) {
            Some(ss) => match K.checked_mul(ss) {
                Some(_) => {
                    assert(K * sz * sz <= usize::MAX) by (nonlinear_arith)
                        requires K * (sz * sz) <= usize::MAX;
                },
                None => {
                    assert(K * sz * sz > usize::MAX) by (nonlinear_arith)
                        requires K * (sz * sz) > usize::MAX;
                    return Err(TspError::InvalidMatrix);
                },
            },
            None => {
                assert(K * sz * sz > usize::MAX) by (nonlinear_arith)
                    requires sz * sz > usize::MAX, K >= 1;
                return Err(TspError::InvalidMatrix);
            },
        };
        assert(K * sz <= K * sz * sz) by (nonlinear_arith)
            requires 1 <= sz;
        let ksize = K * size;

        for i in 0..size
            invariant
                2 <= size,
                matrix@.len() == size,
                ksize == K * size,
                K * size * size <= usize::MAX,
                forall|a: int| 0 <= a < i ==> (#[trigger] matrix@[a])@.len() == size,
                forall|a: int| 0 <= a < i ==> (#[trigger] matrix@[a])@[a] == 0,
                forall|a: int, b: int|
                    0 <= a < i && 0 <= b < size && a != b ==> 1 <= #[trigger] matrix@[a]@[b] < K
                        * size,
                forall|a: int, b: int|
                    0 <= a < i && 0 <= b < i ==> #[trigger] matrix@[a]@[b] == matrix@[b]@[a],
        {
            if matrix[i].len() != size {
                return Err(TspError::InvalidMatrix);
            }
            if matrix[i][i] != 0 {
                return Err(TspError::InvalidMatrix);
            }
            for j in 0..size
                invariant
                    2 <= size,
                    matrix@.len() == size,
                    ksize == K * size,
                    i < size,
                    matrix@[i as int]@.len() == size,
                    matrix@[i as int]@[i as int] == 0,
                    forall|a: int| 0 <= a < i ==> (#[trigger] matrix@[a])@.len() == size,
                    forall|b: int|
                        0 <= b < j && i != b ==> 1 <= #[trigger] matrix@[i as int]@[b] < K * size,
                    forall|b: int|
                        0 <= b < j && b < i ==> #[trigger] matrix@[i as int]@[b]
                            == matrix@[b]@[i as int],
            {
                if i != j {
                    let d = matrix[i][j];
                    if d < 1 || d >= ksize {
                        return Err(TspError::InvalidMatrix);
                    }
                    if j < i {
                        if matrix[j].len() != size || matrix[j][i] != d {
                            return Err(TspError::InvalidMatrix);
                        }
                    }
                }
            }
        }
        assert forall|a: int, b: int|
            0 <= a < size && 0 <= b < size implies #[trigger] matrix@[a]@[b]
            == matrix@[b]@[a] by {
            assert(matrix@[a]@.len() == size);
            assert(matrix@[b]@.len() == size);
        }
        Ok(DistanceMap { city_count: size, matrix })
    }

    /// The distance between cities `a` and `b`.
    pub fn get_distance(&self, a: usize, b: usize) -> (r: usize)
        requires
            self.wf(),
            a < self.city_count,
            b < self.city_count,
        ensures
            r == self.dist(a as int, b as int),
            r < K * self.city_count,
            a != b ==> 1 <= r,
            a == b ==> r == 0,
    {
        self.matrix[a][b]
    }

    /// The open-path length of a valid tour: the leg from city `0` to the
    /// first entry, then one leg per consecutive pair. Always at least `1`.
    pub fn get_path_length(&self, path: &Path) -> (r: PathLen)
        requires
            self.wf(),
            valid_tour(path@, self.city_count as int),
        ensures
            r == self.spec_path_length(path@),
            1 <= r,
    {
        let ghost cc = self.city_count as int;
        let len = path.len();
        proof {
            self.lemma_path_length_prefix_bounds(path@, 1);
        }
        let mut acc = self.get_distance(0, path[0]);
        let mut k: usize = 1;
        while k < len
            invariant
                self.wf(),
                valid_tour(path@, self.city_count as int),
                cc == self.city_count,
                1 <= k <= len,
                len == path@.len(),
                acc == self.path_length_prefix(path@, k as int),
                1 <= acc,
            decreases len - k,
        {
            proof {
                self.lemma_path_length_prefix_bounds(path@, k as int);
                assert(K * cc * k <= K * cc * (cc - 1)) by (nonlinear_arith)
                    requires 0 < K * cc, k <= cc - 1;
                assert(K * cc * (cc - 1) + K * cc == K * cc * cc) by (nonlinear_arith);
            }
            let d = self.get_distance(path[k - 1], path[k]);
            acc = acc + d;
            k = k + 1;
        }
        acc
    }

    /// A uniformly random tour: the cities `1..N` in a uniformly shuffled
    /// order. This is the population-initialization primitive.
    pub fn get_random_path(&self, rng: &mut Rng) -> (r: Path)
        requires
            self.wf(),
        ensures
            valid_tour(r@, self.city_count as int),
    {
        let ghost cc = self.city_count as int;
        let mut path: Path = Vec::new();
        let mut v: usize = 1;
        while v < self.city_count
            invariant
                1 <= v <= self.city_count,
                path@.len() == v - 1,
                forall|k: int| 0 <= k < path@.len() ==> #[trigger] path@[k] == k + 1,
            decreases self.city_count - v,
        {
            path.push(v);
            v = v + 1;
        }
        assert(valid_tour(path@, cc));
        let ghost before = path@;
        rng.shuffle(&mut path);
        proof {
            lemma_permutation_preserves_valid(before, path@, cc);
        }
        path
    }
}

} // verus!
