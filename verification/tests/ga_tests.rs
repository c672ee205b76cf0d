use rand::distributions::{Distribution, WeightedIndex};
use rand::SeedableRng;
use tsp_ga::engine::{
    best_index, crossover, mutate, one_point_crossover, swap_positions, EvolutionEngine,
};
use tsp_ga::map::DistanceMap;
use tsp_ga::rng::Rng;
use tsp_ga::{Cli, TspError};

/// A valid tour over `n` cities is a permutation of `1..n`.
fn is_valid_tour(t: &[usize], n: usize) -> bool {
    if t.len() != n - 1 {
        return false;
    }
    let mut seen = vec![false; n];
    for &v in t {
        if v < 1 || v >= n || seen[v] {
            return false;
        }
        seen[v] = true;
    }
    true
}

fn fixed_matrix() -> Vec<Vec<usize>> {
    vec![
        vec![0, 1, 2, 3],
        vec![1, 0, 4, 5],
        vec![2, 4, 0, 6],
        vec![3, 5, 6, 0],
    ]
}

#[test]
fn distance_map_invariants() {
    for &n in &[2usize, 6, 11] {
        let mut rng = Rng::from_seed(5);
        let map = DistanceMap::new(n, &mut rng).unwrap();
        assert_eq!(map.city_count, n);
        assert_eq!(map.matrix.len(), n);
        for i in 0..n {
            assert_eq!(map.matrix[i].len(), n);
            assert_eq!(map.matrix[i][i], 0);
            for j in 0..n {
                assert_eq!(map.matrix[i][j], map.matrix[j][i]);
                assert_eq!(map.get_distance(i, j), map.matrix[i][j]);
                if i != j {
                    assert!(map.matrix[i][j] >= 1);
                    assert!(map.matrix[i][j] < 5 * n);
                }
            }
        }
    }
}

#[test]
fn distance_map_rejects_small_city_count() {
    let mut rng = Rng::from_seed(1);
    assert_eq!(
        DistanceMap::new(0, &mut rng).unwrap_err(),
        TspError::CityCountTooSmall
    );
    assert_eq!(
        DistanceMap::new(1, &mut rng).unwrap_err(),
        TspError::CityCountTooSmall
    );
}

#[test]
fn from_matrix_accepts_fixed_distances() {
    let map = DistanceMap::from_matrix(fixed_matrix()).unwrap();
    assert_eq!(map.city_count, 4);
    assert_eq!(map.get_distance(1, 3), 5);
}

#[test]
fn from_matrix_rejects_bad_matrices() {
    assert_eq!(
        DistanceMap::from_matrix(vec![]).unwrap_err(),
        TspError::CityCountTooSmall
    );
    assert_eq!(
        DistanceMap::from_matrix(vec![vec![0]]).unwrap_err(),
        TspError::CityCountTooSmall
    );
    // not square
    assert_eq!(
        DistanceMap::from_matrix(vec![vec![0, 1], vec![1]]).unwrap_err(),
        TspError::InvalidMatrix
    );
    // non-zero diagonal
    assert_eq!(
        DistanceMap::from_matrix(vec![vec![2, 1], vec![1, 0]]).unwrap_err(),
        TspError::InvalidMatrix
    );
    // not symmetric
    let mut m = fixed_matrix();
    m[0][1] = 7;
    assert_eq!(
        DistanceMap::from_matrix(m).unwrap_err(),
        TspError::InvalidMatrix
    );
    // zero off the diagonal
    assert_eq!(
        DistanceMap::from_matrix(vec![vec![0, 0], vec![0, 0]]).unwrap_err(),
        TspError::InvalidMatrix
    );
    // an entry at or above 5 * N
    assert_eq!(
        DistanceMap::from_matrix(vec![vec![0, 10], vec![10, 0]]).unwrap_err(),
        TspError::InvalidMatrix
    );
}

#[test]
fn path_length_fixed_scenario() {
    let map = DistanceMap::from_matrix(fixed_matrix()).unwrap();
    // D[0][1] + D[1][2] + D[2][3] = 1 + 4 + 6
    assert_eq!(map.get_path_length(&vec![1, 2, 3]), 11);
    // D[0][3] + D[3][1] + D[1][2] = 3 + 5 + 4
    assert_eq!(map.get_path_length(&vec![3, 1, 2]), 12);
}

#[test]
fn random_path_is_permutation() {
    let mut rng = Rng::from_seed(3);
    let map = DistanceMap::new(5, &mut rng).unwrap();
    for _ in 0..10 {
        let p = map.get_random_path(&mut rng);
        assert!(is_valid_tour(&p, 5));
    }
}

#[test]
fn random_path_is_shuffled() {
    let mut rng = Rng::from_seed(8);
    let map = DistanceMap::new(30, &mut rng).unwrap();
    let p = map.get_random_path(&mut rng);
    assert!(is_valid_tour(&p, 30));
    let identity: Vec<usize> = (1..30).collect();
    assert_ne!(p, identity);
}

#[test]
fn crossover_fixed_scenario() {
    // genes1 = [1], then the entries of p2 not in {1}: [3, 2]
    let child = one_point_crossover(&vec![1, 2, 3], &vec![3, 1, 2], 1);
    assert_eq!(child, vec![1, 3, 2]);
}

#[test]
fn crossover_closure() {
    for &n in &[2usize, 3, 10] {
        let p1: Vec<usize> = (1..n).collect();
        let p2: Vec<usize> = (1..n).rev().collect();
        let top = if n > 2 { n - 2 } else { 1 };
        for c in 0..top {
            let child = one_point_crossover(&p1, &p2, c);
            assert!(is_valid_tour(&child, n));
            let child = one_point_crossover(&p2, &p1, c);
            assert!(is_valid_tour(&child, n));
        }
        let pair = crossover(&p1, &p2, top / 2);
        assert_eq!(pair.len(), 2);
        assert!(is_valid_tour(&pair[0], n));
        assert!(is_valid_tour(&pair[1], n));
    }
}

#[test]
fn swap_positions_exchanges_genes() {
    assert_eq!(swap_positions(&vec![1, 2, 3, 4], 0, 2), vec![3, 2, 1, 4]);
    assert_eq!(swap_positions(&vec![1, 2, 3, 4], 3, 1), vec![1, 4, 3, 2]);
    // coinciding draws leave the tour unchanged
    assert_eq!(swap_positions(&vec![1, 2, 3, 4], 2, 2), vec![1, 2, 3, 4]);
}

#[test]
fn mutation_closure() {
    let mut rng = Rng::from_seed(11);
    let mut tour: Vec<usize> = (1..10).collect();
    for _ in 0..20 {
        tour = mutate(&tour, &mut rng);
        assert!(is_valid_tour(&tour, 10));
    }
}

#[test]
fn fitness_monotonic_in_length() {
    // fitness is 1/length: a shorter tour is strictly fitter
    for l1 in 1usize..60 {
        for l2 in (l1 + 1)..61 {
            let f1 = 1.0f64 / l1 as f64;
            let f2 = 1.0f64 / l2 as f64;
            assert!(f1 > f2);
        }
    }
}

#[test]
fn best_index_picks_first_smallest_length() {
    // the largest fitness 1/length is the smallest length, first on ties
    assert_eq!(best_index(&vec![5, 3, 9, 3]), 1);
    assert_eq!(best_index(&vec![4]), 0);
    assert_eq!(best_index(&vec![2, 2, 2]), 0);
    assert_eq!(best_index(&vec![9, 8, 7]), 2);
}

#[test]
fn engine_rejects_zero_population() {
    let mut rng = Rng::from_seed(2);
    let map = DistanceMap::new(4, &mut rng).unwrap();
    assert_eq!(
        EvolutionEngine::new(map, 0, &mut rng).unwrap_err(),
        TspError::ZeroPopulation
    );
}

#[test]
fn engine_population_and_lengths_agree() {
    let mut rng = Rng::from_seed(4);
    let map = DistanceMap::new(6, &mut rng).unwrap();
    let engine = EvolutionEngine::new(map, 7, &mut rng).unwrap();
    assert_eq!(engine.population.len(), 7);
    assert_eq!(engine.lengths.len(), 7);
    for (i, tour) in engine.population.iter().enumerate() {
        assert!(is_valid_tour(tour, 6));
        assert_eq!(engine.lengths[i], engine.map.get_path_length(tour));
    }
    let b = engine.best();
    for &l in &engine.lengths {
        assert!(engine.lengths[b] <= l);
    }
}

/// Draws `floor(P/2)` partner indices from the fitness-proportional
/// distribution, exactly as a driving loop would.
fn sample_partners(lengths: &[usize], sampler: &mut rand::rngs::StdRng) -> Vec<usize> {
    let weights: Vec<f64> = lengths.iter().map(|&l| 1.0 / l as f64).collect();
    let dist = WeightedIndex::new(&weights).unwrap();
    (0..lengths.len() / 2).map(|_| dist.sample(sampler)).collect()
}

#[test]
fn step_shrinks_odd_population() {
    let mut rng = Rng::from_seed(6);
    let mut sampler = rand::rngs::StdRng::seed_from_u64(60);
    let map = DistanceMap::new(5, &mut rng).unwrap();
    let mut engine = EvolutionEngine::new(map, 9, &mut rng).unwrap();
    let partners = sample_partners(&engine.lengths, &mut sampler);
    assert_eq!(partners.len(), 4);
    engine.step(&partners, &mut rng);
    // 2 * floor(9/2) children: strictly fewer than 9
    assert_eq!(engine.population.len(), 8);
    assert_eq!(engine.lengths.len(), 8);
}

#[test]
fn step_keeps_tours_valid_and_lengths_fresh() {
    let mut rng = Rng::from_seed(13);
    let mut sampler = rand::rngs::StdRng::seed_from_u64(130);
    let map = DistanceMap::new(7, &mut rng).unwrap();
    let mut engine = EvolutionEngine::new(map, 10, &mut rng).unwrap();
    for _ in 0..5 {
        let partners = sample_partners(&engine.lengths, &mut sampler);
        engine.step(&partners, &mut rng);
        assert_eq!(engine.population.len(), 10);
        for (i, tour) in engine.population.iter().enumerate() {
            assert!(is_valid_tour(tour, 7));
            assert_eq!(engine.lengths[i], engine.map.get_path_length(tour));
        }
    }
}

#[test]
fn identical_seeds_give_identical_runs() {
    let run = || {
        let mut rng = Rng::from_seed(42);
        let mut sampler = rand::rngs::StdRng::seed_from_u64(420);
        let map = DistanceMap::new(6, &mut rng).unwrap();
        let matrix = map.matrix.clone();
        let mut engine = EvolutionEngine::new(map, 8, &mut rng).unwrap();
        let initial = engine.population.clone();
        let mut history = Vec::new();
        for _ in 0..3 {
            let partners = sample_partners(&engine.lengths, &mut sampler);
            engine.step(&partners, &mut rng);
            history.push((engine.population.clone(), engine.lengths.clone()));
        }
        (matrix, initial, history)
    };
    let a = run();
    let b = run();
    assert_eq!(a.0, b.0);
    assert_eq!(a.1, b.1);
    assert_eq!(a.2, b.2);
}

#[test]
fn cli_defaults() {
    let cli = Cli::default();
    assert_eq!(cli.cities, 100);
    assert_eq!(cli.population, 5000);
    assert_eq!(cli.generations, 1000);
}
