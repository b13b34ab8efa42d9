use lobsterpot::forest::{IsolationForestCustom, IsolationTree};
use rand::rngs::StdRng;
use rand::SeedableRng;

fn seeded_rng(seed: u64) -> StdRng {
    StdRng::seed_from_u64(seed)
}

fn c(n: f64) -> f64 {
    if n <= 1.0 {
        return 0.0;
    }
    2.0 * ((n - 1.0).ln() + 0.5772156649) - 2.0 * (n - 1.0) / n
}

fn score(f: &IsolationForestCustom, p: &Vec<i64>) -> f64 {
    let ends = f.path_lengths(p);
    let total: f64 = ends.iter().map(|e| e.depth as f64 + c(e.leaf_size as f64)).sum();
    let avg = total / ends.len() as f64;
    2f64.powf(-avg / c(f.sample_size as f64))
}

fn cluster() -> Vec<Vec<i64>> {
    let mut d = Vec::new();
    for x in [100i64, 150, 200, 250, 300] {
        for y in [200i64, 250, 300, 350, 400] {
            d.push(vec![x, y]);
        }
    }
    d.push(vec![1000, 1000]);
    d
}

#[test]
fn outlier_scores_above_cluster() {
    let data = cluster();
    let mut f = IsolationForestCustom::new(100, 8, 16);
    let mut rng = seeded_rng(42);
    f.fit(&data, &mut rng);
    assert_eq!(f.trees.len(), 100);
    assert!(f.trees.iter().all(|t| t.size == 16));
    let out = score(&f, &vec![1000, 1000]);
    let inside = score(&f, &vec![200, 300]);
    assert!(out > inside + 0.1, "outlier {} inlier {}", out, inside);
    assert!(out > 0.0 && out <= 1.0 && inside > 0.0 && inside <= 1.0);
}

#[test]
fn fit_is_reproducible_with_seed() {
    let data = cluster();
    let mut a = IsolationForestCustom::new(20, 8, 16);
    let mut b = IsolationForestCustom::new(20, 8, 16);
    a.fit(&data, &mut seeded_rng(7));
    b.fit(&data, &mut seeded_rng(7));
    for p in [vec![1000i64, 1000], vec![200, 300], vec![0, 0]] {
        assert_eq!(a.path_lengths(&p), b.path_lengths(&p));
    }
}

#[test]
fn tiny_training_sets_make_leaves() {
    let mut t = IsolationTree::new();
    t.fit(&vec![vec![1, 2]], 5, &mut seeded_rng(1));
    assert!(t.left.is_none() && t.right.is_none());
    assert_eq!(t.size, 1);
    let e = t.path_length(&vec![5, 5], 0);
    assert_eq!((e.depth, e.leaf_size), (0, 1));
    let mut u = IsolationTree::new();
    u.fit(&vec![vec![1], vec![1], vec![1]], 5, &mut seeded_rng(1));
    assert!(u.left.is_none());
    assert_eq!(u.size, 3);
    let mut w = IsolationTree::new();
    w.fit(&vec![vec![1], vec![9]], 0, &mut seeded_rng(1));
    assert!(w.left.is_none());
}

#[test]
fn sample_capped_at_rows() {
    let data = vec![vec![1i64, 1], vec![2, 2], vec![3, 3]];
    let mut f = IsolationForestCustom::new(3, 4, 256);
    f.fit(&data, &mut seeded_rng(3));
    assert!(f.trees.iter().all(|t| t.size == 3));
    let ends = f.path_lengths(&vec![2, 2]);
    assert_eq!(ends.len(), 3);
    assert!(ends.iter().all(|e| e.depth <= 4));
}

#[test]
fn splits_partition_rows_between_min_and_max() {
    fn check(t: &IsolationTree, rows: &[Vec<i64>]) {
        assert_eq!(t.size, rows.len());
        match (&t.left, &t.right) {
            (Some(l), Some(r)) => {
                let f = t.split_feature.unwrap();
                let lo = rows.iter().map(|x| x[f]).min().unwrap();
                let hi = rows.iter().map(|x| x[f]).max().unwrap();
                assert!(lo <= t.split_value && t.split_value < hi);
                let left: Vec<Vec<i64>> = rows.iter().filter(|x| x[f] < t.split_value).cloned().collect();
                let right: Vec<Vec<i64>> = rows.iter().filter(|x| x[f] >= t.split_value).cloned().collect();
                check(l, &left);
                check(r, &right);
            }
            _ => assert!(t.split_feature.is_none()),
        }
    }
    let data = cluster();
    let mut t = IsolationTree::new();
    t.fit(&data, 6, &mut seeded_rng(11));
    check(&t, &data);
}
