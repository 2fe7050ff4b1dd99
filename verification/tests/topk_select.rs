use vecsim::errors::VectorError;
use vecsim::vector_ops::VectorConfig;
use vecsim::vector_ops::VectorOperations;

fn engine_with_threshold(t: f64) -> VectorOperations {
    VectorOperations::new(
        Some(VectorConfig { similarity_threshold: t.to_bits(), ..VectorConfig::default() }),
        false,
    )
}

fn bits(values: &[f64]) -> Vec<u64> {
    values.iter().map(|v| v.to_bits()).collect()
}

fn labels(names: &[&str]) -> Vec<String> {
    names.iter().map(|s| s.to_string()).collect()
}

#[test]
fn top_k_filters_sorts_and_truncates() {
    let ops = engine_with_threshold(0.7);
    let sims = bits(&[0.9, 0.5, 0.95, 0.7]);
    let paths = labels(&["a", "b", "c", "d"]);
    let r = ops.select_top_k(&sims, &paths, 3).unwrap();
    assert_eq!(r.len(), 3);
    assert_eq!((r[0].index, r[0].path.as_str()), (2, "c"));
    assert_eq!(f64::from_bits(r[0].similarity), 0.95);
    assert_eq!((r[1].index, r[1].path.as_str()), (0, "a"));
    assert_eq!(f64::from_bits(r[1].similarity), 0.9);
    assert_eq!((r[2].index, r[2].path.as_str()), (3, "d"));
    assert_eq!(f64::from_bits(r[2].similarity), 0.7);
}

#[test]
fn top_k_keeps_all_when_k_exceeds_qualifying() {
    let ops = engine_with_threshold(0.7);
    let sims = bits(&[0.9, 0.5, 0.95]);
    let paths = labels(&["a", "b", "c"]);
    let r = ops.select_top_k(&sims, &paths, 10).unwrap();
    assert_eq!(r.len(), 2);
}

#[test]
fn top_k_zero_yields_nothing() {
    let ops = engine_with_threshold(0.0);
    let sims = bits(&[0.9, 0.8]);
    let paths = labels(&["a", "b"]);
    let r = ops.select_top_k(&sims, &paths, 0).unwrap();
    assert!(r.is_empty());
}

#[test]
fn top_k_breaks_ties_by_ascending_index() {
    let ops = engine_with_threshold(0.0);
    let sims = bits(&[0.5, 0.8, 0.5, 0.8]);
    let paths = labels(&["a", "b", "c", "d"]);
    let r = ops.select_top_k(&sims, &paths, 4).unwrap();
    let order: Vec<usize> = r.iter().map(|e| e.index).collect();
    assert_eq!(order, vec![1, 3, 0, 2]);
}

#[test]
fn top_k_rejects_mismatched_label_count() {
    let ops = engine_with_threshold(0.7);
    let sims = bits(&[0.9, 0.8]);
    let paths = labels(&["only-one"]);
    assert!(matches!(
        ops.select_top_k(&sims, &paths, 1),
        Err(VectorError::LabelCountMismatch)
    ));
}

#[test]
fn top_k_results_meet_threshold_and_order() {
    let ops = engine_with_threshold(0.25);
    let values = [0.31, -0.8, 0.25, 0.99, 0.1, 0.6, 0.25, -0.25, 1.0, 0.24999];
    let sims = bits(&values);
    let paths = labels(&["p0", "p1", "p2", "p3", "p4", "p5", "p6", "p7", "p8", "p9"]);
    let r = ops.select_top_k(&sims, &paths, 6).unwrap();
    assert_eq!(r.len(), 6);
    for e in &r {
        let s = f64::from_bits(e.similarity);
        assert!(s >= 0.25);
        assert_eq!(s, values[e.index]);
        assert_eq!(e.path, format!("p{}", e.index));
    }
    for w in r.windows(2) {
        let a = f64::from_bits(w[0].similarity);
        let b = f64::from_bits(w[1].similarity);
        assert!(a > b || (a == b && w[0].index < w[1].index));
    }
    let order: Vec<usize> = r.iter().map(|e| e.index).collect();
    assert_eq!(order, vec![8, 3, 5, 0, 2, 6]);
}

#[test]
fn top_k_negative_threshold_admits_negative_scores() {
    let ops = engine_with_threshold(-1.0);
    let sims = bits(&[-0.5, -1.0, 0.0]);
    let paths = labels(&["a", "b", "c"]);
    let r = ops.select_top_k(&sims, &paths, 3).unwrap();
    assert_eq!(r.len(), 3);
    let order: Vec<usize> = r.iter().map(|e| e.index).collect();
    assert_eq!(order, vec![2, 0, 1]);
}

#[test]
fn top_k_with_nothing_qualifying_is_empty() {
    let ops = engine_with_threshold(0.99);
    let sims = bits(&[0.5, 0.9, -1.0]);
    let paths = labels(&["a", "b", "c"]);
    assert!(ops.select_top_k(&sims, &paths, 5).unwrap().is_empty());
}
