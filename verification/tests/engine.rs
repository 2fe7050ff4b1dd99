use vecsim::errors::VectorError;
use vecsim::float_bits::f64_le_bits;
use vecsim::vector_ops::VectorConfig;
use vecsim::vector_ops::VectorOperations;
use vecsim::vector_ops::BATCH_PARALLEL_THRESHOLD;
use vecsim::vector_ops::DEFAULT_SIMILARITY_THRESHOLD;
use vecsim::vector_ops::PAIRWISE_PARALLEL_THRESHOLD;

#[test]
fn default_config_matches_documented_defaults() {
    let c = VectorConfig::default();
    assert!(c.use_simd);
    assert!(c.use_parallel);
    assert_eq!(c.similarity_threshold, (0.7f64).to_bits());
    assert_eq!(DEFAULT_SIMILARITY_THRESHOLD, (0.7f64).to_bits());
}

#[test]
fn new_engine_uses_given_or_default_config() {
    let custom = VectorConfig { use_simd: false, use_parallel: false, similarity_threshold: (0.5f64).to_bits() };
    let ops = VectorOperations::new(Some(custom), true);
    assert!(!ops.config.use_simd);
    assert!(!ops.config.use_parallel);
    assert_eq!(ops.config.similarity_threshold, (0.5f64).to_bits());
    let ops = VectorOperations::new(None, false);
    assert!(ops.config.use_simd);
    assert_eq!(ops.config.similarity_threshold, (0.7f64).to_bits());
}

#[test]
fn vectorized_path_needs_config_and_hardware() {
    let c = VectorConfig::default();
    assert!(VectorOperations::new(Some(c), true).has_vectorized_path());
    assert!(!VectorOperations::new(Some(c), false).has_vectorized_path());
    let off = VectorConfig { use_simd: false, ..c };
    assert!(!VectorOperations::new(Some(off), true).has_vectorized_path());
}

#[test]
fn parallel_dispatch_is_size_gated() {
    let ops = VectorOperations::new(None, true);
    assert_eq!(BATCH_PARALLEL_THRESHOLD, 100);
    assert_eq!(PAIRWISE_PARALLEL_THRESHOLD, 50);
    assert!(!ops.use_parallel_batch(100));
    assert!(ops.use_parallel_batch(101));
    assert!(!ops.use_parallel_pairwise(50));
    assert!(ops.use_parallel_pairwise(51));
    let seq = VectorOperations::new(
        Some(VectorConfig { use_parallel: false, ..VectorConfig::default() }),
        true,
    );
    assert!(!seq.use_parallel_batch(10_000));
    assert!(!seq.use_parallel_pairwise(10_000));
}

#[test]
fn mismatched_lengths_fail_with_dimension_mismatch() {
    let ops = VectorOperations::new(None, false);
    assert!(ops.check_dimensions(3, 3).is_ok());
    assert_eq!(ops.check_dimensions(3, 4), Err(VectorError::DimensionMismatch));
    assert_eq!(
        VectorError::DimensionMismatch.message(),
        "Vectors must have the same length"
    );
}

#[test]
fn collection_shape_is_validated() {
    let ops = VectorOperations::new(None, false);
    assert_eq!(ops.check_collection(10, 5), Ok(2));
    assert_eq!(ops.check_collection(0, 5), Ok(0));
    assert_eq!(ops.check_collection(10, 3), Err(VectorError::MalformedCollection));
    assert_eq!(ops.check_collection(10, 0), Err(VectorError::MalformedCollection));
    assert_eq!(
        VectorError::MalformedCollection.message(),
        "Vectors array length must be a multiple of vector_size"
    );
}

#[test]
fn batch_validation_checks_query_dimension() {
    let ops = VectorOperations::new(None, false);
    assert_eq!(ops.check_batch(2, 6, 2), Ok(3));
    assert_eq!(ops.check_batch(3, 6, 2), Err(VectorError::DimensionMismatch));
    assert_eq!(ops.check_batch(3, 7, 2), Err(VectorError::MalformedCollection));
    // an empty collection never reaches the kernel's dimension check
    assert_eq!(ops.check_batch(3, 0, 2), Ok(0));
}

#[test]
fn zero_norms_are_rejected_for_normalization() {
    let ops = VectorOperations::new(None, false);
    assert_eq!(ops.check_norm_nonzero((0.0f32).to_bits()), Err(VectorError::ZeroVectorError));
    assert_eq!(ops.check_norm_nonzero((-0.0f32).to_bits()), Err(VectorError::ZeroVectorError));
    assert!(ops.check_norm_nonzero((5.0f32).to_bits()).is_ok());
    assert_eq!(VectorError::ZeroVectorError.message(), "Cannot normalize zero vector");
}

#[test]
fn degenerate_similarity_uses_zero_convention() {
    let ops = VectorOperations::new(None, false);
    assert!(ops.similarity_is_defined((1.0f32).to_bits(), (2.0f32).to_bits()));
    assert!(!ops.similarity_is_defined((0.0f32).to_bits(), (2.0f32).to_bits()));
    assert!(!ops.similarity_is_defined((1.0f32).to_bits(), (-0.0f32).to_bits()));
}

#[test]
fn bit_order_agrees_with_float_order() {
    let samples: [f64; 9] = [
        f64::NEG_INFINITY,
        -3.5,
        -1.0,
        -0.0,
        0.0,
        0.5,
        1.0,
        3.5,
        f64::INFINITY,
    ];
    for &a in &samples {
        for &b in &samples {
            assert_eq!(
                f64_le_bits(a.to_bits(), b.to_bits()),
                a <= b,
                "order of {a} and {b}"
            );
        }
    }
}

#[test]
fn a_positive_nan_orders_above_every_number() {
    let nan = f64::NAN.to_bits() & !(1u64 << 63);
    assert!(f64_le_bits(f64::INFINITY.to_bits(), nan));
    assert!(!f64_le_bits(nan, f64::INFINITY.to_bits()));
}
