use vecsim::vector_ops::VectorOperations;

fn bits(values: &[f64]) -> Vec<u64> {
    values.iter().map(|v| v.to_bits()).collect()
}

#[test]
fn cache_key_is_the_blake3_hex_of_the_le_bytes() {
    let values = [1.0f64, -2.5, 0.0, 1234.5678];
    let ops = VectorOperations::new(None, false);
    let key = ops.create_cache_key(&bits(&values));
    let mut bytes: Vec<u8> = Vec::new();
    for v in &values {
        bytes.extend_from_slice(&v.to_le_bytes());
    }
    let expect = blake3::hash(&bytes).to_hex().to_string();
    assert_eq!(key, expect);
}

#[test]
fn cache_key_is_64_hex_digits() {
    let ops = VectorOperations::new(None, false);
    let key = ops.create_cache_key(&bits(&[3.25, 4.75]));
    assert_eq!(key.len(), 64);
    assert!(key.chars().all(|c| c.is_ascii_hexdigit() && !c.is_ascii_uppercase()));
}

#[test]
fn identical_vectors_share_a_key() {
    let ops = VectorOperations::new(None, false);
    let a = ops.create_cache_key(&bits(&[0.25, 0.5, 0.75]));
    let b = ops.create_cache_key(&bits(&[0.25, 0.5, 0.75]));
    assert_eq!(a, b);
}

#[test]
fn a_one_bit_change_changes_the_key() {
    let ops = VectorOperations::new(None, false);
    let original = bits(&[0.25, 0.5, 0.75]);
    let mut flipped = original.clone();
    flipped[1] ^= 1;
    let a = ops.create_cache_key(&original);
    let b = ops.create_cache_key(&flipped);
    assert_ne!(a, b);
}

#[test]
fn empty_vector_has_the_empty_input_key() {
    let ops = VectorOperations::new(None, false);
    let key = ops.create_cache_key(&Vec::new());
    assert_eq!(key, blake3::hash(&[]).to_hex().to_string());
}
