//! The similarity engine: its configuration, its dispatch decisions and the
//! validation of every operation's input.
//!
//! The floating-point kernels themselves (dot products, norms, square roots)
//! run in the host layer; every decision about them, and everything stated of
//! their surroundings, lives here. Scores and thresholds are carried as IEEE
//! 754 bit patterns (see `float_bits`).

use vstd::prelude::*;

use crate::errors::VectorError;
use crate::float_bits::f32_is_zero;
use crate::float_bits::f32_is_zero_bits;

verus! {

/// Batch similarity runs its candidates in parallel only above this count.
pub const BATCH_PARALLEL_THRESHOLD: usize = 100;

/// Pairwise distances run their rows in parallel only above this count.
pub const PAIRWISE_PARALLEL_THRESHOLD: usize = 50;

/// The bit pattern of the default similarity threshold, a double-precision
/// seven tenths.
pub const DEFAULT_SIMILARITY_THRESHOLD: u64 = 0x3FE6_6666_6666_6666;

/// Configuration for vector operations, immutable per engine instance.
#[derive(Clone, Copy, Debug, PartialEq, Eq, Structural)]
pub struct VectorConfig {
    /// Use the vectorized kernel when the hardware supports it.
    pub use_simd: bool,
    /// Use parallel processing for batch operations above the thresholds.
    pub use_parallel: bool,
    /// Similarity threshold for filtering top-k results, as the bit pattern
    /// of a double-precision value in [-1, 1].
    pub similarity_threshold: u64,
}

impl Default for VectorConfig {
    /// Vectorized and parallel execution on, threshold seven tenths.
    fn default() -> (c: Self)
        ensures
            c.use_simd,
            c.use_parallel,
            c.similarity_threshold == DEFAULT_SIMILARITY_THRESHOLD,
    {
        VectorConfig {
            use_simd: true,
            use_parallel: true,
            similarity_threshold: DEFAULT_SIMILARITY_THRESHOLD,
        }
    }
}

/// A similarity search hit: the candidate's position in the original
/// collection, its caller-supplied label, and its score's bit pattern.
#[derive(Clone, Debug)]
pub struct SimilarityResult {
    /// Index in the original vector collection; a machine-wide position, so
    /// that any collection a vector can hold is indexable. Hosts with a
    /// narrower index field convert.
    pub index: usize,
    /// Path or identifier for the vector.
    pub path: String,
    /// Similarity score, as the bit pattern of a double-precision value.
    pub similarity: u64,
}

/// The engine: a configuration plus the hardware capability probed once at
/// construction time.
#[derive(Clone, Copy, Debug)]
pub struct VectorOperations {
    /// The engine's immutable configuration.
    pub config: VectorConfig,
    /// Whether the executing hardware offers the vectorized instruction set;
    /// probed by the host layer at construction time.
    pub simd_available: bool,
}

impl VectorOperations {
    /// Builds an engine from an optional configuration and the result of the
    /// host's capability probe.
    pub fn new(config: Option<VectorConfig>, simd_available: bool) -> (r: Self)
        ensures
            match config {
                Some(c) => r.config == c,
                None => r.config.use_simd && r.config.use_parallel
                    && r.config.similarity_threshold == DEFAULT_SIMILARITY_THRESHOLD,
            },
            r.simd_available == simd_available,
    {
        let config = match config {
            Some(c) => c,
            None => VectorConfig::default(),
        };
        VectorOperations { config, simd_available }
    }

    /// Whether the vectorized kernel is active: requested by the
    /// configuration and supported by the hardware.
    pub fn has_vectorized_path(&self) -> (r: bool)
        ensures
            r == (self.config.use_simd && self.simd_available),
    {
        self.config.use_simd && self.simd_available
    }

    /// Whether a batch similarity over `num_vectors` candidates runs its
    /// candidates in parallel.
    pub fn use_parallel_batch(&self, num_vectors: usize) -> (r: bool)
        ensures
            r == (self.config.use_parallel && num_vectors > BATCH_PARALLEL_THRESHOLD),
    {
        self.config.use_parallel && num_vectors > BATCH_PARALLEL_THRESHOLD
    }

    /// Whether a pairwise distance matrix over `n` vectors runs its rows in
    /// parallel.
    pub fn use_parallel_pairwise(&self, n: usize) -> (r: bool)
        ensures
            r == (self.config.use_parallel && n > PAIRWISE_PARALLEL_THRESHOLD),
    {
        self.config.use_parallel && n > PAIRWISE_PARALLEL_THRESHOLD
    }

    /// Checks the two lengths a similarity is asked over: they must agree.
    pub fn check_dimensions(&self, len_a: usize, len_b: usize) -> (r: Result<(), VectorError>)
        ensures
            r is Ok <==> len_a == len_b,
            r is Err ==> r->Err_0 == VectorError::DimensionMismatch,
    {
        if len_a == len_b {
            Ok(())
        } else {
            Err(VectorError::DimensionMismatch)
        }
    }

    /// Whether a similarity quotient may be formed from the two
    /// single-precision norm bit patterns the kernel accumulated. When either
    /// norm is zero the engine returns the zero score by convention instead
    /// of dividing.
    pub fn similarity_is_defined(&self, norm_a: u32, norm_b: u32) -> (r: bool)
        ensures
            r == (!f32_is_zero(norm_a) && !f32_is_zero(norm_b)),
    {
        !f32_is_zero_bits(norm_a) && !f32_is_zero_bits(norm_b)
    }

    /// Checks the single-precision norm of a vector about to be normalized:
    /// a zero norm is rejected rather than divided by.
    pub fn check_norm_nonzero(&self, norm: u32) -> (r: Result<(), VectorError>)
        ensures
            r is Ok <==> !f32_is_zero(norm),
            r is Err ==> r->Err_0 == VectorError::ZeroVectorError,
    {
        if f32_is_zero_bits(norm) {
            Err(VectorError::ZeroVectorError)
        } else {
            Ok(())
        }
    }

    /// Checks a flattened collection's shape: its length must be a multiple
    /// of a nonzero `vector_size`. Returns the number of vectors it holds.
    pub fn check_collection(&self, collection_len: usize, vector_size: u32) -> (r: Result<
        usize,
        VectorError,
    >)
        ensures
            r is Ok <==> (vector_size != 0 && collection_len as int % (vector_size as int) == 0),
            r is Ok ==> r->Ok_0 == collection_len as int / (vector_size as int),
            r is Err ==> r->Err_0 == VectorError::MalformedCollection,
    {
        if vector_size == 0 {
            return Err(VectorError::MalformedCollection);
        }
        let size = vector_size as usize;
        if collection_len % size != 0 {
            return Err(VectorError::MalformedCollection);
        }
        Ok(collection_len / size)
    }

    /// Validates a whole batch similarity request: the collection must be
    /// well shaped, and, whenever there is at least one candidate, the query
    /// must have the collection's per-vector dimension. Returns the number of
    /// candidate vectors; the batch's scores come in that count, one per
    /// candidate, in collection order.
    pub fn check_batch(&self, query_len: usize, collection_len: usize, vector_size: u32) -> (r:
        Result<usize, VectorError>)
        ensures
            r is Ok <==> (vector_size != 0 && collection_len as int % (vector_size as int) == 0
                && (collection_len == 0 || query_len == vector_size)),
            r is Ok ==> r->Ok_0 == collection_len as int / (vector_size as int),
            r is Err ==> (r->Err_0 == VectorError::MalformedCollection <==> !(vector_size != 0
                && collection_len as int % (vector_size as int) == 0)),
            r is Err ==> (r->Err_0 == VectorError::MalformedCollection || r->Err_0
                == VectorError::DimensionMismatch),
    {
        let n = match self.check_collection(collection_len, vector_size) {
            Ok(n) => n,
            Err(e) => { return Err(e); },
        };
        if n > 0 && query_len != vector_size as usize {
            return Err(VectorError::DimensionMismatch);
        }
        assert(collection_len == 0 ==> n == 0) by (nonlinear_arith)
            requires n == collection_len as int / (vector_size as int), vector_size != 0;
        assert(n == 0 ==> collection_len == 0) by (nonlinear_arith)
            requires
                n == collection_len as int / (vector_size as int),
                vector_size != 0,
                collection_len as int % (vector_size as int) == 0;
        Ok(n)
    }
}

} // verus!
