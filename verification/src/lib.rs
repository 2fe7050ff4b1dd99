//! A vector similarity engine: cosine-similarity dispatch, batch validation,
//! top-k selection, pairwise distance matrices and content-addressed cache
//! keys, together with text-matching and path-handling utilities.
//!
//! Vector components and similarity scores travel through this crate as their
//! IEEE 754 bit patterns (`u64` for double-precision values, `u32` for
//! single-precision ones), so that ordering, filtering and hashing of scores
//! can be specified and verified over plain integers. The host layer that
//! produces the scores converts with `f64::to_bits` / `f64::from_bits`.

pub mod cache_key;
pub mod content_search;
pub mod errors;
pub mod float_bits;
pub mod pairwise;
pub mod security_utils;
pub mod text_processing;
pub mod topk;
pub mod util;
pub mod vector_ops;
