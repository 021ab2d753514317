//! Verified core of a sentence-embedding pipeline: length-based batching,
//! dynamic padding with attention masks, pooling configuration, and the
//! order-restoring permutations of `encode`.

pub mod bert;
pub mod permutation;
pub mod pooling;
pub mod sentence_transformer;
