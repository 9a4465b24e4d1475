//! Bounded aggregation of streamed HTTP bodies.
//!
//! A pump moves the frames of a source into a sink and stops at the first
//! chunk that would take the sink over a fixed number of bytes. Two sinks
//! come with it: a plain vector, and one that decodes zstd streams on the
//! fly when the input opens with the zstd signature.
//!
//! Every function is verified with Verus against its contract. What is
//! taken on trust from other crates stands in [`body::outside`].

pub mod body;
