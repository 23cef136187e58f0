//! biski64: a fast, 64-bit, non-cryptographic pseudo-random number generator
//! with a guaranteed minimum period of 2^64.
//!
//! The crate is organised in four modules:
//! - [`model`] holds the mathematical description of the generator: its state
//!   as a triple of 64-bit words, the step function, the SplitMix64 seed
//!   expander, the stream-partitioning offset, and the little-endian byte
//!   stream. Every public contract is stated over these functions.
//! - [`splitmix`] is the executable seed expander.
//! - [`rng`] is the executable generator with its constructors and sampling
//!   operations.
//! - [`laws`] proves the global properties: determinism of construction, the
//!   non-zero initial state, and the full 2^64 period of the fast-loop word.

pub mod laws;
pub mod model;
pub mod rng;
pub mod splitmix;

pub use rng::Biski64Rng;
pub use rng::StreamError;
