//! Lazy pairwise differences (the discrete first derivative) of a sequence.
//!
//! The adapter [`DiscreteDerivativeIter`] wraps any pull-based sequence
//! producer whose elements support subtraction and, on each pull, yields the
//! difference `next - prev` of the two most recently produced source
//! elements.  It buffers exactly one element of state and never materializes
//! the source.

pub mod delta;
pub mod derivative;
pub mod producer;

pub use delta::Delta;
pub use derivative::all_diffs_defined;
pub use derivative::diffs;
pub use derivative::lemma_diffs_step;
pub use derivative::DiscreteDerivativeIter;
pub use derivative::DiscreteDerivativeIterExt;
pub use producer::Producer;
pub use producer::SliceProducer;
pub use producer::VecProducer;
