//! Failure taxonomy of a snapshot invocation.
//!
//! All failures are local, synchronous and non-recoverable: a snapshot
//! either fully succeeds, producing one artifact, or fails with one of
//! these errors.

use vstd::prelude::*;

use crate::abnormal::AbnormalSample;

verus! {

/// A fatal failure of a single snapshot invocation.
#[derive(Clone, Copy, Debug, PartialEq, Eq, Structural)]
pub enum SnapshotError {
    /// Input data does not match the declared channel or sample counts.
    ShapeMismatch { expected: usize, actual: usize },
    /// The unit produced a NaN or infinite sample while
    /// `allow_abnormal_samples` is off.  Reported with the output channel,
    /// the absolute sample index, and the classification.
    AbnormalSampleFatal { channel: usize, index: usize, kind: AbnormalSample },
    /// A configuration invariant is violated: the batch chunk size is zero
    /// or exceeds the largest supported chunk.
    BuildMismatch { chunk_size: usize },
}

} // verus!
