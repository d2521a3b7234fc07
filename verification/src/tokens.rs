//! The closed vocabulary of deciphering operations.

use vstd::prelude::*;

verus! {

/// One of the four canonical array operations a deployed script may apply to
/// the character buffer of a signature.  The set is closed: the extractor
/// never produces a fifth kind, so the transformer is total over tokens.
#[derive(Clone, Copy, Debug, PartialEq, Eq, Structural)]
pub enum OperationKind {
    /// Reverse the buffer.
    Reverse,
    /// Replace the buffer with its tail starting at the operand index.
    SliceFrom,
    /// Remove the first `operand` elements from the buffer.
    RemovePrefix,
    /// Exchange the elements at index 0 and at the operand index.
    SwapFirst,
}

/// A single step of a deciphering sequence: an operation together with its
/// numeric operand as written in the script.  `Reverse` ignores the operand.
#[derive(Clone, Copy, Debug, PartialEq, Eq, Structural)]
pub struct ActionToken {
    pub kind: OperationKind,
    pub operand: usize,
}

} // verus!
