use vstd::prelude::*;

verus! {

/// Why a read or a write could not be carried out.
#[derive(Debug, Clone, Copy, PartialEq, Eq, Structural)]
pub enum BitError {
    /// More bits were requested than remain in the buffer.
    OutOfBounds,
    /// The requested width does not fit the target integer type.
    OutOfRange,
    /// A decoded value does not fit the result type.
    Unrepresentable,
}

} // verus!
