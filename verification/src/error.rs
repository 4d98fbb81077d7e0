use vstd::prelude::*;

verus! {

/// A failure while validating the script's configuration argument.
///
/// Every failure is terminal for the current verification invocation:
/// none is retried or downgraded, and the enclosing transaction is
/// rejected.
#[derive(Debug, Clone, Copy, PartialEq, Eq, Structural)]
pub enum Error {
    /// The configuration argument is empty.
    LengthNotEnough,
    /// A fixed single-byte field (decimal, name length, symbol length)
    /// cannot be read because the buffer ends before it.
    DecodeInfoError,
    /// A variable-length field's declared length would read past the end
    /// of the buffer.
    IndexOutOfBound,
}

} // verus!
