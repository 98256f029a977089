use vstd::prelude::*;

verus! {

/// Why a call failed. A failed call leaves the state as it found it.
#[derive(Debug, Clone, PartialEq, Eq)]
pub enum ContractError {
    /// A failure of the host (decoding, storage), carried through with its message.
    Std { msg: String },
    /// A deposit that does not exceed the fee, or a withdrawal beyond the recorded balance.
    InsufficientFunds {},
    /// A withdrawal of zero.
    InvalidArgument { msg: String },
    /// An amount that would not fit in 128 bits.
    Overflow {},
}

} // verus!
