use vstd::prelude::*;

verus! {

/// Kinds of failure reported by the stack.
#[derive(Clone, Copy, Debug, PartialEq, Eq)]
pub enum Fail {
    /// An underlying device or system call failed.
    IoError,
    /// A segment reached the wrong destination.
    Misdelivered,
    /// Functionality that is not implemented.
    Unsupported { details: &'static str },
    /// The operation had no effect.
    Ignored,
    /// An asynchronous operation exceeded its deadline.
    Timeout,
    /// A value is outside its permitted bounds.
    OutOfRange { details: &'static str },
    /// Wire data failed structural validation.
    Malformed { details: &'static str },
    /// A handle was used against the wrong kind of socket.
    TypeMismatch,
    /// A bounded resource is full.
    ResourceExhausted { details: &'static str },
    /// A protocol-level invariant was violated.
    BadMessage,
    /// A precondition of the interface was violated.
    InvalidArgument,
}

/// A failed integer conversion is a value out of range.
impl From<core::num::TryFromIntError> for Fail {
    fn from(_e: core::num::TryFromIntError) -> (r: Self) {
        Fail::OutOfRange { details: "std::num::TryFromIntError" }
    }
}

impl vstd::std_specs::convert::FromSpecImpl<core::num::TryFromIntError> for Fail {
    open spec fn obeys_from_spec() -> bool {
        true
    }

    open spec fn from_spec(v: core::num::TryFromIntError) -> Self {
        Fail::OutOfRange { details: "std::num::TryFromIntError" }
    }
}

} // verus!
