//! How an operation fails.

use vstd::prelude::*;

verus! {

/// Why an operation was refused.
#[derive(Clone, Copy, Debug, PartialEq, Eq, Structural)]
pub enum OpError {
    /// The operation is suspended; it may be tried again later.
    Suspended,
    /// The message is not in the index, or not under the tag presented.
    MessageNotFound,
}

pub type OpResult<T> = Result<T, OpError>;

} // verus!
