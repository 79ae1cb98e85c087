//! Error taxonomy of the layer. Every failure a command can report falls in
//! one of these classes; the process boundary renders them as text.

use vstd::prelude::*;

verus! {

/// Why an operation failed.
#[derive(Debug, Clone, Copy, PartialEq, Eq, Structural)]
pub enum MaaError {
    /// The engine library has not been loaded yet.
    NotInitialized,
    /// An unknown instance id or handle reference was named.
    NotFound,
    /// A malformed configuration field, or a variant this platform refuses.
    InvalidConfig,
    /// The engine returned a null handle, an invalid operation id, or false.
    NativeFailure,
    /// A filesystem or network operation failed.
    IOFailure,
    /// A download observed a cancellation signal.
    Cancelled,
}

} // verus!
