use vstd::prelude::*;

verus! {

/// Failures of the boundary operations.
#[derive(PartialEq, Eq, Structural, Debug, Clone, Copy)]
pub enum FfiError {
    /// No runtime has been installed yet.
    NotLoaded,
    /// The token sequence is empty.
    InvalidInput,
    /// The output buffer does not match the distribution's byte size.
    SizeMismatch,
    /// The weight file could not be read.
    IoError,
    /// The weight container is malformed.
    LoadError,
    /// No compatible compute device was found.
    DeviceError,
    /// Any other failure of the execution engine.
    InternalFault,
}

} // verus!
