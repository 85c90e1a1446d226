//! Failure taxonomy of the lowering pass, the VM runner and the operators.
//!
//! Every failure is reported as a structured value to the caller; none of
//! the library's verified functions panics.

use vstd::prelude::*;

verus! {

/// What went wrong while lowering a graph or running a lowered operator.
#[derive(Debug)]
pub enum CairoCompilerError {
    /// A compiled program file could not be found or read.
    SierraLoadError(String),
    /// The VM failed while running a compiled program.
    SierraRunError(String),
    /// An operation of a kind the runtime stage cannot handle.
    UnsupportedOperation(String),
    /// A graph node held no tensor where one was expected.
    MissingTensor(usize),
    /// A runtime fault inside the VM.
    RuntimeError(String),
    /// The public-input summary could not be derived.
    PublicInputError(String),
    /// An input/output failure while loading or storing artifacts.
    IoError(String),
    /// The VM runner rejected its program or configuration.
    VmRunnerError(String),
    /// The execution trace could not be encoded.
    TraceEncodingError(String),
    /// The VM's outputs could not be read back.
    DeserializationError(String),
    /// An operator was invoked with the wrong number of input tensors.
    WrongInputCount { expected: usize, found: usize },
}

} // verus!
