use vstd::prelude::*;

verus! {

/// Failure taxonomy of the execution fabric.
///
/// `InvalidConfiguration` and `UnsupportedStorageBackend` are the caller's
/// bugs and fatal; the remaining variants surface an engine, lookup or codec
/// failure unchanged, with no retry.
#[derive(Debug, Clone, Copy, PartialEq, Eq, Structural)]
pub enum ExecError {
    /// Static misconfiguration, e.g. an unrecognized memory-pool strategy.
    InvalidConfiguration,
    /// A table registration named a storage backend the fabric does not serve.
    UnsupportedStorageBackend,
    /// The live workgroup resource lookup itself failed.
    ResourceResolutionFailure,
    /// The engine rejected the query during plan compilation.
    PlanningFailure,
    /// The engine failed while streaming result batches.
    ExecutionFailure,
    /// The columnar writer failed while persisting a batch.
    WriteFailure,
}

} // verus!
