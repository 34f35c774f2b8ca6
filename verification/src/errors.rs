//! Error taxonomy of the launcher, and the process exit-code contract.

use vstd::prelude::*;

verus! {

/// Every way an operation of the launcher can end other than plain success.
///
/// `ExplicitExit` is deliberately not a fault: it is the sandboxed program's
/// own exit protocol, and its code is propagated verbatim as the host
/// process's exit status.  Every other variant is fatal to the operation
/// that produced it.
#[derive(Debug)]
pub enum KrewWapcError {
    /// A module name or a path that should exist does not.
    NotFound,
    /// An install target is already occupied and overwriting was not forced.
    NameCollision,
    /// The artifact fetcher failed to materialize the module.
    FetchFailure,
    /// The module bytes are not a valid WebAssembly module.
    CompileError,
    /// The module's imports do not match what the sandbox provides.
    LinkError,
    /// The sandboxed program faulted; the payload is a diagnostic string.
    Trapped(String),
    /// The sandboxed program requested termination with this status.
    ExplicitExit(i32),
    /// A port cannot be inferred from the request's scheme.
    UnknownScheme,
    /// The cluster configuration or the host environment is unusable.
    ConfigError,
    /// A store mutation failed.
    FilesystemError,
}

/// The exit status the host process owes for a finished operation: `0` on
/// clean completion, the propagated code on an explicit exit, `1` for any
/// other failure.
pub open spec fn spec_process_exit_code(r: Result<(), KrewWapcError>) -> i32 {
    match r {
        Ok(()) => 0,
        Err(KrewWapcError::ExplicitExit(code)) => code,
        Err(_) => 1,
    }
}

/// Maps an operation's result to the host process's exit status.
pub fn process_exit_code(r: &Result<(), KrewWapcError>) -> (code: i32)
    ensures
        code == spec_process_exit_code(*r),
{
    match r {
        Ok(()) => 0,
        Err(KrewWapcError::ExplicitExit(code)) => *code,
        Err(_) => 1,
    }
}

} // verus!
