//! Execution-engine decisions: the one-shot state machine of a run and the
//! translation of a sandboxed program's termination into a process outcome.
//!
//! The WebAssembly engine itself is an external collaborator.  Callers
//! report what it did — the module loaded or not, linking succeeded or not,
//! the entry point returned, exited explicitly, or trapped — and this module
//! decides what each report means for the run and for the host process.

use vstd::prelude::*;
use crate::errors::KrewWapcError;

verus! {

/// How one invocation of a sandboxed program ended.
#[derive(Debug)]
pub enum Outcome {
    /// The entry point returned normally.
    ExitedCleanly,
    /// The program requested termination with this status; this is its own
    /// exit protocol, not an error.
    ExitedWithCode(i32),
    /// Any other abnormal termination, with a human-readable diagnostic.
    Trapped(String),
}

/// The phase a run is in.  Transitions are one-shot and forward-only;
/// there is no pause or resume.
#[derive(Debug)]
pub enum EngineState {
    NotLoaded,
    Loaded,
    Linked,
    Running,
    Finished(Outcome),
}

/// A report from the external engine about the step it just performed.
#[derive(Debug)]
pub enum EngineEvent {
    /// The module bytes were found and compiled.
    LoadOk,
    /// The module path does not exist.
    LoadMissing,
    /// The bytes are not a valid module.
    LoadInvalid,
    /// All declared imports were wired to the sandbox's capabilities.
    LinkOk,
    /// A required import is missing or mismatched.
    LinkFailed,
    /// The entry point was invoked.
    Started,
    /// The entry point finished with this outcome.
    Completed(Outcome),
}

/// Position of a state along the one-way run: later phases rank higher.
/// A finished run ranks highest whatever its outcome.
pub open spec fn state_rank(s: EngineState) -> int {
    match s {
        EngineState::NotLoaded => 0,
        EngineState::Loaded => 1,
        EngineState::Linked => 2,
        EngineState::Running => 3,
        EngineState::Finished(_) => 4,
    }
}

/// The step the machine owes for an event in a state: the next state on the
/// one legal forward transition, the error a failed step reports, and
/// `Err(LinkError)` (as a stand-in fault) for an event that the state cannot
/// accept at all — callers drive the machine in order, so that arm is never
/// reached by the intended protocol.
pub open spec fn spec_engine_step(s: EngineState, e: EngineEvent) -> Result<
    EngineState,
    KrewWapcError,
> {
    match (s, e) {
        (EngineState::NotLoaded, EngineEvent::LoadOk) => Ok(EngineState::Loaded),
        (EngineState::NotLoaded, EngineEvent::LoadMissing) => Err(KrewWapcError::NotFound),
        (EngineState::NotLoaded, EngineEvent::LoadInvalid) => Err(KrewWapcError::CompileError),
        (EngineState::Loaded, EngineEvent::LinkOk) => Ok(EngineState::Linked),
        (EngineState::Loaded, EngineEvent::LinkFailed) => Err(KrewWapcError::LinkError),
        (EngineState::Linked, EngineEvent::Started) => Ok(EngineState::Running),
        (EngineState::Running, EngineEvent::Completed(o)) => Ok(EngineState::Finished(o)),
        (_, _) => Err(KrewWapcError::LinkError),
    }
}

/// Advances the run's state machine by one reported event.
pub fn engine_step(s: EngineState, e: EngineEvent) -> (r: Result<EngineState, KrewWapcError>)
    ensures
        r == spec_engine_step(s, e),
{
    match (s, e) {
        (EngineState::NotLoaded, EngineEvent::LoadOk) => Ok(EngineState::Loaded),
        (EngineState::NotLoaded, EngineEvent::LoadMissing) => Err(KrewWapcError::NotFound),
        (EngineState::NotLoaded, EngineEvent::LoadInvalid) => Err(KrewWapcError::CompileError),
        (EngineState::Loaded, EngineEvent::LinkOk) => Ok(EngineState::Linked),
        (EngineState::Loaded, EngineEvent::LinkFailed) => Err(KrewWapcError::LinkError),
        (EngineState::Linked, EngineEvent::Started) => Ok(EngineState::Running),
        (EngineState::Running, EngineEvent::Completed(o)) => Ok(EngineState::Finished(o)),
        (_, _) => Err(KrewWapcError::LinkError),
    }
}

/// Every transition the machine accepts moves strictly forward: the run can
/// never revisit or repeat a phase.
pub proof fn lemma_engine_steps_forward(s: EngineState, e: EngineEvent)
    ensures
        spec_engine_step(s, e) matches Ok(s2) ==> state_rank(s2) > state_rank(s),
{
}

/// The outcome of the entry-point call, as the engine reports it:
/// a clean return, an explicit exit status carried by the fault, or a trap
/// with its diagnostic.
pub open spec fn spec_call_outcome(
    returned: bool,
    exit_status: Option<i32>,
    reason: String,
) -> Outcome {
    if returned {
        Outcome::ExitedCleanly
    } else {
        match exit_status {
            Some(code) => Outcome::ExitedWithCode(code),
            None => Outcome::Trapped(reason),
        }
    }
}

/// Classifies what the engine reported of the entry-point call.
/// `returned` says the call came back normally; otherwise `exit_status`
/// carries the explicit exit code if the fault was the program's own exit
/// request, and `reason` is the diagnostic for anything else.
pub fn call_outcome(returned: bool, exit_status: Option<i32>, reason: String) -> (o: Outcome)
    ensures
        o == spec_call_outcome(returned, exit_status, reason),
{
    if returned {
        Outcome::ExitedCleanly
    } else {
        match exit_status {
            Some(code) => Outcome::ExitedWithCode(code),
            None => Outcome::Trapped(reason),
        }
    }
}

/// The result a run owes for an outcome: clean completion is `Ok`, an
/// explicit exit becomes `ExplicitExit` with the same code, a trap becomes
/// `Trapped` with the same diagnostic.
pub open spec fn spec_outcome_result(o: Outcome) -> Result<(), KrewWapcError> {
    match o {
        Outcome::ExitedCleanly => Ok(()),
        Outcome::ExitedWithCode(code) => Err(KrewWapcError::ExplicitExit(code)),
        Outcome::Trapped(reason) => Err(KrewWapcError::Trapped(reason)),
    }
}

/// Maps a finished run's outcome to the operation's result.
pub fn outcome_result(o: Outcome) -> (r: Result<(), KrewWapcError>)
    ensures
        r == spec_outcome_result(o),
{
    match o {
        Outcome::ExitedCleanly => Ok(()),
        Outcome::ExitedWithCode(code) => Err(KrewWapcError::ExplicitExit(code)),
        Outcome::Trapped(reason) => Err(KrewWapcError::Trapped(reason)),
    }
}

/// The exit status the host process owes for a run's outcome.
pub open spec fn spec_outcome_exit_code(o: Outcome) -> i32 {
    crate::errors::spec_process_exit_code(spec_outcome_result(o))
}

/// Maps a run's outcome straight to the host process's exit status: `0`
/// for a clean run, the program's own code for an explicit exit, `1` for
/// a trap.
pub fn outcome_exit_code(o: Outcome) -> (code: i32)
    ensures
        code == spec_outcome_exit_code(o),
{
    let r = outcome_result(o);
    crate::errors::process_exit_code(&r)
}

/// An explicit exit is propagated verbatim, a clean run exits `0`, and a
/// trap exits `1`: the process exit-code contract, stated once over every
/// outcome.
pub proof fn lemma_exit_code_contract(o: Outcome)
    ensures
        o matches Outcome::ExitedWithCode(code) ==> spec_outcome_exit_code(o) == code,
        o is ExitedCleanly ==> spec_outcome_exit_code(o) == 0,
        o is Trapped ==> spec_outcome_exit_code(o) == 1,
{
}

} // verus!
