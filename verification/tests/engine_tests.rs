use krew_wasm::engine::{
    call_outcome, engine_step, outcome_exit_code, outcome_result, EngineEvent, EngineState, Outcome,
};
use krew_wasm::errors::{process_exit_code, KrewWapcError};

#[test]
fn explicit_exit_code_is_propagated_verbatim() {
    assert_eq!(outcome_exit_code(Outcome::ExitedWithCode(7)), 7);
    assert_eq!(outcome_exit_code(Outcome::ExitedWithCode(0)), 0);
    assert_eq!(outcome_exit_code(Outcome::ExitedWithCode(255)), 255);
}

#[test]
fn clean_run_exits_zero_and_trap_exits_one() {
    assert_eq!(outcome_exit_code(Outcome::ExitedCleanly), 0);
    assert_eq!(outcome_exit_code(Outcome::Trapped("unreachable executed".to_string())), 1);
}

#[test]
fn call_reports_are_classified() {
    assert!(matches!(call_outcome(true, None, String::new()), Outcome::ExitedCleanly));
    assert!(matches!(
        call_outcome(false, Some(7), String::new()),
        Outcome::ExitedWithCode(7)
    ));
    match call_outcome(false, None, "out of bounds".to_string()) {
        Outcome::Trapped(reason) => assert_eq!(reason, "out of bounds"),
        other => panic!("expected a trap, got {:?}", other),
    }
}

#[test]
fn outcome_maps_to_the_error_taxonomy() {
    assert!(outcome_result(Outcome::ExitedCleanly).is_ok());
    assert!(matches!(
        outcome_result(Outcome::ExitedWithCode(7)),
        Err(KrewWapcError::ExplicitExit(7))
    ));
    assert!(matches!(
        outcome_result(Outcome::Trapped("boom".to_string())),
        Err(KrewWapcError::Trapped(_))
    ));
}

#[test]
fn process_exit_code_contract() {
    assert_eq!(process_exit_code(&Ok(())), 0);
    assert_eq!(process_exit_code(&Err(KrewWapcError::ExplicitExit(7))), 7);
    assert_eq!(process_exit_code(&Err(KrewWapcError::ConfigError)), 1);
    assert_eq!(process_exit_code(&Err(KrewWapcError::NotFound)), 1);
    assert_eq!(process_exit_code(&Err(KrewWapcError::Trapped("x".to_string()))), 1);
}

#[test]
fn engine_runs_forward_through_its_phases() {
    let s = engine_step(EngineState::NotLoaded, EngineEvent::LoadOk).expect("load");
    assert!(matches!(s, EngineState::Loaded));
    let s = engine_step(s, EngineEvent::LinkOk).expect("link");
    assert!(matches!(s, EngineState::Linked));
    let s = engine_step(s, EngineEvent::Started).expect("start");
    assert!(matches!(s, EngineState::Running));
    let s = engine_step(s, EngineEvent::Completed(Outcome::ExitedWithCode(7))).expect("finish");
    match s {
        EngineState::Finished(Outcome::ExitedWithCode(code)) => assert_eq!(code, 7),
        other => panic!("expected a finished run, got {:?}", other),
    }
}

#[test]
fn engine_failures_map_to_their_errors() {
    assert!(matches!(
        engine_step(EngineState::NotLoaded, EngineEvent::LoadMissing),
        Err(KrewWapcError::NotFound)
    ));
    assert!(matches!(
        engine_step(EngineState::NotLoaded, EngineEvent::LoadInvalid),
        Err(KrewWapcError::CompileError)
    ));
    assert!(matches!(
        engine_step(EngineState::Loaded, EngineEvent::LinkFailed),
        Err(KrewWapcError::LinkError)
    ));
}

#[test]
fn engine_refuses_out_of_order_events() {
    assert!(engine_step(EngineState::Loaded, EngineEvent::Started).is_err());
    assert!(engine_step(EngineState::Running, EngineEvent::LoadOk).is_err());
    assert!(
        engine_step(
            EngineState::Finished(Outcome::ExitedCleanly),
            EngineEvent::Completed(Outcome::ExitedCleanly)
        )
        .is_err()
    );
}
