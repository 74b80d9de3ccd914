use svcdeck::engine::{ApplyEngine, StepOutcome};
use svcdeck::services::{ChangeAction, PendingChange, ServiceScope};

fn change(service: &str, action: ChangeAction) -> PendingChange {
    PendingChange { service: service.to_string(), scope: ServiceScope::System, action }
}

/// Drive the engine against a stub directory: `outcomes` holds, per
/// issued command in order, what the stub reports back. Returns the
/// issued commands (verb, service) and the results.
fn run_with_stub(
    changes: Vec<PendingChange>,
    outcomes: Vec<StepOutcome>,
) -> (Vec<(String, String)>, Vec<svcdeck::services::ChangeResult>) {
    let mut engine = ApplyEngine::new(changes);
    let mut issued: Vec<(String, String)> = Vec::new();
    let mut next_outcome = outcomes.into_iter();
    while let Some(cmd) = engine.next_command() {
        issued.push((cmd.verb.to_string(), cmd.service.clone()));
        engine.feed(next_outcome.next().expect("stub ran out of outcomes"));
    }
    assert!(engine.is_done());
    (issued, engine.into_results())
}

#[test]
fn test_enable_step_failure_skips_start() {
    let (issued, results) = run_with_stub(
        vec![change("serviceX", ChangeAction::Enable)],
        vec![StepOutcome::Failed("unit not found".to_string())],
    );
    // Exactly one directory invocation: the start step was never attempted.
    assert_eq!(issued.len(), 1);
    assert_eq!(issued[0], ("enable".to_string(), "serviceX".to_string()));
    assert_eq!(results.len(), 1);
    assert!(!results[0].success);
    assert!(results[0].message.contains("enable failed"));
    assert!(results[0].message.contains("unit not found"));
}

#[test]
fn test_disable_succeeds_but_stop_times_out() {
    let (issued, results) = run_with_stub(
        vec![change("serviceY", ChangeAction::Disable)],
        vec![
            StepOutcome::Succeeded,
            StepOutcome::TimedOut("timed out after 10s".to_string()),
        ],
    );
    assert_eq!(issued.len(), 2);
    assert_eq!(issued[0].0, "disable");
    assert_eq!(issued[1].0, "stop");
    assert_eq!(results.len(), 1);
    assert!(!results[0].success);
    assert_eq!(results[0].message, "disabled but stop timed out: timed out after 10s");
}

#[test]
fn test_batch_failure_does_not_short_circuit() {
    let (issued, results) = run_with_stub(
        vec![
            change("alpha", ChangeAction::Enable),
            change("beta", ChangeAction::Enable),
            change("gamma", ChangeAction::Disable),
        ],
        vec![
            StepOutcome::Succeeded, // alpha enable
            StepOutcome::Succeeded, // alpha start
            StepOutcome::Failed("broken".to_string()), // beta enable
            StepOutcome::Succeeded, // gamma disable
            StepOutcome::Succeeded, // gamma stop
        ],
    );
    assert_eq!(issued.len(), 5);
    assert_eq!(results.len(), 3);
    assert_eq!(results[0].service, "alpha");
    assert!(results[0].success);
    assert_eq!(results[0].message, "enabled and started");
    assert_eq!(results[1].service, "beta");
    assert!(!results[1].success);
    assert_eq!(results[1].message, "enable failed: broken");
    assert_eq!(results[2].service, "gamma");
    assert!(results[2].success);
    assert_eq!(results[2].message, "disabled and stoped");
}

#[test]
fn test_start_step_failure_reports_enable_succeeded() {
    let (_, results) = run_with_stub(
        vec![change("slowpoke", ChangeAction::Enable)],
        vec![
            StepOutcome::Succeeded,
            StepOutcome::Failed("start request repeated too quickly".to_string()),
        ],
    );
    assert_eq!(results.len(), 1);
    assert!(!results[0].success);
    assert_eq!(
        results[0].message,
        "enabled but start failed: start request repeated too quickly"
    );
}

#[test]
fn test_enable_step_timeout_message() {
    let (issued, results) = run_with_stub(
        vec![change("hung", ChangeAction::Disable)],
        vec![StepOutcome::TimedOut("timed out after 10s".to_string())],
    );
    assert_eq!(issued.len(), 1);
    assert_eq!(results[0].message, "disable timed out: timed out after 10s");
    assert!(!results[0].success);
}

#[test]
fn test_empty_batch_is_done_at_once() {
    let engine = ApplyEngine::new(Vec::new());
    assert!(engine.is_done());
    assert!(engine.next_command().is_none());
    assert!(engine.into_results().is_empty());
}
