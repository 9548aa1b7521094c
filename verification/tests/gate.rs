use ziptauri::credcache::VerificationToken;
use ziptauri::engine::{Engine, EnginePhase, EntryOutcome, Step, WaitOutcome};
use ziptauri::gate::CancellationGate;

#[test]
fn cancellation_precedence() {
    // A cancel armed before the run starts survives the stale drain and
    // resolves the run's very first credential wait to cancellation.
    let mut gate = CancellationGate::new();
    gate.arm();

    let mut engine = Engine::start(1);
    gate.drain_stale();
    let token = VerificationToken { b0: 1, b1: 2 };
    let step = engine.on_read(EntryOutcome::PasswordRequired { token: Some(token) });
    assert!(matches!(step, Step::AskCredential));
    // At the suspension point the pending signal wins the race.
    assert!(gate.take());
    let step = engine.on_wait(WaitOutcome::CancelSignal);
    assert!(matches!(step, Step::Cancelled));
    assert_eq!(engine.current_phase(), EnginePhase::Cancelled);
}

#[test]
fn stale_cancel_isolation() {
    // A cancel armed during a run that then finishes normally must not
    // auto-cancel the next run.
    let mut gate = CancellationGate::new();
    let token = VerificationToken { b0: 3, b1: 4 };

    // First run: drain, suspend, cancel arrives while the credential wins.
    gate.drain_stale();
    let mut first = Engine::start(1);
    let step = first.on_read(EntryOutcome::PasswordRequired { token: Some(token) });
    assert!(matches!(step, Step::AskCredential));
    assert!(!gate.take());
    gate.arm();
    let step = first.on_wait(WaitOutcome::Credential { password: b"pw".to_vec() });
    assert!(matches!(step, Step::Decrypt { .. }));
    let step = first.on_read(EntryOutcome::Readable { name: "f.txt".to_string(), size: 1 });
    assert!(matches!(step, Step::Notify { .. }));
    let step = first.finish();
    assert!(matches!(step, Step::Done));
    gate.finish_run();

    // Second run: the leftover signal is drained, the first wait is not
    // auto-cancelled.
    gate.drain_stale();
    let mut second = Engine::start(1);
    let step = second.on_read(EntryOutcome::PasswordRequired { token: Some(token) });
    assert!(matches!(step, Step::AskCredential));
    assert!(!gate.take());
}

#[test]
fn gate_arm_is_idempotent() {
    let mut gate = CancellationGate::new();
    gate.arm();
    gate.arm();
    assert!(gate.take());
    assert!(!gate.take());
}
