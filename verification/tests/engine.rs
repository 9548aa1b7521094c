use ziptauri::credcache::VerificationToken;
use ziptauri::engine::{Engine, EnginePhase, EntryOutcome, Step, WaitOutcome};
use ziptauri::error::AppError;

fn comps(v: &[&str]) -> Vec<String> {
    v.iter().map(|s| s.to_string()).collect()
}

#[test]
fn engine_records_valid_entry_with_payload() {
    let mut engine = Engine::start(1);
    let step = engine.on_read(EntryOutcome::Readable {
        name: "a/b/c.txt".to_string(),
        size: 1234,
    });
    match step {
        Step::Notify { components, path, depth, size } => {
            assert_eq!(components, comps(&["a", "b", "c.txt"]));
            assert_eq!(path, "a/b/c.txt");
            assert_eq!(depth, 3);
            assert_eq!(size, 1234);
        }
        other => panic!("expected a notification, got {:?}", phase_of(&other)),
    }
    let step = engine.finish();
    assert!(matches!(step, Step::Done));
    let tree = engine.into_tree();
    assert!(tree.contains(&comps(&["a", "b", "c.txt"])));
    assert!(tree.contains(&comps(&["a", "b"])));
    assert!(!tree.contains(&comps(&["b"])));
}

fn phase_of(step: &Step) -> &'static str {
    match step {
        Step::Notify { .. } => "Notify",
        Step::Skipped { .. } => "Skipped",
        Step::Ignored => "Ignored",
        Step::AskCredential => "AskCredential",
        Step::Decrypt { .. } => "Decrypt",
        Step::Done => "Done",
        Step::Cancelled => "Cancelled",
        Step::Fail { .. } => "Fail",
    }
}

#[test]
fn engine_skips_escaping_entry() {
    // A name resolving above the extraction root never reaches the tree or a
    // notification, and the run still completes.
    let mut engine = Engine::start(2);
    let step = engine.on_read(EntryOutcome::Readable {
        name: "../evil.txt".to_string(),
        size: 9,
    });
    match step {
        Step::Skipped { name } => assert_eq!(name, "../evil.txt"),
        other => panic!("expected a skip, got {}", phase_of(&other)),
    }
    let step = engine.on_read(EntryOutcome::Readable { name: "ok.txt".to_string(), size: 1 });
    assert!(matches!(step, Step::Notify { .. }));
    let step = engine.finish();
    assert!(matches!(step, Step::Done));
    let tree = engine.into_tree();
    assert!(!tree.contains(&comps(&["evil.txt"])));
    assert!(!tree.contains(&comps(&["..", "evil.txt"])));
    assert!(tree.contains(&comps(&["ok.txt"])));
}

#[test]
fn engine_ignores_root_entry() {
    let mut engine = Engine::start(1);
    let step = engine.on_read(EntryOutcome::Readable { name: "".to_string(), size: 0 });
    assert!(matches!(step, Step::Ignored));
    let step = engine.finish();
    assert!(matches!(step, Step::Done));
    assert_eq!(engine.into_tree().root.len(), 0);
}

#[test]
fn engine_token_scoped_password_reuse() {
    // Two encrypted entries sharing a token: after the first successful
    // decode the second is decrypted without a second credential request.
    let token = VerificationToken { b0: 7, b1: 9 };
    let mut engine = Engine::start(2);

    let step = engine.on_read(EntryOutcome::PasswordRequired { token: Some(token) });
    assert!(matches!(step, Step::AskCredential));
    let step = engine.on_wait(WaitOutcome::Credential { password: b"hunter2".to_vec() });
    match step {
        Step::Decrypt { password } => assert_eq!(password, b"hunter2".to_vec()),
        other => panic!("expected a decode attempt, got {}", phase_of(&other)),
    }
    let step = engine.on_read(EntryOutcome::Readable { name: "one.txt".to_string(), size: 1 });
    assert!(matches!(step, Step::Notify { .. }));

    // Second entry, same token: served from the cache.
    let step = engine.on_read(EntryOutcome::PasswordRequired { token: Some(token) });
    match step {
        Step::Decrypt { password } => assert_eq!(password, b"hunter2".to_vec()),
        other => panic!("expected a cache hit, got {}", phase_of(&other)),
    }
    let step = engine.on_read(EntryOutcome::Readable { name: "two.txt".to_string(), size: 2 });
    assert!(matches!(step, Step::Notify { .. }));
    assert!(matches!(engine.finish(), Step::Done));
}

#[test]
fn engine_missing_token_aborts() {
    let mut engine = Engine::start(1);
    let step = engine.on_read(EntryOutcome::PasswordRequired { token: None });
    match step {
        Step::Fail { error } => assert!(matches!(error, AppError::FailedUnzip(_))),
        other => panic!("expected a failure, got {}", phase_of(&other)),
    }
    assert_eq!(engine.current_phase(), EnginePhase::Failed);
}

#[test]
fn engine_codec_failure_aborts_with_message() {
    let mut engine = Engine::start(1);
    let step = engine.on_read(EntryOutcome::Unreadable { message: "bad magic".to_string() });
    match step {
        Step::Fail { error } => match error {
            AppError::FailedUnzip(m) => assert_eq!(m, "bad magic"),
            other => panic!("wrong error variant: {:?}", other),
        },
        other => panic!("expected a failure, got {}", phase_of(&other)),
    }
}

#[test]
fn engine_decrypt_failure_aborts() {
    let token = VerificationToken { b0: 1, b1: 1 };
    let mut engine = Engine::start(1);
    assert!(matches!(
        engine.on_read(EntryOutcome::PasswordRequired { token: Some(token) }),
        Step::AskCredential
    ));
    assert!(matches!(
        engine.on_wait(WaitOutcome::Credential { password: b"wrong".to_vec() }),
        Step::Decrypt { .. }
    ));
    let step = engine.on_read(EntryOutcome::Unreadable { message: "invalid password".to_string() });
    match step {
        Step::Fail { error } => assert!(matches!(error, AppError::FailedUnzip(_))),
        other => panic!("expected a failure, got {}", phase_of(&other)),
    }
    assert_eq!(engine.current_phase(), EnginePhase::Failed);
}

#[test]
fn engine_closed_channel_fails_password() {
    let token = VerificationToken { b0: 2, b1: 2 };
    let mut engine = Engine::start(1);
    assert!(matches!(
        engine.on_read(EntryOutcome::PasswordRequired { token: Some(token) }),
        Step::AskCredential
    ));
    let step = engine.on_wait(WaitOutcome::ChannelClosed);
    match step {
        Step::Fail { error } => assert!(matches!(error, AppError::PasswordFail)),
        other => panic!("expected a failure, got {}", phase_of(&other)),
    }
}

#[test]
fn engine_payload_truncates_oversized_size() {
    // The observer payload carries a 32-bit size; larger entries wrap as the
    // cast does.
    let mut engine = Engine::start(1);
    let step = engine.on_read(EntryOutcome::Readable {
        name: "big.bin".to_string(),
        size: 0x1_0000_0005,
    });
    match step {
        Step::Notify { depth, size, .. } => {
            assert_eq!(depth, 1);
            assert_eq!(size, 5);
        }
        other => panic!("expected a notification, got {}", phase_of(&other)),
    }
}
