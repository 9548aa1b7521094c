use std::io::{Cursor, Write};
use zip::write::SimpleFileOptions;
use ziptauri::engine::{EnginePhase, Step, WaitOutcome};
use ziptauri::error::AppError;
use ziptauri::extract::ExtractionRun;

fn comps(path: &str) -> Vec<String> {
    path.split('/').map(|s| s.to_string()).collect()
}

fn plain_archive(names: &[&str]) -> Vec<u8> {
    let mut w = zip::ZipWriter::new(Cursor::new(Vec::new()));
    for name in names {
        w.start_file(*name, SimpleFileOptions::default()).unwrap();
        w.write_all(b"payload").unwrap();
    }
    w.finish().unwrap().into_inner()
}

fn encrypted_archive(names: &[&str], password: &str) -> Vec<u8> {
    let mut w = zip::ZipWriter::new(Cursor::new(Vec::new()));
    for name in names {
        let options = SimpleFileOptions::default()
            .with_aes_encryption(zip::AesMode::Aes256, password);
        w.start_file(*name, options).unwrap();
        w.write_all(b"secret payload").unwrap();
    }
    w.finish().unwrap().into_inner()
}

/// Drive a run that needs no credential to its end, collecting notified
/// paths and skipped names.
fn walk(run: &mut ExtractionRun) -> (Vec<String>, Vec<String>) {
    let mut notified = Vec::new();
    let mut skipped = Vec::new();
    loop {
        assert_eq!(run.phase(), EnginePhase::Scanning);
        match run.advance() {
            Step::Notify { path, .. } => notified.push(path),
            Step::Skipped { name } => skipped.push(name),
            Step::Ignored => {}
            Step::Done => return (notified, skipped),
            other => panic!("unexpected step: {:?}", kind(&other)),
        }
    }
}

fn kind(step: &Step) -> &'static str {
    match step {
        Step::Notify { .. } => "Notify",
        Step::Skipped { .. } => "Skipped",
        Step::Ignored => "Ignored",
        Step::AskCredential => "AskCredential",
        Step::Decrypt { .. } => "Decrypt",
        Step::Done => "Done",
        Step::Cancelled => "Cancelled",
        Step::Fail { .. } => "Fail",
    }
}

#[test]
fn run_lists_plain_archive() {
    let bytes = plain_archive(&["dir/file.txt", "top.txt"]);
    let mut run = ExtractionRun::open(bytes).unwrap();
    assert_eq!(run.entries_total(), 2);
    let (notified, skipped) = walk(&mut run);
    assert_eq!(notified, vec!["dir/file.txt".to_string(), "top.txt".to_string()]);
    assert!(skipped.is_empty());
    let tree = run.into_tree();
    assert!(tree.contains(&comps("dir/file.txt")));
    assert!(tree.contains(&comps("dir")));
    assert!(tree.contains(&comps("top.txt")));
}

#[test]
fn run_skips_traversal_entry() {
    let bytes = plain_archive(&["fine.txt", "a/../../evil.txt"]);
    let mut run = ExtractionRun::open(bytes).unwrap();
    let (notified, skipped) = walk(&mut run);
    assert_eq!(notified, vec!["fine.txt".to_string()]);
    assert_eq!(skipped, vec!["a/../../evil.txt".to_string()]);
    let tree = run.into_tree();
    assert!(!tree.contains(&comps("evil.txt")));
    assert!(tree.contains(&comps("fine.txt")));
}

#[test]
fn run_decrypts_with_submitted_password() {
    let bytes = encrypted_archive(&["locked.txt"], "letmein");
    let mut run = ExtractionRun::open(bytes).unwrap();
    let step = run.advance();
    assert!(matches!(step, Step::AskCredential), "got {}", kind(&step));
    assert!(matches!(run.phase(), EnginePhase::AwaitingCredential { .. }));
    let step = run.submit(WaitOutcome::Credential { password: b"letmein".to_vec() });
    match step {
        Step::Notify { path, .. } => assert_eq!(path, "locked.txt"),
        other => panic!("expected the decrypted entry, got {}", kind(&other)),
    }
    let step = run.advance();
    assert!(matches!(step, Step::Done));
    assert!(run.into_tree().contains(&comps("locked.txt")));
}

#[test]
fn run_wrong_password_aborts() {
    let bytes = encrypted_archive(&["locked.txt"], "correct");
    let mut run = ExtractionRun::open(bytes).unwrap();
    assert!(matches!(run.advance(), Step::AskCredential));
    let step = run.submit(WaitOutcome::Credential { password: b"wrong".to_vec() });
    match step {
        Step::Fail { error } => assert!(matches!(error, AppError::FailedUnzip(_))),
        other => panic!("expected a failure, got {}", kind(&other)),
    }
    assert_eq!(run.phase(), EnginePhase::Failed);
}

#[test]
fn run_cancel_at_suspension_point() {
    let bytes = encrypted_archive(&["locked.txt"], "pw");
    let mut run = ExtractionRun::open(bytes).unwrap();
    assert!(matches!(run.advance(), Step::AskCredential));
    let step = run.submit(WaitOutcome::CancelSignal);
    assert!(matches!(step, Step::Cancelled));
    assert_eq!(run.phase(), EnginePhase::Cancelled);
}

#[test]
fn run_open_rejects_garbage() {
    match ExtractionRun::open(vec![1, 2, 3, 4]) {
        Err(AppError::FailedUnzip(_)) => {}
        Err(other) => panic!("wrong error variant: {:?}", other),
        Ok(_) => panic!("garbage bytes must not parse"),
    }
}
