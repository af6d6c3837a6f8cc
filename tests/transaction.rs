use twofa::json::JsonValue;
use twofa::logger::{LogLevel, Logger};
use twofa::settings::create_twofa_settings_with_input;
use twofa::storage::{check_write, get_storage_path, FileReadError, FileSaveError, Storage, WritePolicy};
use twofa::text::{is_confirmation, trim_line_end};
use twofa::transaction::{
    apply_settings, code_for_application, set_document, unrecognized_settings, SetStep, document_text, exit_code, init_policy,
    needs_confirmation, Event, Failure, Operation, Outcome, Phase, Transaction,
};

fn empty_doc() -> JsonValue {
    JsonValue::Object(vec![])
}

fn github_doc() -> JsonValue {
    let mut doc = empty_doc();
    let s = create_twofa_settings_with_input(Some("JBSWY3DPEHPK3PXP".to_string()), None, None, None)
        .unwrap();
    apply_settings(&mut doc, "github".to_string(), &s);
    doc
}

fn drive(op: Operation, events: &[Event]) -> Transaction {
    let mut t = Transaction::new(op);
    for e in events {
        t.advance(*e);
    }
    t
}

#[test]
fn set_then_get_gives_code() {
    let doc = github_doc();
    let code = code_for_application(doc, "github").unwrap().unwrap();
    assert_eq!(code.len(), 6);
    assert!(code.chars().all(|c| c.is_ascii_digit()));
}

#[test]
fn get_unknown_application_is_not_found() {
    let doc = github_doc();
    assert!(matches!(code_for_application(doc, "gitlab"), Ok(None)));
    assert!(matches!(code_for_application(JsonValue::Null, "github"), Ok(None)));
}

#[test]
fn get_invalid_stored_settings() {
    let doc = JsonValue::Object(vec![(
        "app".to_string(),
        JsonValue::Object(vec![("secret".to_string(), JsonValue::Bool(true))]),
    )]);
    assert!(matches!(
        code_for_application(doc, "app"),
        Err(Failure::Settings(twofa::settings::SettingsError::MismatchedType))
    ));
}

/// A document holding `secret` for "github", with a window so long that the code does not
/// change while the test runs.
fn doc_with_secret(secret: &str) -> JsonValue {
    let mut doc = empty_doc();
    let s = create_twofa_settings_with_input(Some(secret.to_string()), Some(4294967295), None, None)
        .unwrap();
    apply_settings(&mut doc, "github".to_string(), &s);
    doc
}

#[test]
fn overwrite_needs_confirmation_and_decline_keeps_store() {
    let doc = doc_with_secret("JBSWY3DPEHPK3PXP");
    let before = code_for_application(doc_with_secret("JBSWY3DPEHPK3PXP"), "github").unwrap().unwrap();
    let other = code_for_application(doc_with_secret("GEZDGNBVGY3TQOJQ"), "github").unwrap().unwrap();
    assert_ne!(before, other);
    assert!(needs_confirmation(&doc, "github"));
    assert!(!needs_confirmation(&doc, "other"));
    let confirmed = is_confirmation(&trim_line_end("n\n"));
    assert!(!confirmed);
    let t = drive(Operation::SetSecret, &[Event::Completed, Event::Declined, Event::Completed]);
    assert_eq!(t.phase, Phase::Done);
    assert_eq!(t.outcome, Outcome::Declined);
    assert!(!t.plaintext);
    assert_eq!(exit_code(t.outcome), 0);
    let after = code_for_application(doc, "github").unwrap().unwrap();
    assert_eq!(before, after);
}

#[test]
fn null_member_does_not_need_confirmation() {
    let doc = JsonValue::Object(vec![("github".to_string(), JsonValue::Null)]);
    assert!(!needs_confirmation(&doc, "github"));
}

#[test]
fn transaction_success_path() {
    let mut t = Transaction::new(Operation::GetCode);
    assert_eq!(t.phase, Phase::Decrypt);
    t.advance(Event::Completed);
    assert_eq!(t.phase, Phase::Body);
    assert!(t.plaintext);
    t.advance(Event::Completed);
    assert_eq!(t.phase, Phase::Encrypt);
    t.advance(Event::Completed);
    assert_eq!(t.phase, Phase::Cleanup);
    t.advance(Event::Completed);
    assert!(t.is_done());
    assert!(!t.plaintext);
    assert_eq!(t.outcome, Outcome::Success);
    assert_eq!(exit_code(t.outcome), 0);
}

#[test]
fn transaction_every_outcome_cleans_up() {
    let results = [
        Event::Completed,
        Event::Failed(Failure::Write),
        Event::Declined,
        Event::NotFound,
    ];
    for op in [Operation::SetSecret, Operation::GetCode, Operation::CreateStorage] {
        for a in results {
            for b in results {
                for c in results {
                    for d in results {
                        let t = drive(op, &[a, b, c, d]);
                        assert!(t.is_done());
                        assert!(!t.plaintext);
                    }
                }
            }
        }
    }
}

#[test]
fn transaction_decrypt_failure_ends_at_once() {
    let t = drive(Operation::SetSecret, &[Event::Failed(Failure::Decryption)]);
    assert!(t.is_done());
    assert_eq!(t.outcome, Outcome::Failed(Failure::Decryption));
    assert_eq!(exit_code(t.outcome), 1);
}

#[test]
fn transaction_encrypt_failure_still_cleans_up() {
    let t = drive(
        Operation::SetSecret,
        &[Event::Completed, Event::Completed, Event::Failed(Failure::Encryption)],
    );
    assert_eq!(t.phase, Phase::Cleanup);
    let mut t = t;
    t.advance(Event::Failed(Failure::Delete));
    assert!(t.is_done());
    assert_eq!(t.outcome, Outcome::Failed(Failure::Encryption));
}

#[test]
fn transaction_delete_failure_after_success() {
    let t = drive(
        Operation::GetCode,
        &[Event::Completed, Event::Completed, Event::Completed, Event::Failed(Failure::Delete)],
    );
    assert_eq!(t.outcome, Outcome::Failed(Failure::Delete));
}

#[test]
fn init_declined_needs_no_cleanup() {
    let t = drive(Operation::CreateStorage, &[Event::Declined]);
    assert!(t.is_done());
    assert_eq!(t.outcome, Outcome::Declined);
}

#[test]
fn init_policies() {
    assert_eq!(init_policy(false, false), Some(WritePolicy::RequireAbsent));
    assert_eq!(init_policy(true, true), Some(WritePolicy::ForceOverwrite));
    assert_eq!(init_policy(true, false), None);
}

#[test]
fn write_policy_checks() {
    assert_eq!(check_write(true, WritePolicy::RequireAbsent), Err(FileSaveError::AlreadyExists));
    assert_eq!(check_write(true, WritePolicy::ForceOverwrite), Ok(()));
    assert_eq!(check_write(false, WritePolicy::RequireAbsent), Ok(()));
}

#[test]
fn document_text_sources() {
    assert_eq!(document_text(Ok("{\"a\":1}".to_string()), true), Ok("{\"a\":1}".to_string()));
    assert_eq!(document_text(Err(FileReadError::NoFile), false), Ok("{}".to_string()));
    assert_eq!(document_text(Err(FileReadError::NoFile), true), Err(Failure::Inconsistent));
    assert_eq!(document_text(Err(FileReadError::NoContent), false), Err(Failure::Read));
}

#[test]
fn storage_paths_under_home() {
    let s: Storage = get_storage_path("/home/u");
    assert_eq!(s.dir, "/home/u/.twofa");
    assert_eq!(s.en_file, "/home/u/.twofa/twofa.storage");
    assert_eq!(s.de_file, "/home/u/.twofa/buffer.storage");
    let t = Storage::new("d".to_string(), "e".to_string(), "p".to_string());
    assert_eq!(t.de_file, "p");
}

#[test]
fn prompt_answers() {
    assert_eq!(trim_line_end("y\r\n"), "y");
    assert_eq!(trim_line_end("y\n"), "y");
    assert_eq!(trim_line_end("yes"), "yes");
    assert!(is_confirmation("y"));
    assert!(!is_confirmation("Y"));
    assert!(!is_confirmation("yes"));
}

#[test]
fn logger_levels() {
    let l = Logger::new(2);
    assert_eq!(l.level, LogLevel::Mid);
    assert!(l.shows(LogLevel::Min));
    assert!(!l.shows(LogLevel::Max));
    assert_eq!(Logger::new(9).level, LogLevel::Norm);
    assert!(Logger::new(0).shows(LogLevel::Norm));
}

#[test]
fn set_document_asks_then_follows_answer() {
    let s2 = create_twofa_settings_with_input(Some("GEZDGNBVGY3TQOJQ".to_string()), Some(4294967295), None, None)
        .unwrap();
    let mut doc = doc_with_secret("JBSWY3DPEHPK3PXP");
    let before = code_for_application(doc_with_secret("JBSWY3DPEHPK3PXP"), "github").unwrap().unwrap();
    assert_eq!(set_document(&mut doc, "github".to_string(), &s2, None), SetStep::Ask);
    assert_eq!(set_document(&mut doc, "github".to_string(), &s2, Some("n")), SetStep::Declined);
    assert_eq!(code_for_application(doc_with_secret("JBSWY3DPEHPK3PXP"), "github").unwrap().unwrap(), before);
    let mut kept = doc_with_secret("JBSWY3DPEHPK3PXP");
    set_document(&mut kept, "github".to_string(), &s2, Some("no"));
    assert_eq!(code_for_application(kept, "github").unwrap().unwrap(), before);
    assert_eq!(set_document(&mut doc, "github".to_string(), &s2, Some("y")), SetStep::Write);
    let after = code_for_application(doc, "github").unwrap().unwrap();
    assert_ne!(after, before);
    let mut fresh = empty_doc();
    assert_eq!(set_document(&mut fresh, "gitlab".to_string(), &s2, None), SetStep::Write);
}

#[test]
fn unrecognized_settings_of_application() {
    let doc = JsonValue::Object(vec![(
        "app".to_string(),
        JsonValue::Object(vec![
            ("secret".to_string(), JsonValue::Str("Q".to_string())),
            ("colour".to_string(), JsonValue::Bool(true)),
        ]),
    )]);
    assert_eq!(unrecognized_settings(&doc, "app"), vec!["colour".to_string()]);
    assert!(unrecognized_settings(&doc, "other").is_empty());
}
