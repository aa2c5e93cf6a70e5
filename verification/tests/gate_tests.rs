use sandbox_gate::gate::{
    read_message, read_outcome, status_code, write_status, ReadOutcome, WriteStatus,
};
use sandbox_gate::path::join_under_root;
use sandbox_gate::resolve::{resolve_verdict, TargetFact};

#[test]
fn verdict_accepts_new_file_inside_root() {
    let croot = Some(String::from("/data"));
    let candidate = join_under_root("/data", "notes.txt");
    let v = resolve_verdict(&croot, candidate.as_str(), &TargetFact::Missing);
    assert_eq!(v, Some(String::from("/data/notes.txt")));
}

#[test]
fn verdict_rejects_traversal_to_new_file() {
    let croot = Some(String::from("/data"));
    let candidate = join_under_root("/data", "../secret.txt");
    let v = resolve_verdict(&croot, candidate.as_str(), &TargetFact::Missing);
    assert_eq!(v, None);
}

#[test]
fn verdict_rejects_deep_traversal() {
    let croot = Some(String::from("/data"));
    let candidate = join_under_root("/data", "../../etc/passwd");
    let v = resolve_verdict(&croot, candidate.as_str(), &TargetFact::Missing);
    assert_eq!(v, None);
}

#[test]
fn verdict_accepts_traversal_that_cancels_out() {
    let croot = Some(String::from("/data"));
    let candidate = join_under_root("/data", "a/../b.txt");
    let v = resolve_verdict(&croot, candidate.as_str(), &TargetFact::Missing);
    assert_eq!(v, Some(String::from("/data/a/../b.txt")));
}

#[test]
fn verdict_judges_existing_target_by_canonical_form() {
    let croot = Some(String::from("/sandbox"));
    let candidate = join_under_root("/sandbox", "real.txt");
    let fact = TargetFact::Resolved(String::from("/sandbox/real.txt"));
    let v = resolve_verdict(&croot, candidate.as_str(), &fact);
    assert_eq!(v, Some(String::from("/sandbox/real.txt")));
}

#[test]
fn verdict_rejects_symlink_that_escapes() {
    // A symlink inside the sandbox resolves to its true external target,
    // and the verdict is made on that resolved form.
    let croot = Some(String::from("/sandbox"));
    let candidate = join_under_root("/sandbox", "link.txt");
    let fact = TargetFact::Resolved(String::from("/outside/target.txt"));
    let v = resolve_verdict(&croot, candidate.as_str(), &fact);
    assert_eq!(v, None);
}

#[test]
fn verdict_rejects_sibling_root_prefix() {
    let croot = Some(String::from("/sandbox"));
    let candidate = String::from("/sandboxx/secret.txt");
    let fact = TargetFact::Resolved(String::from("/sandboxx/secret.txt"));
    let v = resolve_verdict(&croot, candidate.as_str(), &fact);
    assert_eq!(v, None);
}

#[test]
fn verdict_rejects_invalid_root() {
    let croot: Option<String> = None;
    let candidate = join_under_root("/data", "notes.txt");
    let v = resolve_verdict(&croot, candidate.as_str(), &TargetFact::Missing);
    assert_eq!(v, None);
}

#[test]
fn verdict_rejects_unresolvable_target() {
    let croot = Some(String::from("/data"));
    let candidate = join_under_root("/data", "odd");
    let v = resolve_verdict(&croot, candidate.as_str(), &TargetFact::Unresolvable);
    assert_eq!(v, None);
}

#[test]
fn verdict_accepts_empty_filename_as_root() {
    let croot = Some(String::from("/data"));
    let candidate = join_under_root("/data", "");
    let fact = TargetFact::Resolved(String::from("/data"));
    let v = resolve_verdict(&croot, candidate.as_str(), &fact);
    assert_eq!(v, Some(String::from("/data")));
}

#[test]
fn write_status_mapping() {
    assert_eq!(write_status(true, true), WriteStatus::Success);
    assert_eq!(write_status(false, false), WriteStatus::AccessDenied);
    assert_eq!(write_status(false, true), WriteStatus::AccessDenied);
    assert_eq!(write_status(true, false), WriteStatus::IoError);
}

#[test]
fn status_codes() {
    assert_eq!(status_code(WriteStatus::Success), 0);
    assert_eq!(status_code(WriteStatus::AccessDenied), -1);
    assert_eq!(status_code(WriteStatus::IoError), -2);
}

#[test]
fn read_outcome_mapping() {
    assert_eq!(
        read_outcome(true, Some(String::from("hello"))),
        ReadOutcome::Content(String::from("hello"))
    );
    assert_eq!(read_outcome(true, None), ReadOutcome::NotFound);
    assert_eq!(read_outcome(false, None), ReadOutcome::AccessDenied);
    assert_eq!(
        read_outcome(false, Some(String::from("leak"))),
        ReadOutcome::AccessDenied
    );
}

#[test]
fn read_messages_use_the_fixed_markers() {
    assert_eq!(
        read_message(ReadOutcome::AccessDenied),
        String::from("ERROR: Access Denied")
    );
    assert_eq!(
        read_message(ReadOutcome::NotFound),
        String::from("ERROR: File not found")
    );
    assert_eq!(
        read_message(ReadOutcome::Content(String::from("hello"))),
        String::from("hello")
    );
}

#[test]
fn missing_file_is_not_denied_and_not_empty_content() {
    // A contained but absent target reads as NotFound: distinct from a
    // policy rejection and from a successful read of an empty file.
    let o = read_outcome(true, None);
    assert_eq!(o, ReadOutcome::NotFound);
    assert_ne!(o, ReadOutcome::AccessDenied);
    assert_ne!(o, ReadOutcome::Content(String::new()));
    let empty = read_outcome(true, Some(String::new()));
    assert_eq!(empty, ReadOutcome::Content(String::new()));
    assert_ne!(read_message(o), read_message(empty));
}

#[test]
fn write_then_read_decisions_round_trip() {
    // The decision pipeline for the worked example: writing notes.txt under
    // /data succeeds, and the subsequent read of the same verified path
    // hands back exactly what the storage returned.
    let croot = Some(String::from("/data"));
    let candidate = join_under_root("/data", "notes.txt");
    let verdict = resolve_verdict(&croot, candidate.as_str(), &TargetFact::Missing);
    assert_eq!(verdict, Some(String::from("/data/notes.txt")));
    let status = write_status(verdict.is_some(), true);
    assert_eq!(status_code(status), 0);

    // After the write the target exists; the read resolves it canonically.
    let fact = TargetFact::Resolved(String::from("/data/notes.txt"));
    let read_verdict = resolve_verdict(&croot, candidate.as_str(), &fact);
    assert_eq!(read_verdict, Some(String::from("/data/notes.txt")));
    let outcome = read_outcome(read_verdict.is_some(), Some(String::from("hello")));
    assert_eq!(read_message(outcome), String::from("hello"));
}

#[test]
fn denied_write_example() {
    let croot = Some(String::from("/data"));
    let candidate = join_under_root("/data", "../secret.txt");
    let verdict = resolve_verdict(&croot, candidate.as_str(), &TargetFact::Missing);
    assert_eq!(verdict, None);
    let status = write_status(verdict.is_some(), false);
    assert_eq!(status_code(status), -1);
}

#[test]
fn denied_read_uses_denied_marker() {
    let croot = Some(String::from("/data"));
    let candidate = join_under_root("/data", "../outside.txt");
    let verdict = resolve_verdict(&croot, candidate.as_str(), &TargetFact::Missing);
    assert_eq!(verdict, None);
    let outcome = read_outcome(verdict.is_some(), None);
    assert_eq!(read_message(outcome), String::from("ERROR: Access Denied"));
}

#[test]
fn identical_writes_decide_identically() {
    // Statelessness: the same request decided twice yields the same verdict
    // and the same status both times.
    let croot = Some(String::from("/data"));
    let candidate = join_under_root("/data", "notes.txt");
    let first = resolve_verdict(&croot, candidate.as_str(), &TargetFact::Missing);
    let second = resolve_verdict(&croot, candidate.as_str(), &TargetFact::Missing);
    assert_eq!(first, second);
    let code_first = status_code(write_status(first.is_some(), true));
    let code_second = status_code(write_status(second.is_some(), true));
    assert_eq!(code_first, 0);
    assert_eq!(code_second, 0);
}
