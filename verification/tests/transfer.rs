use pebblecrypt::cipher::unlock_failure_text;
use pebblecrypt::job::Mode;
use pebblecrypt::transfer::{Transfer, TransferAction, TransferEvent};

/// How the simulated file system and age pipeline answer each action.
#[derive(Clone)]
struct World {
    cancel_after_actions: Option<usize>,
    output_exists: bool,
    source_missing: bool,
    source_is_file: bool,
    has_parent: bool,
    header_ok: bool,
    passphrase_file: bool,
    unlock: Option<bool>,
    commit_fails: bool,
    cleanup_fails: bool,
}

fn world() -> World {
    World {
        cancel_after_actions: None,
        output_exists: false,
        source_missing: false,
        source_is_file: true,
        has_parent: true,
        header_ok: true,
        passphrase_file: true,
        unlock: None,
        commit_fails: false,
        cleanup_fails: false,
    }
}

/// Runs one file through the machine; returns the result, whether the
/// output was published, and whether a temporary file is left behind.
fn process(mode: Mode, password: &str, w: &World) -> (Result<u64, String>, bool, bool) {
    let (mut t, mut action) = Transfer::new(mode, password);
    let mut published = false;
    let mut temporary = false;
    let mut actions = 0;
    loop {
        actions += 1;
        let cancelled = w.cancel_after_actions.map_or(false, |n| actions > n);
        let event = match action {
            TransferAction::CheckCancel => TransferEvent::Flag(cancelled),
            TransferAction::ProbeOutput => TransferEvent::Flag(w.output_exists),
            TransferAction::OpenSource => {
                if w.source_missing { TransferEvent::Failed("No such file or directory".into()) } else { TransferEvent::Done }
            }
            TransferAction::InspectSource => TransferEvent::Source { is_file: w.source_is_file, len: 42 },
            TransferAction::LocateFolder => TransferEvent::Flag(w.has_parent),
            TransferAction::CreateTemporary => {
                temporary = true;
                TransferEvent::Done
            }
            TransferAction::ReadHeader => if w.header_ok { TransferEvent::Done } else { TransferEvent::Failed("bad".into()) },
            TransferAction::CheckScheme => TransferEvent::Flag(w.passphrase_file),
            TransferAction::Unlock => match w.unlock {
                None => TransferEvent::Done,
                Some(excessive) => TransferEvent::Refused(unlock_failure_text(excessive)),
            },
            TransferAction::Commit => {
                if w.commit_fails {
                    TransferEvent::Failed("File exists".into())
                } else {
                    published = true;
                    temporary = false;
                    TransferEvent::Done
                }
            }
            TransferAction::Discard => {
                if w.cleanup_fails {
                    TransferEvent::CleanupFailed { path: "/out/.pebblecrypt-x.partial".into(), detail: "in use".into() }
                } else {
                    temporary = false;
                    TransferEvent::Done
                }
            }
            TransferAction::Finish(total) => return (Ok(total), published, temporary),
            TransferAction::Fail(m) => return (Err(m), published, temporary),
            _ => TransferEvent::Done,
        };
        action = t.step(event);
    }
}

#[test]
fn round_trip_reaches_commit_in_both_modes() {
    for mode in [Mode::Encrypt, Mode::Decrypt] {
        let (r, published, temporary) = process(mode, "pw", &world());
        assert_eq!(r, Ok(42));
        assert!(published && !temporary);
    }
}

#[test]
fn empty_encryption_password_is_rejected() {
    let (r, published, temporary) = process(Mode::Encrypt, "", &world());
    assert_eq!(r.unwrap_err(), "An encryption password is required.");
    assert!(!published && !temporary);
}

#[test]
fn cancellation_before_start_creates_nothing() {
    let w = World { cancel_after_actions: Some(0), ..world() };
    let (r, published, temporary) = process(Mode::Encrypt, "pw", &w);
    assert_eq!(r.unwrap_err(), "Cancelled.");
    assert!(!published && !temporary);
}

#[test]
fn preexisting_output_preserved_in_both_modes() {
    for mode in [Mode::Encrypt, Mode::Decrypt] {
        let w = World { output_exists: true, ..world() };
        let (r, published, temporary) = process(mode, "pw", &w);
        assert!(r.unwrap_err().contains("already exists"));
        assert!(!published && !temporary);
    }
}

#[test]
fn missing_source_leaves_no_temporary() {
    let w = World { source_missing: true, ..world() };
    let (r, _, temporary) = process(Mode::Encrypt, "pw", &w);
    assert!(r.unwrap_err().starts_with("Could not open the source file: "));
    assert!(!temporary);
}

#[test]
fn unavailable_output_parent_leaves_original() {
    let w = World { has_parent: false, ..world() };
    let (r, _, temporary) = process(Mode::Encrypt, "pw", &w);
    assert_eq!(r.unwrap_err(), "The output needs a folder.");
    assert!(!temporary);
}

#[test]
fn cancel_midstream_cleans_up_for_both_modes() {
    for mode in [Mode::Encrypt, Mode::Decrypt] {
        for after in 6..12 {
            let w = World { cancel_after_actions: Some(after), ..world() };
            let (r, published, temporary) = process(mode, "pw", &w);
            if let Err(m) = r {
                assert_eq!(m, "Cancelled.");
                assert!(!published && !temporary);
            }
        }
    }
}

#[test]
fn never_overwrite_even_if_destination_appears_during_processing() {
    let w = World { commit_fails: true, ..world() };
    let (r, published, temporary) = process(Mode::Encrypt, "pw", &w);
    assert!(r.unwrap_err().starts_with("Could not finalize the output; existing files were preserved: "));
    assert!(!published && !temporary);
}

#[test]
fn external_recipient_key_file_is_rejected_cleanly() {
    let w = World { passphrase_file: false, ..world() };
    let (r, _, temporary) = process(Mode::Decrypt, "pw", &w);
    assert!(r.unwrap_err().contains("recipient key"));
    assert!(!temporary);
}

#[test]
fn rejects_oversized_headers_and_excessive_scrypt_cost() {
    let w = World { header_ok: false, ..world() };
    let (r, _, temporary) = process(Mode::Decrypt, "pw", &w);
    assert!(r.unwrap_err().contains("not a supported age file"));
    assert!(!temporary);
    let w = World { unlock: Some(true), ..world() };
    let (r, published, temporary) = process(Mode::Decrypt, "pw", &w);
    assert!(r.unwrap_err().contains("1 GiB"));
    assert!(!published && !temporary);
}

#[test]
fn wrong_password_leaves_no_output() {
    let w = World { unlock: Some(false), ..world() };
    let (r, published, temporary) = process(Mode::Decrypt, "wrong", &w);
    assert_eq!(r.unwrap_err(), "The password is incorrect, or the encrypted file is damaged.");
    assert!(!published && !temporary);
}

#[test]
fn failed_temporary_cleanup_is_reported_with_path() {
    let w = World { cancel_after_actions: Some(7), cleanup_fails: true, ..world() };
    let (r, published, temporary) = process(Mode::Decrypt, "pw", &w);
    let m = r.unwrap_err();
    assert!(m.starts_with("Cancelled.\nCould not remove the temporary file /out/.pebblecrypt-x.partial: in use."));
    assert!(m.contains("plaintext"));
    assert!(!published && temporary);
}

#[test]
fn directory_source_is_refused() {
    let w = World { source_is_file: false, ..world() };
    let (r, _, _) = process(Mode::Encrypt, "pw", &w);
    assert_eq!(r.unwrap_err(), "The input must be a regular file.");
}
