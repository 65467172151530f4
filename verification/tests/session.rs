use pebblecrypt::job::Mode;
use pebblecrypt::session::{folder_open_failed, preparing_message, working_message, AddedFile, Session};

fn ready() -> Session {
    let mut s = Session::blank();
    s.files = vec!["example.txt".to_string()];
    s.file_sizes = vec![0];
    s.password = "a twelve-plus-character passphrase".into();
    s.confirmation = "a twelve-plus-character passphrase".into();
    s
}

fn file(path: &str, size: u64) -> Option<AddedFile> {
    let name = path.rsplit('/').next().unwrap().to_string();
    Some(AddedFile { path: path.to_string(), name, size })
}

#[test]
fn encryption_requires_files() {
    let mut app = ready();
    app.files.clear();
    app.file_sizes.clear();
    assert!(app.validation().unwrap().contains("files"));
}

#[test]
fn encryption_requires_nonempty_password() {
    let mut app = ready();
    app.password.clear();
    assert!(app.validation().is_some());
}

#[test]
fn encryption_rejects_short_password() {
    let mut app = ready();
    app.password = "12345678901".into();
    app.confirmation = app.password.clone();
    assert!(app.validation().unwrap().contains("12"));
}

#[test]
fn twelve_unicode_characters_are_accepted() {
    let mut app = ready();
    app.password = "🔐".repeat(12);
    app.confirmation = app.password.clone();
    assert!(app.validation().is_none());
}

#[test]
fn multibyte_bytes_do_not_bypass_length_requirement() {
    let mut app = ready();
    app.password = "🔐".repeat(3);
    app.confirmation = app.password.clone();
    assert!(app.validation().is_some());
}

#[test]
fn password_confirmation_must_match_exactly() {
    let mut app = ready();
    app.confirmation.push(' ');
    assert!(app.validation().unwrap().contains("match"));
}

#[test]
fn generated_password_requires_saved_confirmation() {
    let mut app = ready();
    app.generated = true;
    assert!(app.validation().is_some());
    app.password_saved = true;
    assert!(app.validation().is_none());
}

#[test]
fn short_external_password_can_be_decrypted() {
    let mut app = ready();
    app.mode = Mode::Decrypt;
    app.password = "x".into();
    app.confirmation.clear();
    assert!(app.validation().is_none());
}

#[test]
fn clear_password_removes_strings_flags_and_undo_state() {
    let mut app = ready();
    app.show_password = true;
    app.generated = true;
    app.password_saved = true;
    app.clear_password();
    assert!(app.password.is_empty() && app.confirmation.is_empty());
    assert!(!app.show_password && !app.generated && !app.password_saved);
    assert_eq!(app.password_epoch, 1);
}

#[test]
fn regenerating_password_discards_previous_undo_state() {
    let mut app = ready();
    app.password_saved = true;
    app.set_generated_password("new generated password".into());
    assert_eq!(app.password_epoch, 1);
    assert_eq!(app.password, app.confirmation);
    assert_eq!(app.password, "new generated password");
    assert!(!app.password_saved);
    assert!(app.generated && app.show_password);
}

#[test]
fn clear_queue_also_clears_secrets_errors_and_results() {
    let mut app = ready();
    app.error = true;
    app.outputs.push("old.out".into());
    app.progress = 1000;
    app.clear_files();
    assert!(app.files.is_empty() && app.outputs.is_empty() && app.password.is_empty() && !app.error);
    assert_eq!(app.progress, 0);
}

#[test]
fn switching_mode_clears_secrets() {
    let mut app = ready();
    app.set_mode(Mode::Decrypt);
    assert_eq!(app.mode, Mode::Decrypt);
    assert!(app.password.is_empty() && app.confirmation.is_empty());
    assert_eq!(app.files.len(), 1);
}

#[test]
fn selecting_same_mode_does_not_erase_password() {
    let mut app = ready();
    let before = app.password.clone();
    app.set_mode(Mode::Encrypt);
    assert_eq!(app.password, before);
}

#[test]
fn adding_only_age_files_selects_decrypt_and_clears_old_password() {
    let mut app = ready();
    app.files.clear();
    app.file_sizes.clear();
    app.add_files(vec![file("/tmp/d/x.AGE", 1)]);
    assert_eq!(app.mode, Mode::Decrypt);
    assert!(app.password.is_empty());
}

#[test]
fn mixed_selection_defaults_to_encrypt() {
    let mut app = Session::blank();
    app.add_files(vec![file("/tmp/d/a.age", 1), file("/tmp/d/b.txt", 1)]);
    assert_eq!(app.mode, Mode::Encrypt);
    assert_eq!(app.files.len(), 2);
}

#[test]
fn duplicate_selection_does_not_double_count_size() {
    let mut app = Session::blank();
    app.add_files(vec![file("/tmp/d/file", 5), file("/tmp/d/file", 5)]);
    assert_eq!(app.files.len(), 1);
    assert_eq!(app.total_file_size(), 5);
}

#[test]
fn folder_selection_is_rejected() {
    let mut app = Session::blank();
    app.add_files(vec![None]);
    assert!(app.error && app.files.is_empty());
    assert_eq!(app.status, "Folders cannot be added directly. Zip a folder first.");
}

#[test]
fn empty_selection_does_not_change_state() {
    let mut app = ready();
    app.status = "keep".into();
    app.add_files(vec![]);
    assert_eq!(app.files.len(), 1);
    assert_eq!(app.status, "keep");
}

#[test]
fn busy_app_ignores_new_file_selection() {
    let mut app = ready();
    app.busy = true;
    app.add_files(vec![None]);
    assert_eq!(app.files.len(), 1);
    assert!(!app.error);
}

#[test]
fn total_size_saturates_without_panicking() {
    let mut app = Session::blank();
    app.files = vec!["a".into(), "b".into()];
    app.file_sizes = vec![u64::MAX, 1];
    assert_eq!(app.total_file_size(), u64::MAX);
}

#[test]
fn progress_does_not_overwrite_cancelling_message() {
    let mut app = ready();
    app.busy = true;
    app.status = "Cancelling…".into();
    app.apply_progress(500, "Encrypting file".into(), true);
    assert_eq!(app.status, "Cancelling…");
    assert_eq!(app.progress, 500);
}

#[test]
fn completed_batch_updates_results_and_releases_busy_state() {
    let mut app = ready();
    app.busy = true;
    app.apply_finished(vec!["out.age".into()], None, false);
    assert!(!app.is_busy() && !app.error);
    assert_eq!(app.outputs.len(), 1);
    assert_eq!(app.progress, 1000);
    assert_eq!(app.status, "All done. 1 file(s) encrypted. Originals are unchanged.");
}

#[test]
fn partial_batch_error_preserves_completed_outputs() {
    let mut app = ready();
    app.busy = true;
    app.apply_finished(vec!["out.age".into()], Some("disk failure".into()), false);
    assert!(app.error && !app.is_busy());
    assert_eq!(app.outputs.len(), 1);
    assert!(app.status.contains("disk failure"));
    assert_eq!(app.status, "disk failure\n1 completed file(s) kept. Originals are unchanged.");
}

#[test]
fn unexpected_worker_disconnect_is_reported() {
    let mut app = ready();
    app.busy = true;
    app.worker_vanished();
    assert!(app.error && !app.is_busy());
    assert!(app.status.contains("unexpectedly"));
}

#[test]
fn failed_preflight_keeps_password_for_retry() {
    let mut app = ready();
    let before = app.password.clone();
    assert!(app.can_start());
    app.plan_failed("Not an available file: definitely-missing-audit-file. Zip folders before adding them.".into());
    assert!(app.error && !app.is_busy());
    assert_eq!(app.password, before);
}

#[test]
fn invalid_form_cannot_start_worker() {
    let mut app = ready();
    app.confirmation.clear();
    assert!(!app.can_start());
    assert!(!app.is_busy());
    assert!(!app.password.is_empty());
}

#[test]
fn gui_generate_button_updates_both_fields() {
    let mut app = Session::blank();
    let password = pebblecrypt::password::generated_password().unwrap();
    app.set_generated_password(password);
    assert_eq!(app.password.len(), 24);
    assert_eq!(app.password, app.confirmation);
    assert!(app.generated && !app.password_saved);
}

#[test]
fn gui_mode_button_clears_password() {
    let mut app = ready();
    app.set_mode(Mode::Decrypt);
    assert_eq!(app.mode, Mode::Decrypt);
    assert!(app.password.is_empty());
}

#[test]
fn gui_clear_button_clears_queue_and_password() {
    let mut app = ready();
    app.clear_files();
    assert!(app.files.is_empty() && app.password.is_empty());
}

#[test]
fn gui_cancel_button_signals_worker() {
    let mut app = ready();
    app.busy = true;
    app.request_cancel();
    assert!(app.status.starts_with("Cancelling"));
    assert!(app.is_busy());
}

#[test]
fn cancelled_without_outputs_remains_visible() {
    let mut app = Session::blank();
    app.busy = true;
    app.apply_finished(vec![], None, true);
    assert!(app.has_result());
    assert!(app.status.starts_with("Cancelled."));
    assert!(app.hint().is_none());
}

#[test]
fn starting_hands_out_password_and_wipes_fields() {
    let mut app = ready();
    let password = app.take_password();
    assert_eq!(password, "a twelve-plus-character passphrase");
    assert!(app.password.is_empty() && app.confirmation.is_empty());
    assert!(app.is_busy());
    assert_eq!(app.status, "Preparing password…");
    app.worker_failed("no threads");
    assert!(!app.is_busy() && app.error);
    assert_eq!(app.status, "Could not start the worker: no threads. No files were processed.");
}

#[test]
fn removing_last_file_resets_the_window() {
    let mut app = ready();
    app.add_files(vec![file("/tmp/d/b", 3)]);
    assert_eq!(app.files, vec!["example.txt".to_string(), "/tmp/d/b".to_string()]);
    app.remove_file(0);
    assert_eq!(app.files, vec!["/tmp/d/b".to_string()]);
    assert_eq!(app.file_sizes, vec![3]);
    app.remove_file(0);
    assert!(app.files.is_empty());
    assert_eq!(app.status, "Ready when you are.");
}

#[test]
fn status_messages_name_file_and_position() {
    assert_eq!(preparing_message(0, 3), "Preparing password · File 1 of 3");
    assert_eq!(working_message(Mode::Decrypt, "a.age", 1, 2), "Decrypting a.age · 2 of 2");
    assert_eq!(folder_open_failed("denied"), "Could not open the folder: denied");
}

#[test]
fn cancelled_batch_status_counts_kept_files() {
    let mut app = ready();
    app.busy = true;
    app.apply_finished(vec!["a".into(), "b".into()], None, true);
    assert_eq!(app.status, "Cancelled. 2 completed file(s) kept. Originals are unchanged.");
    assert!(!app.error);
}

#[test]
fn closing_while_busy_is_explained_and_secrets_forgotten() {
    let mut app = ready();
    app.close_refused();
    assert!(app.status.starts_with("An operation is running."));
    app.forget_secrets();
    assert!(app.password.is_empty() && app.confirmation.is_empty());
}
