use pebblecrypt::batch::{file_label, jobs, unexpected_failure, BatchRun, BatchStep, Progress, Report};
use pebblecrypt::job::Job;
use std::cell::Cell;

/// Runs a batch the way the application's worker does: `cancel` is the
/// shared flag, `notify` receives progress, `process` handles one job.
fn run_with(
    jobs: &[Job],
    cancel: &Cell<bool>,
    notify: &mut dyn FnMut(Progress),
    process: &mut dyn FnMut(&Job, &mut dyn FnMut(u64, u64)) -> Result<(), String>,
) -> Report {
    let mut run = BatchRun::new(jobs.to_vec());
    loop {
        match run.next_step(cancel.get()) {
            BatchStep::Finished => break,
            BatchStep::Process(start) => {
                notify(start);
                let job = jobs[start.index].clone();
                let result = {
                    let run_ref = &run;
                    let mut report = |done: u64, total: u64| notify(run_ref.running(done, total));
                    process(&job, &mut report)
                };
                run.record(result, cancel.get());
            }
        }
    }
    run.report(cancel.get())
}

#[test]
fn successful_batch_reports_all_outputs_in_order() {
    let j = jobs();
    let r = run_with(&j, &Cell::new(false), &mut |_| {}, &mut |_, _| Ok(()));
    assert_eq!(r.outputs, j.iter().map(|j| j.output.clone()).collect::<Vec<_>>());
    assert!(!r.cancelled);
    assert!(r.error.is_none());
}

#[test]
fn empty_batch_is_safe() {
    let r = run_with(
        &[],
        &Cell::new(false),
        &mut |_| panic!("no progress expected"),
        &mut |_, _| panic!("no job expected"),
    );
    assert!(r.outputs.is_empty() && r.error.is_none() && !r.cancelled);
}

#[test]
fn cancellation_before_first_file_runs_no_jobs() {
    let r = run_with(&jobs(), &Cell::new(true), &mut |_| {}, &mut |_, _| panic!("should not run"));
    assert!(r.cancelled && r.outputs.is_empty());
}

#[test]
fn cancellation_between_files_preserves_completed_result() {
    let cancel = Cell::new(false);
    let j = jobs();
    let r = run_with(&j, &cancel, &mut |_| {}, &mut |_, _| {
        cancel.set(true);
        Ok(())
    });
    assert_eq!(r.outputs, vec![j[0].output.clone()]);
    assert!(r.cancelled);
}

#[test]
fn cancellation_on_final_commit_reports_success() {
    let cancel = Cell::new(false);
    let j = jobs();
    let mut n = 0;
    let r = run_with(&j, &cancel, &mut |_| {}, &mut |_, _| {
        n += 1;
        if n == 3 {
            cancel.set(true);
        }
        Ok(())
    });
    assert_eq!(r.outputs.len(), 3);
    assert!(!r.cancelled);
}

#[test]
fn error_stops_batch_and_keeps_prior_files() {
    let mut n = 0;
    let r = run_with(&jobs(), &Cell::new(false), &mut |_| {}, &mut |_, _| {
        n += 1;
        if n == 2 { Err("disk full".into()) } else { Ok(()) }
    });
    assert_eq!(n, 2);
    assert_eq!(r.outputs.len(), 1);
    assert!(r.error.unwrap().contains("1.input: disk full"));
}

#[test]
fn panic_stops_batch_and_keeps_prior_files() {
    // A panicking job is reported with the message that replaces a panic.
    let mut n = 0;
    let r = run_with(&jobs(), &Cell::new(false), &mut |_| {}, &mut |_, _| {
        n += 1;
        if n == 2 { Err(unexpected_failure()) } else { Ok(()) }
    });
    assert_eq!(n, 2);
    assert_eq!(r.outputs.len(), 1);
    assert!(r.error.unwrap().contains("unexpected error"));
}

#[test]
fn cancellation_never_masks_cleanup_failure() {
    let cancel = Cell::new(false);
    let r = run_with(&jobs(), &cancel, &mut |_| {}, &mut |_, _| {
        cancel.set(true);
        Err("Cancelled. Could not remove temporary plaintext".into())
    });
    assert!(r.error.unwrap().contains("plaintext"));
    assert!(!r.cancelled);
}

#[test]
fn cancellation_never_masks_disk_failure() {
    let cancel = Cell::new(false);
    let r = run_with(&jobs(), &cancel, &mut |_| {}, &mut |_, _| {
        cancel.set(true);
        Err("disk full".into())
    });
    assert!(r.error.unwrap().contains("disk full"));
    assert!(!r.cancelled);
}

#[test]
fn clean_cancellation_is_not_reported_as_error() {
    let cancel = Cell::new(false);
    let r = run_with(&jobs(), &cancel, &mut |_| {}, &mut |_, _| {
        cancel.set(true);
        Err("Cancelled.".into())
    });
    assert!(r.cancelled);
    assert!(r.error.is_none());
}

#[test]
fn cancellation_message_without_signal_is_an_error() {
    let r = run_with(&jobs(), &Cell::new(false), &mut |_| {}, &mut |_, _| Err("Cancelled.".into()));
    assert!(r.error.is_some());
    assert!(!r.cancelled);
}

#[test]
fn progress_identifies_file_and_stage() {
    let mut events = vec![];
    run_with(
        &jobs(),
        &Cell::new(false),
        &mut |p| events.push((p.index, p.count, p.done, p.total, p.preparing)),
        &mut |_, p| {
            p(10, 20);
            p(20, 20);
            Ok(())
        },
    );
    assert_eq!(events.len(), 9);
    for i in 0..3 {
        assert_eq!(events[i * 3], (i, 3, 0, 0, true));
        assert_eq!(events[i * 3 + 1], (i, 3, 10, 20, false));
    }
}

#[test]
fn fixture_jobs_are_numbered() {
    let j = jobs();
    assert_eq!(j.len(), 3);
    assert_eq!(j[2].input, "2.input");
    assert_eq!(j[0].output, "0.output");
}

#[test]
fn failure_line_names_the_source_file() {
    let j = vec![Job { input: "/data/in/report.pdf".into(), output: "/data/out.age".into() }];
    let r = run_with(&j, &Cell::new(false), &mut |_| {}, &mut |_, _| Err("boom".into()));
    assert_eq!(r.error.unwrap(), "report.pdf: boom");
    assert!(r.outputs.is_empty());
}

#[test]
fn failure_lines_name_the_source_file() {
    assert_eq!(file_label("/home/ana/reports/q3 notes.txt"), "q3 notes.txt");
    assert_eq!(file_label("1.input"), "1.input");
    let windows_style = file_label(r"C:\data\report.pdf");
    assert!(windows_style == "report.pdf" || windows_style == r"C:\data\report.pdf");
    let mut run = BatchRun::new(jobs());
    match run.next_step(false) {
        BatchStep::Process(p) => assert_eq!(p.index, 0),
        BatchStep::Finished => panic!("batch ended early"),
    }
    run.record(Err("disk full".to_string()), false);
    assert_eq!(run.error.as_deref(), Some("0.input: disk full"));
}
