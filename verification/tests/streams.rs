use pebblecrypt::stream::{
    advance, after_read, cancel_result, check_cancel, header_consumed, header_exceeded, header_read, write_failure,
    CopyAction, HeaderBudget, HeaderRead, ReadOutcome, HEADER_BUDGET,
};
use std::sync::atomic::{AtomicBool, Ordering};

/// The copy loop as the application runs it, over an in-memory source that
/// yields the given reads and a sink that accepts at most `write_limit`
/// bytes per write call (0 = refuse everything).
fn copy(reads: Vec<ReadOutcome>, write_limit: Option<usize>) -> (Result<(), String>, Vec<usize>, u64) {
    let mut reads = reads.into_iter();
    let mut done: u64 = 0;
    let mut progress = Vec::new();
    loop {
        let outcome = reads.next().unwrap_or(ReadOutcome::Data(0));
        match after_read(outcome) {
            CopyAction::Retry => continue,
            CopyAction::Finish => break,
            CopyAction::Fail(m) => return (Err(m), progress, done),
            CopyAction::Write(n) => {
                if write_limit == Some(0) {
                    return (Err(write_failure("failed to write whole buffer")), progress, done);
                }
                done = advance(done, n).unwrap();
                progress.push(n);
            }
        }
    }
    (Ok(()), progress, done)
}

#[test]
fn interrupted_reads_are_retried() {
    let (r, _, done) = copy(vec![ReadOutcome::Interrupted, ReadOutcome::Data(13)], None);
    assert!(r.is_ok());
    assert_eq!(done, 13);
}

#[test]
fn short_reads_and_short_writes_are_handled() {
    let mut reads = Vec::new();
    let mut left = 255usize;
    while left > 0 {
        let n = left.min(7);
        reads.push(ReadOutcome::Data(n));
        left -= n;
    }
    let (r, progress, done) = copy(reads, Some(3));
    assert!(r.is_ok());
    assert_eq!(done, 255);
    assert_eq!(progress.len(), 37);
}

#[test]
fn zero_write_is_an_error() {
    let (r, _, _) = copy(vec![ReadOutcome::Data(1)], Some(0));
    assert!(r.is_err());
}

#[test]
fn disk_full_is_reported() {
    assert!(write_failure("injected disk full").contains("disk full"));
    assert_eq!(write_failure("x"), "Could not write the output: x");
}

#[test]
fn read_error_is_reported() {
    let (r, _, _) = copy(vec![ReadOutcome::Failed("injected read failure".into())], None);
    let m = r.unwrap_err();
    assert!(m.contains("read failure"));
    assert_eq!(m, "Could not read or authenticate the file: injected read failure");
}

#[test]
fn empty_read_after_header_budget_is_valid() {
    assert_eq!(header_read(0, true, 0), HeaderRead::Nothing);
}

#[test]
fn header_budget_stops_exactly_at_limit() {
    let mut remaining = 64usize;
    let mut source = 65usize;
    match header_read(128, true, remaining) {
        HeaderRead::Limited(limit) => {
            assert_eq!(limit, 64);
            let count = limit.min(source);
            source -= count;
            remaining = header_consumed(remaining, count);
            assert_eq!(count, 64);
        }
        other => panic!("unexpected {other:?}"),
    }
    assert_eq!(header_read(128, true, remaining), HeaderRead::Exhausted);
    assert_eq!(header_read(128, false, remaining), HeaderRead::Direct);
    assert_eq!(source, 1);
    assert_eq!(header_exceeded(), "age header exceeds 64 KiB");
    assert_eq!(HEADER_BUDGET, 64 * 1024);
}

#[test]
fn header_budget_is_shared_across_reads() {
    let mut budget = HeaderBudget::new();
    let mut taken = 0usize;
    let mut reads = 0usize;
    loop {
        match budget.plan(40_000, true) {
            HeaderRead::Limited(limit) => {
                assert!(limit <= 40_000);
                budget.record(40_000, limit);
                taken += limit;
                reads += 1;
            }
            HeaderRead::Exhausted => break,
            other => panic!("unexpected {other:?}"),
        }
    }
    assert_eq!(reads, 2);
    assert_eq!(taken, HEADER_BUDGET);
    assert_eq!(budget.remaining, 0);
    assert_eq!(budget.plan(0, true), HeaderRead::Nothing);
    assert_eq!(budget.plan(1, false), HeaderRead::Direct);
}

#[test]
fn small_buffers_are_not_widened() {
    assert_eq!(header_read(10, true, HEADER_BUDGET), HeaderRead::Limited(10));
}

#[test]
fn cancel_flag_becomes_cancelled_error() {
    let flag = AtomicBool::new(false);
    assert!(check_cancel(&flag).is_ok());
    flag.store(true, Ordering::Relaxed);
    assert_eq!(check_cancel(&flag).unwrap_err(), "Cancelled.");
    assert_eq!(cancel_result(true).unwrap_err(), "Cancelled.");
    assert!(cancel_result(false).is_ok());
}

#[test]
fn byte_count_refuses_to_wrap() {
    assert_eq!(advance(u64::MAX - 1, 1), Some(u64::MAX));
    assert_eq!(advance(u64::MAX, 1), None);
}
