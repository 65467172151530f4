//! Decisions taken while bytes flow: cancellation checks, the copy loop
//! and the size limit on an age header.
use vstd::prelude::*;
use std::sync::atomic::{AtomicBool, Ordering};
use crate::text::{join2, owned};

verus! {

/// The message of a clean cancellation.
pub open spec fn cancelled_text() -> Seq<char> {
    "Cancelled."@
}

/// `Err("Cancelled.")` when cancellation was requested, else `Ok`.
pub fn cancel_result(cancel_requested: bool) -> (r: Result<(), String>)
    ensures
        cancel_requested ==> (r matches Err(m) && m@ == cancelled_text()),
        !cancel_requested ==> r is Ok,
{
    if cancel_requested {
        Err(owned("Cancelled."))
    } else {
        Ok(())
    }
}

/// Reads the shared cancel flag and turns it into a result. Another thread
/// may set the flag at any time, so the result is either outcome.
pub fn check_cancel(cancel: &AtomicBool) -> (r: Result<(), String>)
    ensures
        r is Ok || (r matches Err(m) && m@ == cancelled_text()),
{
    let flag = cancel.load(Ordering::Relaxed);
    cancel_result(flag)
}

/// What one read of the source gave.
pub enum ReadOutcome {
    /// This many bytes were read; zero means the end.
    Data(usize),
    /// The read was interrupted and may be repeated.
    Interrupted,
    /// The read failed with this description.
    Failed(String),
}

/// What the copy loop does after a read.
#[derive(Debug)]
pub enum CopyAction {
    /// Check for cancellation and read again.
    Retry,
    /// Write this many bytes, then account for them.
    Write(usize),
    /// The source is exhausted.
    Finish,
    /// Stop with this message.
    Fail(String),
}

pub open spec fn read_failure_text(detail: Seq<char>) -> Seq<char> {
    "Could not read or authenticate the file: "@ + detail
}

pub open spec fn write_failure_text(detail: Seq<char>) -> Seq<char> {
    "Could not write the output: "@ + detail
}

/// The copy loop's decision after a read: interrupted reads are repeated,
/// an empty read ends the copy, other failures stop it.
pub fn after_read(outcome: ReadOutcome) -> (a: CopyAction)
    ensures
        match outcome {
            ReadOutcome::Data(n) => if n == 0 {
                a is Finish
            } else {
                a == CopyAction::Write(n)
            },
            ReadOutcome::Interrupted => a is Retry,
            ReadOutcome::Failed(d) => a matches CopyAction::Fail(m) && m@ == read_failure_text(d@),
        },
{
    match outcome {
        ReadOutcome::Data(n) => if n == 0 {
            CopyAction::Finish
        } else {
            CopyAction::Write(n)
        },
        ReadOutcome::Interrupted => CopyAction::Retry,
        ReadOutcome::Failed(d) => CopyAction::Fail(join2("Could not read or authenticate the file: ", d.as_str())),
    }
}

/// The message for a failed write.
pub fn write_failure(detail: &str) -> (r: String)
    ensures
        r@ == write_failure_text(detail@),
{
    join2("Could not write the output: ", detail)
}

/// The running byte count after `count` more bytes, if it fits.
pub fn advance(done: u64, count: usize) -> (r: Option<u64>)
    ensures
        done + count <= u64::MAX ==> r == Some((done + count) as u64),
        done + count > u64::MAX ==> r is None,
{
    if count as u128 + done as u128 > u64::MAX as u128 {
        None
    } else {
        Some(done + count as u64)
    }
}

/// The most bytes an age header may take.
pub const HEADER_BUDGET: usize = 65536;

/// How a read through the header limiter is served.
#[derive(Debug, PartialEq, Eq, Structural)]
pub enum HeaderRead {
    /// The caller's buffer is empty: report zero bytes.
    Nothing,
    /// The header is done: read straight from the source.
    Direct,
    /// The header budget is used up: fail as invalid data.
    Exhausted,
    /// Read at most this many bytes from the source.
    Limited(usize),
}

/// The most bytes a read of `buf_len` bytes may take from the source while
/// the header limit is active and `remaining` bytes of budget are left.
pub open spec fn grant(buf_len: int, remaining: int) -> int {
    if remaining <= 0 {
        0
    } else if buf_len < remaining {
        buf_len
    } else {
        remaining
    }
}

/// How to serve a read of `buf_len` bytes while the header limit is
/// `active` with `remaining` bytes of budget left.
pub fn header_read(buf_len: usize, active: bool, remaining: usize) -> (r: HeaderRead)
    ensures
        buf_len == 0 ==> r == HeaderRead::Nothing,
        buf_len > 0 && !active ==> r == HeaderRead::Direct,
        buf_len > 0 && active && remaining == 0 ==> r == HeaderRead::Exhausted,
        buf_len > 0 && active && remaining > 0 ==> r == HeaderRead::Limited(
            if buf_len < remaining { buf_len } else { remaining },
        ),
        active ==> (r matches HeaderRead::Limited(n) ==> n == grant(buf_len as int, remaining as int)),
{
    if buf_len == 0 {
        HeaderRead::Nothing
    } else if !active {
        HeaderRead::Direct
    } else if remaining == 0 {
        HeaderRead::Exhausted
    } else if buf_len < remaining {
        HeaderRead::Limited(buf_len)
    } else {
        HeaderRead::Limited(remaining)
    }
}

/// The budget left after a limited read returned `count` bytes.
pub fn header_consumed(remaining: usize, count: usize) -> (r: usize)
    requires
        count <= remaining,
    ensures
        r == remaining - count,
{
    remaining - count
}

/// Bytes taken by a run of header reads, each given as the caller's buffer
/// length and the count the source returned.
pub open spec fn taken(reads: Seq<(usize, usize)>) -> int
    decreases reads.len(),
{
    if reads.len() == 0 {
        0
    } else {
        taken(reads.drop_last()) + reads.last().1
    }
}

/// Every read of the run returned no more than it was granted from the
/// budget left before it.
pub open spec fn within_grants(reads: Seq<(usize, usize)>) -> bool
    decreases reads.len(),
{
    if reads.len() == 0 {
        true
    } else {
        let before = reads.drop_last();
        &&& within_grants(before)
        &&& reads.last().1 <= grant(
            reads.last().0 as int,
            HEADER_BUDGET - taken(before),
        )
    }
}

/// The header limit across reads: whatever the buffer sizes, a run of
/// reads that each keep to their grant takes at most [`HEADER_BUDGET`]
/// bytes in total.
pub proof fn lemma_header_budget_across_reads(reads: Seq<(usize, usize)>)
    requires
        within_grants(reads),
    ensures
        0 <= taken(reads) <= HEADER_BUDGET,
    decreases reads.len(),
{
    if reads.len() > 0 {
        lemma_header_budget_across_reads(reads.drop_last());
    }
}

/// The header budget of one source, with the reads served so far.
pub struct HeaderBudget {
    pub remaining: usize,
    pub reads: Ghost<Seq<(usize, usize)>>,
}

impl HeaderBudget {
    pub open spec fn wf(&self) -> bool {
        &&& within_grants(self.reads@)
        &&& self.remaining == HEADER_BUDGET - taken(self.reads@)
    }

    /// The full budget, with nothing read yet.
    pub fn new() -> (r: HeaderBudget)
        ensures
            r.wf(),
            r.reads@.len() == 0,
            r.remaining == HEADER_BUDGET,
    {
        HeaderBudget { remaining: HEADER_BUDGET, reads: Ghost(Seq::empty()) }
    }

    /// How to serve a read of `buf_len` bytes while the limit is `active`.
    pub fn plan(&self, buf_len: usize, active: bool) -> (r: HeaderRead)
        requires
            self.wf(),
        ensures
            buf_len == 0 ==> r == HeaderRead::Nothing,
            buf_len > 0 && !active ==> r == HeaderRead::Direct,
            buf_len > 0 && active && self.remaining == 0 ==> r == HeaderRead::Exhausted,
            buf_len > 0 && active && self.remaining > 0 ==> r == HeaderRead::Limited(
                if buf_len < self.remaining { buf_len } else { self.remaining },
            ),
            active ==> (r matches HeaderRead::Limited(n) ==> n == grant(
                buf_len as int,
                self.remaining as int,
            )),
    {
        header_read(buf_len, active, self.remaining)
    }

    /// Records that a limited read of `buf_len` bytes returned `count`.
    pub fn record(&mut self, buf_len: usize, count: usize)
        requires
            old(self).wf(),
            count <= grant(buf_len as int, old(self).remaining as int),
        ensures
            final(self).wf(),
            final(self).reads@ == old(self).reads@.push((buf_len, count)),
            final(self).remaining == old(self).remaining - count,
    {
        let ghost before = self.reads@;
        self.remaining = header_consumed(self.remaining, count);
        self.reads = Ghost(before.push((buf_len, count)));
        assert(self.reads@.drop_last() =~= before);
    }
}

/// The description of an exhausted header budget.
pub fn header_exceeded() -> (r: String)
    ensures
        r@ == "age header exceeds 64 KiB"@,
{
    owned("age header exceeds 64 KiB")
}

} // verus!
