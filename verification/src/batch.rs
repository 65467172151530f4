//! Running a batch of jobs in order: the first failure stops the batch,
//! completed outputs are kept, and a clean cancellation is not an error.
//!
//! [`BatchRun`] decides; the caller processes each job it is asked to and
//! reports back, reading the shared cancel flag whenever a step needs it.
use vstd::prelude::*;
use vstd::string::StringExecFns;
use crate::job::Job;
use crate::text::{join3, owned, decimal_string};
use crate::naming::last_index_of;

verus! {

/// What a finished batch produced.
#[derive(Debug)]
pub struct Report {
    pub outputs: Vec<String>,
    pub error: Option<String>,
    pub cancelled: bool,
}

impl Default for Report {
    fn default() -> (r: Self)
        ensures
            r.outputs@.len() == 0,
            r.error is None,
            !r.cancelled,
    {
        Report { outputs: Vec::new(), error: None, cancelled: false }
    }
}

/// Where a batch is: which file, of how many, and how far through it.
#[derive(Debug, Clone, Copy, PartialEq, Eq, Structural)]
pub struct Progress {
    pub index: usize,
    pub count: usize,
    pub done: u64,
    pub total: u64,
    pub preparing: bool,
}

/// What the batch needs next.
pub enum BatchStep {
    /// Announce this progress, then process the job at `progress.index`
    /// and report its result with [`BatchRun::record`].
    Process(Progress),
    /// The batch is over; collect the [`Report`].
    Finished,
}

pub struct BatchRun {
    pub jobs: Vec<Job>,
    /// Index of the next job to start (or of the job being processed).
    pub next: usize,
    pub outputs: Vec<String>,
    pub error: Option<String>,
    /// A failure or a cancellation ended the batch early.
    pub stopped: bool,
    /// The job at `next` is being processed.
    pub awaiting: bool,
}

/// The result message that stands for a clean cancellation.
pub open spec fn cancelled_message() -> Seq<char> {
    "Cancelled."@
}

/// A failure of the job labelled `label` with `message`.
pub open spec fn failure_text(label: Seq<char>, message: Seq<char>) -> Seq<char> {
    label + ": "@ + message
}

/// Whether a failure is reported: anything but a clean cancellation, and a
/// cancellation message when nobody asked to cancel.
pub open spec fn failure_reported(message: Seq<char>, cancel_requested: bool) -> bool {
    message != cancelled_message() || !cancel_requested
}

/// Index of the last `/` or `\\` in `s`, or -1.
pub open spec fn last_separator(s: Seq<char>) -> int
    decreases s.len(),
{
    if s.len() == 0 {
        -1
    } else if s.last() == '/' || s.last() == '\\' {
        s.len() - 1
    } else {
        last_separator(s.drop_last())
    }
}

/// The part of a path after its last `/`: its final component where only
/// `/` separates (Unix).
pub open spec fn slash_tail(path: Seq<char>) -> Seq<char> {
    path.subrange(last_index_of(path, '/') + 1, path.len() as int)
}

/// The part of a path after its last `/` or `\\`: its final component
/// where both separate (Windows).
pub open spec fn separator_tail(path: Seq<char>) -> Seq<char> {
    path.subrange(last_separator(path) + 1, path.len() as int)
}

/// A last path part that names a file: not empty, not `.` or `..`.
pub open spec fn plain_part(t: Seq<char>) -> bool {
    t.len() > 0 && t != "."@ && t != ".."@
}

/// Whether the path's form settles its final component on both path
/// styles: it does not begin with two separators (UNC, device and verbatim
/// prefixes), and the part after the last separator is a plain name, under
/// `/` alone and under `/` and `\\`, with no `:` (drive prefixes) in the
/// latter.
pub open spec fn label_known(path: Seq<char>) -> bool {
    &&& !(path.len() >= 2 && (path[0] == '/' || path[0] == '\\') && (path[1] == '/' || path[1]
        == '\\'))
    &&& plain_part(slash_tail(path))
    &&& plain_part(separator_tail(path))
    &&& !separator_tail(path).contains(':')
}

/// The file name shown for a source path in messages.
///
/// Trusted: calls `Path::file_name` (empty when the path has none) and
/// converts it lossily to text. For a path whose form settles its final
/// component (see [`label_known`]) that component is [`slash_tail`] where
/// only `/` separates and [`separator_tail`] where `\\` separates too; it
/// is text already, so the label is one of the two (the same one when the
/// path has no backslash). Which one depends on the platform the code runs
/// on, which the contract does not name. Other paths (trailing separators,
/// `.` and `..`, prefixes) follow the platform's path rules, and nothing is
/// stated of them.
#[verifier::external_body]
pub fn file_label(path: &str) -> (r: String)
    ensures
        label_known(path@) ==> (r@ == slash_tail(path@) || r@ == separator_tail(path@)),
{
    std::path::Path::new(path).file_name().unwrap_or_default().to_string_lossy().into_owned()
}

/// The report line for a failed job.
pub fn failure_line(label: &str, message: &str) -> (r: String)
    ensures
        r@ == failure_text(label@, message@),
{
    join3(label, ": ", message)
}

/// The message that replaces a job that stopped by panicking.
pub fn unexpected_failure() -> (r: String)
    ensures
        r@ == "An unexpected error stopped this file. Check the output folder for any completed result."@,
{
    owned("An unexpected error stopped this file. Check the output folder for any completed result.")
}

impl BatchRun {
    pub open spec fn wf(&self) -> bool {
        &&& self.next <= self.jobs@.len()
        &&& self.outputs@.len() == self.next
        &&& forall|i: int| 0 <= i < self.next ==> #[trigger] self.outputs@[i]@ == self.jobs@[i].output@
        &&& self.awaiting ==> self.next < self.jobs@.len() && !self.stopped
        &&& self.error is Some ==> self.stopped
    }

    pub fn new(jobs: Vec<Job>) -> (r: BatchRun)
        ensures
            r.wf(),
            r.jobs@ == jobs@,
            r.next == 0,
            r.error is None,
            !r.stopped,
            !r.awaiting,
    {
        BatchRun { jobs, next: 0, outputs: Vec::new(), error: None, stopped: false, awaiting: false }
    }

    /// Decides whether another job starts; `cancel_requested` is the cancel
    /// flag read just now.
    pub fn next_step(&mut self, cancel_requested: bool) -> (step: BatchStep)
        requires
            old(self).wf(),
            !old(self).awaiting,
        ensures
            final(self).wf(),
            final(self).jobs@ == old(self).jobs@,
            final(self).next == old(self).next,
            final(self).outputs@ == old(self).outputs@,
            final(self).error == old(self).error,
            if old(self).stopped || old(self).next == old(self).jobs@.len() || cancel_requested {
                &&& step is Finished
                &&& !final(self).awaiting
                &&& final(self).stopped == (old(self).stopped || (old(self).next < old(self).jobs@.len()))
            } else {
                &&& step == BatchStep::Process(
                    Progress {
                        index: old(self).next,
                        count: old(self).jobs@.len() as usize,
                        done: 0,
                        total: 0,
                        preparing: true,
                    },
                )
                &&& final(self).awaiting
                &&& !final(self).stopped
            },
    {
        if self.stopped || self.next == self.jobs.len() {
            return BatchStep::Finished;
        }
        if cancel_requested {
            self.stopped = true;
            return BatchStep::Finished;
        }
        self.awaiting = true;
        BatchStep::Process(
            Progress { index: self.next, count: self.jobs.len(), done: 0, total: 0, preparing: true },
        )
    }

    /// The progress to announce while the current job has done `done` of
    /// `total` bytes.
    pub fn running(&self, done: u64, total: u64) -> (p: Progress)
        requires
            self.wf(),
            self.awaiting,
        ensures
            p == (Progress {
                index: self.next,
                count: self.jobs@.len() as usize,
                done,
                total,
                preparing: false,
            }),
    {
        Progress { index: self.next, count: self.jobs.len(), done, total, preparing: false }
    }

    /// Records the result of the current job; `cancel_requested` is the
    /// cancel flag read just now.
    pub fn record(&mut self, result: Result<(), String>, cancel_requested: bool)
        requires
            old(self).wf(),
            old(self).awaiting,
        ensures
            final(self).wf(),
            !final(self).awaiting,
            final(self).jobs@ == old(self).jobs@,
            match result {
                Ok(()) => {
                    &&& final(self).next == old(self).next + 1
                    &&& final(self).outputs@.len() == old(self).outputs@.len() + 1
                    &&& final(self).outputs@.drop_last() == old(self).outputs@
                    &&& final(self).outputs@.last()@ == old(self).jobs@[old(self).next as int].output@
                    &&& final(self).error is None
                    &&& !final(self).stopped
                },
                Err(m) => {
                    &&& final(self).stopped
                    &&& final(self).next == old(self).next
                    &&& final(self).outputs@ == old(self).outputs@
                    &&& (final(self).error is Some <==> failure_reported(m@, cancel_requested))
                    &&& (final(self).error matches Some(e) ==> exists|label: Seq<char>|
                        e@ == #[trigger] failure_text(label, m@))
                    &&& (final(self).error matches Some(e) ==> {
                        let input = old(self).jobs@[old(self).next as int].input@;
                        label_known(input) ==> (e@ == failure_text(slash_tail(input), m@) || e@
                            == failure_text(separator_tail(input), m@))
                    })
                },
            },
    {
        self.awaiting = false;
        match result {
            Ok(()) => {
                let ghost before = self.outputs@;
                let out = self.jobs[self.next].output.clone();
                self.outputs.push(out);
                assert(self.next < self.jobs.len());
                self.next = self.next + 1;
                proof {
                    assert forall|i: int| 0 <= i < self.next implies #[trigger] self.outputs@[i]@
                        == self.jobs@[i].output@ by {
                        if i < before.len() {
                            assert(self.outputs@[i] == before[i]);
                        }
                    }
                    assert(self.outputs@.drop_last() =~= before);
                }
            },
            Err(message) => {
                self.stopped = true;
                let clean = message == owned("Cancelled.") && cancel_requested;
                if !clean {
                    let label = file_label(self.jobs[self.next].input.as_str());
                    let line = failure_line(label.as_str(), message.as_str());
                    assert(line@ == failure_text(label@, message@));
                    self.error = Some(line);
                }
            },
        }
    }

    /// The report of the batch; `cancel_requested` is the cancel flag read
    /// just now.
    pub fn report(self, cancel_requested: bool) -> (r: Report)
        requires
            self.wf(),
            !self.awaiting,
        ensures
            r.outputs@ == self.outputs@,
            r.error == self.error,
            r.cancelled == (self.error is None && cancel_requested && self.outputs@.len()
                < self.jobs@.len()),
    {
        let cancelled = self.error.is_none() && cancel_requested && self.outputs.len()
            < self.jobs.len();
        Report { outputs: self.outputs, error: self.error, cancelled }
    }
}

/// The outputs kept by a batch are the outputs of its first jobs, in order.
pub proof fn lemma_outputs_are_leading_jobs(b: BatchRun)
    requires
        b.wf(),
    ensures
        b.outputs@.len() <= b.jobs@.len(),
        forall|i: int| 0 <= i < b.outputs@.len() ==> #[trigger] b.outputs@[i]@ == b.jobs@[i].output@,
{
}

/// A run that went through every job without stopping keeps every job's
/// output in order, and its report is never marked cancelled, even when
/// cancellation was requested after the last file was committed.
pub proof fn lemma_complete_run(b: BatchRun, cancel_requested: bool)
    requires
        b.wf(),
        !b.stopped,
        b.next == b.jobs@.len(),
    ensures
        b.error is None,
        b.outputs@.len() == b.jobs@.len(),
        forall|i: int| 0 <= i < b.jobs@.len() ==> #[trigger] b.outputs@[i]@ == b.jobs@[i].output@,
        !(b.error is None && cancel_requested && b.outputs@.len() < b.jobs@.len()),
{
}

/// Three jobs whose sources are `0.input`, `1.input`, `2.input` and whose
/// outputs are `0.output`, `1.output`, `2.output`.
pub fn jobs() -> (r: Vec<Job>)
    ensures
        r@.len() == 3,
        forall|i: int| 0 <= i < 3 ==> #[trigger] r@[i].input@ == crate::text::decimal(i as nat)
            + ".input"@ && r@[i].output@ == crate::text::decimal(i as nat) + ".output"@,
{
    let mut r: Vec<Job> = Vec::new();
    let mut n: u64 = 0;
    while n < 3
        invariant
            n <= 3,
            r@.len() == n,
            forall|i: int| 0 <= i < n ==> #[trigger] r@[i].input@ == crate::text::decimal(i as nat)
                + ".input"@ && r@[i].output@ == crate::text::decimal(i as nat) + ".output"@,
        decreases 3 - n,
    {
        let mut input = decimal_string(n);
        input.append(".input");
        let mut output = decimal_string(n);
        output.append(".output");
        r.push(Job { input, output });
        n = n + 1;
    }
    r
}

} // verus!
