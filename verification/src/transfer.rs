//! The steps of encrypting or decrypting one file, as a state machine.
//!
//! The machine decides and the caller acts: it asks for one action at a
//! time (read the cancel flag, probe the output path, open the source,
//! create the temporary file, run a step of the age pipeline, commit or
//! discard the temporary) and is told how it went. Output is only ever
//! published by the final commit, after every step succeeded; once the
//! temporary file exists, every failure discards it first.
use vstd::prelude::*;
use vstd::string::StringExecFns;
use crate::job::Mode;
use crate::text::{join2, owned};

verus! {

/// Where the processing of one file stands.
#[derive(Clone, Copy, PartialEq, Eq, Debug, Structural)]
pub enum Stage {
    Start,
    Probe,
    Open,
    Inspect,
    Locate,
    Create,
    Prepare,
    CheckBeforeWrap,
    Wrap,
    Copy,
    Close,
    Header,
    Scheme,
    Unlock,
    CheckBeforeCopy,
    Flush,
    CheckAfterFlush,
    Sync,
    CheckAfterSync,
    Commit,
    Discard,
    Done,
    Failed,
}

/// What the caller is asked to do.
#[derive(Debug)]
pub enum TransferAction {
    /// Read the cancel flag and report it with `Flag`.
    CheckCancel,
    /// Report with `Flag` whether the output path is occupied, or `Failed`.
    ProbeOutput,
    /// Open the source for reading: `Done` or `Failed`.
    OpenSource,
    /// Read the source's metadata: `Source` or `Failed`.
    InspectSource,
    /// Report with `Flag` whether the output path has a parent folder.
    LocateFolder,
    /// Create the temporary file in the output folder: `Done` or `Failed`.
    CreateTemporary,
    /// Set up the encryptor: `Done` or `Failed`.
    PrepareEncryption,
    /// Start the age stream on the temporary file: `Done` or `Failed`.
    WrapOutput,
    /// Copy the stream: `Done`, or `Refused` with the copy's message.
    CopyStream,
    /// Finish the age stream: `Done` or `Failed`.
    FinishEncryption,
    /// Read the age header: `Done` or `Failed`.
    ReadHeader,
    /// Report with `Flag` whether the file is password-encrypted.
    CheckScheme,
    /// Derive the key: `Done`, or `Refused` with the unlock message.
    Unlock,
    /// Flush the output: `Done` or `Failed`.
    Flush,
    /// Sync the temporary file to disk: `Done` or `Failed`.
    Sync,
    /// Publish the temporary file under the output name without replacing
    /// anything: `Done` or `Failed`.
    Commit,
    /// Remove the temporary file: `Done` or `CleanupFailed`.
    Discard,
    /// Report `total` of `total` bytes done and succeed.
    Finish(u64),
    /// Stop with this message.
    Fail(String),
}

/// How the requested action went.
pub enum TransferEvent {
    Flag(bool),
    Source { is_file: bool, len: u64 },
    Done,
    /// The action failed; the outside error's description.
    Failed(String),
    /// The action failed with this complete message.
    Refused(String),
    /// The temporary file at `path` could not be removed.
    CleanupFailed { path: String, detail: String },
}

/// An action as the contracts see it.
pub enum Act {
    CheckCancel,
    ProbeOutput,
    OpenSource,
    InspectSource,
    LocateFolder,
    CreateTemporary,
    PrepareEncryption,
    WrapOutput,
    CopyStream,
    FinishEncryption,
    ReadHeader,
    CheckScheme,
    Unlock,
    Flush,
    Sync,
    Commit,
    Discard,
    Finish(u64),
    Fail(Seq<char>),
}

/// An event as the contracts see it.
pub enum Ev {
    Flag(bool),
    Source(bool, u64),
    Done,
    Failed(Seq<char>),
    Refused(Seq<char>),
    CleanupFailed(Seq<char>, Seq<char>),
}

pub open spec fn act_of(a: TransferAction) -> Act {
    match a {
        TransferAction::CheckCancel => Act::CheckCancel,
        TransferAction::ProbeOutput => Act::ProbeOutput,
        TransferAction::OpenSource => Act::OpenSource,
        TransferAction::InspectSource => Act::InspectSource,
        TransferAction::LocateFolder => Act::LocateFolder,
        TransferAction::CreateTemporary => Act::CreateTemporary,
        TransferAction::PrepareEncryption => Act::PrepareEncryption,
        TransferAction::WrapOutput => Act::WrapOutput,
        TransferAction::CopyStream => Act::CopyStream,
        TransferAction::FinishEncryption => Act::FinishEncryption,
        TransferAction::ReadHeader => Act::ReadHeader,
        TransferAction::CheckScheme => Act::CheckScheme,
        TransferAction::Unlock => Act::Unlock,
        TransferAction::Flush => Act::Flush,
        TransferAction::Sync => Act::Sync,
        TransferAction::Commit => Act::Commit,
        TransferAction::Discard => Act::Discard,
        TransferAction::Finish(t) => Act::Finish(t),
        TransferAction::Fail(m) => Act::Fail(m@),
    }
}

pub open spec fn ev_of(e: TransferEvent) -> Ev {
    match e {
        TransferEvent::Flag(b) => Ev::Flag(b),
        TransferEvent::Source { is_file, len } => Ev::Source(is_file, len),
        TransferEvent::Done => Ev::Done,
        TransferEvent::Failed(d) => Ev::Failed(d@),
        TransferEvent::Refused(m) => Ev::Refused(m@),
        TransferEvent::CleanupFailed { path, detail } => Ev::CleanupFailed(path@, detail@),
    }
}

/// The machine as the contracts see it.
pub struct Model {
    pub stage: Stage,
    pub mode: Mode,
    pub password_empty: bool,
    pub total: u64,
    pub error: Seq<char>,
}

/// Whether `e` is an answer to the action that `stage` asked for.
pub open spec fn fits(stage: Stage, e: Ev) -> bool {
    match stage {
        Stage::Start | Stage::Locate | Stage::Scheme | Stage::CheckBeforeWrap
        | Stage::CheckBeforeCopy | Stage::CheckAfterFlush | Stage::CheckAfterSync => e is Flag,
        Stage::Probe => e is Flag || e is Failed,
        Stage::Inspect => e is Source || e is Failed,
        Stage::Copy | Stage::Unlock => e is Done || e is Refused,
        Stage::Discard => e is Done || e is CleanupFailed,
        Stage::Done | Stage::Failed => false,
        _ => e is Done || e is Failed,
    }
}

pub open spec fn cleanup_text(error: Seq<char>, path: Seq<char>, detail: Seq<char>) -> Seq<char> {
    error + "\nCould not remove the temporary file "@ + path + ": "@ + detail
        + ". It may contain plaintext; remove it when it is no longer in use."@
}

/// The machine stops with `message` before any temporary file exists.
pub open spec fn stop(m: Model, message: Seq<char>) -> (Model, Act) {
    (Model { stage: Stage::Failed, ..m }, Act::Fail(message))
}

/// A step after the temporary file exists failed: discard it first.
pub open spec fn abandon(m: Model, message: Seq<char>) -> (Model, Act) {
    (Model { stage: Stage::Discard, error: message, ..m }, Act::Discard)
}

pub open spec fn go(m: Model, stage: Stage, a: Act) -> (Model, Act) {
    (Model { stage, ..m }, a)
}

pub open spec fn detail_of(e: Ev) -> Seq<char> {
    match e {
        Ev::Failed(d) => d,
        Ev::Refused(d) => d,
        _ => Seq::empty(),
    }
}

/// One transition: the next model and the next action.
pub open spec fn transition(m: Model, e: Ev) -> (Model, Act) {
    let ok = e is Done;
    match m.stage {
        Stage::Start => if e == Ev::Flag(true) {
            stop(m, "Cancelled."@)
        } else if m.mode == Mode::Encrypt && m.password_empty {
            stop(m, "An encryption password is required."@)
        } else {
            go(m, Stage::Probe, Act::ProbeOutput)
        },
        Stage::Probe => match e {
            Ev::Failed(d) => stop(m, "Could not inspect the output path: "@ + d),
            Ev::Flag(true) => stop(
                m,
                "The output file already exists. Nothing was overwritten; try again."@,
            ),
            _ => go(m, Stage::Open, Act::OpenSource),
        },
        Stage::Open => if ok {
            go(m, Stage::Inspect, Act::InspectSource)
        } else {
            stop(m, "Could not open the source file: "@ + detail_of(e))
        },
        Stage::Inspect => match e {
            Ev::Source(true, len) => (
                Model { stage: Stage::Locate, total: len, ..m },
                Act::LocateFolder,
            ),
            Ev::Source(false, _) => stop(m, "The input must be a regular file."@),
            _ => stop(m, detail_of(e)),
        },
        Stage::Locate => if e == Ev::Flag(true) {
            go(m, Stage::Create, Act::CreateTemporary)
        } else {
            stop(m, "The output needs a folder."@)
        },
        Stage::Create => if !ok {
            stop(m, "Could not create a file in the output folder: "@ + detail_of(e))
        } else if m.mode == Mode::Encrypt {
            go(m, Stage::Prepare, Act::PrepareEncryption)
        } else {
            go(m, Stage::Header, Act::ReadHeader)
        },
        Stage::Prepare => if ok {
            go(m, Stage::CheckBeforeWrap, Act::CheckCancel)
        } else {
            abandon(m, "Could not prepare encryption: "@ + detail_of(e))
        },
        Stage::CheckBeforeWrap => if e == Ev::Flag(true) {
            abandon(m, "Cancelled."@)
        } else {
            go(m, Stage::Wrap, Act::WrapOutput)
        },
        Stage::Wrap => if ok {
            go(m, Stage::Copy, Act::CopyStream)
        } else {
            abandon(m, detail_of(e))
        },
        Stage::Copy => if !ok {
            abandon(m, detail_of(e))
        } else if m.mode == Mode::Encrypt {
            go(m, Stage::Close, Act::FinishEncryption)
        } else {
            go(m, Stage::Flush, Act::Flush)
        },
        Stage::Close => if ok {
            go(m, Stage::Flush, Act::Flush)
        } else {
            abandon(m, "Could not finish encryption: "@ + detail_of(e))
        },
        Stage::Header => if ok {
            go(m, Stage::Scheme, Act::CheckScheme)
        } else {
            abandon(
                m,
                "This is not a supported age file, or its header is damaged. PicoCrypt .pcv files are not supported."@,
            )
        },
        Stage::Scheme => if e == Ev::Flag(true) {
            go(m, Stage::Unlock, Act::Unlock)
        } else {
            abandon(
                m,
                "This age file uses a recipient key. PebbleCrypt opens password-encrypted age files."@,
            )
        },
        Stage::Unlock => if ok {
            go(m, Stage::CheckBeforeCopy, Act::CheckCancel)
        } else {
            abandon(m, detail_of(e))
        },
        Stage::CheckBeforeCopy => if e == Ev::Flag(true) {
            abandon(m, "Cancelled."@)
        } else {
            go(m, Stage::Copy, Act::CopyStream)
        },
        Stage::Flush => if ok {
            go(m, Stage::CheckAfterFlush, Act::CheckCancel)
        } else {
            abandon(m, "Could not flush the output: "@ + detail_of(e))
        },
        Stage::CheckAfterFlush => if e == Ev::Flag(true) {
            abandon(m, "Cancelled."@)
        } else {
            go(m, Stage::Sync, Act::Sync)
        },
        Stage::Sync => if ok {
            go(m, Stage::CheckAfterSync, Act::CheckCancel)
        } else {
            abandon(m, "Could not save the output: "@ + detail_of(e))
        },
        Stage::CheckAfterSync => if e == Ev::Flag(true) {
            abandon(m, "Cancelled."@)
        } else {
            go(m, Stage::Commit, Act::Commit)
        },
        Stage::Commit => if ok {
            go(m, Stage::Done, Act::Finish(m.total))
        } else {
            abandon(
                m,
                "Could not finalize the output; existing files were preserved: "@ + detail_of(e),
            )
        },
        Stage::Discard => match e {
            Ev::CleanupFailed(path, detail) => stop(m, cleanup_text(m.error, path, detail)),
            _ => stop(m, m.error),
        },
        Stage::Done | Stage::Failed => (m, Act::Fail(m.error)),
    }
}

/// The stages at which the temporary file exists.
pub open spec fn holds_temporary(s: Stage) -> bool {
    match s {
        Stage::Prepare | Stage::CheckBeforeWrap | Stage::Wrap | Stage::Copy | Stage::Close
        | Stage::Header | Stage::Scheme | Stage::Unlock | Stage::CheckBeforeCopy | Stage::Flush
        | Stage::CheckAfterFlush | Stage::Sync | Stage::CheckAfterSync | Stage::Commit
        | Stage::Discard => true,
        _ => false,
    }
}

pub struct Transfer {
    pub stage: Stage,
    pub mode: Mode,
    pub password_empty: bool,
    pub total: u64,
    pub error: String,
}

impl Transfer {
    pub open spec fn model(&self) -> Model {
        Model {
            stage: self.stage,
            mode: self.mode,
            password_empty: self.password_empty,
            total: self.total,
            error: self.error@,
        }
    }

    /// A machine for one file in `mode` with `password`. Its first action is
    /// a cancellation check.
    pub fn new(mode: Mode, password: &str) -> (r: (Transfer, TransferAction))
        ensures
            r.0.model() == (Model {
                stage: Stage::Start,
                mode,
                password_empty: password@.len() == 0,
                total: 0,
                error: Seq::empty(),
            }),
            act_of(r.1) == Act::CheckCancel,
    {
        let password_empty = password.unicode_len() == 0;
        (
            Transfer { stage: Stage::Start, mode, password_empty, total: 0, error: String::new() },
            TransferAction::CheckCancel,
        )
    }

    /// Takes the answer to the last action and returns the next action.
    pub fn step(&mut self, event: TransferEvent) -> (a: TransferAction)
        requires
            fits(old(self).stage, ev_of(event)),
        ensures
            (final(self).model(), act_of(a)) == transition(old(self).model(), ev_of(event)),
    {
        let ghost e = ev_of(event);
        let ok = match &event {
            TransferEvent::Done => true,
            _ => false,
        };
        let failed = match &event {
            TransferEvent::Failed(_) => true,
            _ => false,
        };
        let flag = match &event {
            TransferEvent::Flag(b) => *b,
            _ => false,
        };
        let detail = match event {
            TransferEvent::Failed(d) => d,
            TransferEvent::Refused(d) => d,
            TransferEvent::Source { is_file, len } => {
                if self.stage == Stage::Inspect {
                    if is_file {
                        self.total = len;
                        self.stage = Stage::Locate;
                        return TransferAction::LocateFolder;
                    } else {
                        return self.stop(owned("The input must be a regular file."));
                    }
                }
                String::new()
            },
            TransferEvent::CleanupFailed { path, detail } => {
                let mut msg = join2(self.error.as_str(), "\nCould not remove the temporary file ");
                msg.append(path.as_str());
                msg.append(": ");
                msg.append(detail.as_str());
                msg.append(". It may contain plaintext; remove it when it is no longer in use.");
                return self.stop(msg);
            },
            _ => String::new(),
        };
        assert(detail@ == detail_of(e));
        match self.stage {
            Stage::Start => if flag {
                self.stop(owned("Cancelled."))
            } else if self.mode == Mode::Encrypt && self.password_empty {
                self.stop(owned("An encryption password is required."))
            } else {
                self.go(Stage::Probe, TransferAction::ProbeOutput)
            },
            Stage::Probe => if failed {
                self.stop(join2("Could not inspect the output path: ", detail.as_str()))
            } else if flag {
                self.stop(owned("The output file already exists. Nothing was overwritten; try again."))
            } else {
                self.go(Stage::Open, TransferAction::OpenSource)
            },
            Stage::Open => if ok {
                self.go(Stage::Inspect, TransferAction::InspectSource)
            } else {
                self.stop(join2("Could not open the source file: ", detail.as_str()))
            },
            Stage::Inspect => self.stop(detail),
            Stage::Locate => if flag {
                self.go(Stage::Create, TransferAction::CreateTemporary)
            } else {
                self.stop(owned("The output needs a folder."))
            },
            Stage::Create => if !ok {
                self.stop(join2("Could not create a file in the output folder: ", detail.as_str()))
            } else if self.mode == Mode::Encrypt {
                self.go(Stage::Prepare, TransferAction::PrepareEncryption)
            } else {
                self.go(Stage::Header, TransferAction::ReadHeader)
            },
            Stage::Prepare => if ok {
                self.go(Stage::CheckBeforeWrap, TransferAction::CheckCancel)
            } else {
                self.abandon(join2("Could not prepare encryption: ", detail.as_str()))
            },
            Stage::CheckBeforeWrap => if flag {
                self.abandon(owned("Cancelled."))
            } else {
                self.go(Stage::Wrap, TransferAction::WrapOutput)
            },
            Stage::Wrap => if ok {
                self.go(Stage::Copy, TransferAction::CopyStream)
            } else {
                self.abandon(detail)
            },
            Stage::Copy => if !ok {
                self.abandon(detail)
            } else if self.mode == Mode::Encrypt {
                self.go(Stage::Close, TransferAction::FinishEncryption)
            } else {
                self.go(Stage::Flush, TransferAction::Flush)
            },
            Stage::Close => if ok {
                self.go(Stage::Flush, TransferAction::Flush)
            } else {
                self.abandon(join2("Could not finish encryption: ", detail.as_str()))
            },
            Stage::Header => if ok {
                self.go(Stage::Scheme, TransferAction::CheckScheme)
            } else {
                self.abandon(owned(
                    "This is not a supported age file, or its header is damaged. PicoCrypt .pcv files are not supported.",
                ))
            },
            Stage::Scheme => if flag {
                self.go(Stage::Unlock, TransferAction::Unlock)
            } else {
                self.abandon(owned(
                    "This age file uses a recipient key. PebbleCrypt opens password-encrypted age files.",
                ))
            },
            Stage::Unlock => if ok {
                self.go(Stage::CheckBeforeCopy, TransferAction::CheckCancel)
            } else {
                self.abandon(detail)
            },
            Stage::CheckBeforeCopy => if flag {
                self.abandon(owned("Cancelled."))
            } else {
                self.go(Stage::Copy, TransferAction::CopyStream)
            },
            Stage::Flush => if ok {
                self.go(Stage::CheckAfterFlush, TransferAction::CheckCancel)
            } else {
                self.abandon(join2("Could not flush the output: ", detail.as_str()))
            },
            Stage::CheckAfterFlush => if flag {
                self.abandon(owned("Cancelled."))
            } else {
                self.go(Stage::Sync, TransferAction::Sync)
            },
            Stage::Sync => if ok {
                self.go(Stage::CheckAfterSync, TransferAction::CheckCancel)
            } else {
                self.abandon(join2("Could not save the output: ", detail.as_str()))
            },
            Stage::CheckAfterSync => if flag {
                self.abandon(owned("Cancelled."))
            } else {
                self.go(Stage::Commit, TransferAction::Commit)
            },
            Stage::Commit => if ok {
                let t = self.total;
                self.go(Stage::Done, TransferAction::Finish(t))
            } else {
                self.abandon(join2(
                    "Could not finalize the output; existing files were preserved: ",
                    detail.as_str(),
                ))
            },
            Stage::Discard => {
                let msg = self.error.clone();
                self.stop(msg)
            },
            Stage::Done | Stage::Failed => {
                assert(false);
                TransferAction::Fail(String::new())
            },
        }
    }

    fn stop(&mut self, message: String) -> (a: TransferAction)
        ensures
            (final(self).model(), act_of(a)) == stop(old(self).model(), message@),
    {
        self.stage = Stage::Failed;
        TransferAction::Fail(message)
    }

    fn abandon(&mut self, message: String) -> (a: TransferAction)
        ensures
            (final(self).model(), act_of(a)) == abandon(old(self).model(), message@),
    {
        self.stage = Stage::Discard;
        self.error = message;
        TransferAction::Discard
    }

    fn go(&mut self, stage: Stage, a: TransferAction) -> (r: TransferAction)
        ensures
            final(self).model() == (Model { stage, ..old(self).model() }),
            r == a,
    {
        self.stage = stage;
        a
    }
}

/// Output is published only by a commit, and a commit is asked for only
/// after the last cancellation check passed, which follows a successful
/// sync, flush and copy.
pub proof fn lemma_commit_only_after_sync(m: Model, e: Ev)
    requires
        fits(m.stage, e),
        transition(m, e).1 == Act::Commit,
    ensures
        m.stage == Stage::CheckAfterSync,
        e == Ev::Flag(false),
{
}

/// The source is opened only after the output path was found free, and
/// the temporary file is created only once the output has a folder.
pub proof fn lemma_source_opened_only_for_free_output(m: Model, e: Ev)
    requires
        fits(m.stage, e),
    ensures
        transition(m, e).1 == Act::OpenSource ==> m.stage == Stage::Probe && e == Ev::Flag(false),
        transition(m, e).1 == Act::CreateTemporary ==> m.stage == Stage::Locate && e == Ev::Flag(
            true,
        ),
        transition(m, e).1 == Act::ProbeOutput ==> m.stage == Stage::Start && e == Ev::Flag(false)
            && !(m.mode == Mode::Encrypt && m.password_empty),
{
}

/// Success is reported only after the commit succeeded.
pub proof fn lemma_finish_only_after_commit(m: Model, e: Ev)
    requires
        fits(m.stage, e),
        transition(m, e).1 is Finish,
    ensures
        m.stage == Stage::Commit,
        e == Ev::Done,
        transition(m, e).1 == Act::Finish(m.total),
{
}

/// Once the temporary file exists, every failure discards it before the
/// machine stops, and the failure's message is kept for the final error.
pub proof fn lemma_failures_discard_temporary(m: Model, e: Ev)
    requires
        holds_temporary(m.stage),
        m.stage != Stage::Discard,
        fits(m.stage, e),
        !(transition(m, e).0.stage == Stage::Done),
        transition(m, e).0.stage == Stage::Failed || transition(m, e).1 is Fail || transition(
            m,
            e,
        ).0.stage == Stage::Discard,
    ensures
        transition(m, e).0.stage == Stage::Discard,
        transition(m, e).1 == Act::Discard,
{
}

/// Before the temporary file exists nothing is discarded: failures stop at
/// once with their message.
pub proof fn lemma_early_failures_stop(m: Model, e: Ev)
    requires
        !holds_temporary(m.stage),
        m.stage != Stage::Done,
        m.stage != Stage::Failed,
        fits(m.stage, e),
    ensures
        transition(m, e).1 != Act::Discard,
{
}

/// A discard always ends the machine with the failure's message, followed
/// by the temporary file's path when it could not be removed.
pub proof fn lemma_discard_reports(m: Model, e: Ev)
    requires
        m.stage == Stage::Discard,
        fits(m.stage, e),
    ensures
        transition(m, e).0.stage == Stage::Failed,
        e == Ev::Done ==> transition(m, e).1 == Act::Fail(m.error),
        e matches Ev::CleanupFailed(p, d) ==> transition(m, e).1 == Act::Fail(
            cleanup_text(m.error, p, d),
        ),
{
}

/// The machine as [`Transfer::new`] makes it.
pub open spec fn fresh(mode: Mode, password_empty: bool) -> Model {
    Model { stage: Stage::Start, mode, password_empty, total: 0, error: Seq::empty() }
}

/// The model reached from `m` by answering `events` in turn.
pub open spec fn after(m: Model, events: Seq<Ev>) -> Model
    decreases events.len(),
{
    if events.len() == 0 {
        m
    } else {
        transition(after(m, events.drop_last()), events.last()).0
    }
}

/// For a machine `m` as [`Transfer::new`] makes it, answered by `events`:
/// the action that `events[k]` answers (for `k == events.len()`, the action
/// still awaiting an answer). The first is the cancellation check that
/// `new` returns; each later one is what the previous answer produced.
pub open spec fn requested(m: Model, events: Seq<Ev>, k: int) -> Act {
    if k <= 0 {
        Act::CheckCancel
    } else {
        transition(after(m, events.take(k - 1)), events[k - 1]).1
    }
}

/// Every answer is one the action it answers allows.
pub open spec fn well_answered(m: Model, events: Seq<Ev>) -> bool {
    forall|k: int|
        0 <= k < events.len() ==> #[trigger] fits(after(m, events.take(k)).stage, events[k])
}

/// The action a live stage is waiting on.
spec fn stage_action(s: Stage) -> Act {
    match s {
        Stage::Start => Act::CheckCancel,
        Stage::Probe => Act::ProbeOutput,
        Stage::Open => Act::OpenSource,
        Stage::Inspect => Act::InspectSource,
        Stage::Locate => Act::LocateFolder,
        Stage::Create => Act::CreateTemporary,
        Stage::Prepare => Act::PrepareEncryption,
        Stage::CheckBeforeWrap => Act::CheckCancel,
        Stage::Wrap => Act::WrapOutput,
        Stage::Copy => Act::CopyStream,
        Stage::Close => Act::FinishEncryption,
        Stage::Header => Act::ReadHeader,
        Stage::Scheme => Act::CheckScheme,
        Stage::Unlock => Act::Unlock,
        Stage::CheckBeforeCopy => Act::CheckCancel,
        Stage::Flush => Act::Flush,
        Stage::CheckAfterFlush => Act::CheckCancel,
        Stage::Sync => Act::Sync,
        Stage::CheckAfterSync => Act::CheckCancel,
        Stage::Commit => Act::Commit,
        Stage::Discard => Act::Discard,
        Stage::Done => Act::Finish(0),
        Stage::Failed => Act::Fail(Seq::empty()),
    }
}

/// The stage and the action it hands out agree.
spec fn consistent(s: Stage, a: Act) -> bool {
    match s {
        Stage::Done => a is Finish,
        Stage::Failed => a is Fail,
        _ => a == stage_action(s),
    }
}

/// The stages reached only after the encryption stream was finished.
spec fn stream_finished(s: Stage) -> bool {
    match s {
        Stage::Flush | Stage::CheckAfterFlush | Stage::Sync | Stage::CheckAfterSync
        | Stage::Commit | Stage::Done => true,
        _ => false,
    }
}

/// The stages reached only after the whole stream was copied.
spec fn stream_copied(s: Stage) -> bool {
    stream_finished(s) || s == Stage::Close
}

proof fn lemma_step_consistent(m: Model, e: Ev)
    requires
        fits(m.stage, e),
    ensures
        consistent(transition(m, e).0.stage, transition(m, e).1),
        transition(m, e).0.mode == m.mode,
{
}

proof fn lemma_enter_finished(m: Model, e: Ev)
    requires
        fits(m.stage, e),
        m.mode == Mode::Encrypt,
        !stream_finished(m.stage),
        stream_finished(transition(m, e).0.stage),
    ensures
        m.stage == Stage::Close,
        e == Ev::Done,
{
}

proof fn lemma_enter_copied(m: Model, e: Ev)
    requires
        fits(m.stage, e),
        !stream_copied(m.stage),
        stream_copied(transition(m, e).0.stage),
    ensures
        m.stage == Stage::Copy,
        e == Ev::Done,
{
}

proof fn lemma_unfold(m: Model, events: Seq<Ev>, k: int)
    requires
        0 <= k < events.len(),
    ensures
        after(m, events.take(k + 1)) == transition(after(m, events.take(k)), events[k]).0,
        requested(m, events, k + 1) == transition(after(m, events.take(k)), events[k]).1,
{
    assert(events.take(k + 1).drop_last() =~= events.take(k));
    assert(events.take(k + 1).last() == events[k]);
}

proof fn lemma_run(mode: Mode, password_empty: bool, events: Seq<Ev>, k: int)
    requires
        well_answered(fresh(mode, password_empty), events),
        0 <= k <= events.len(),
    ensures
        consistent(
            after(fresh(mode, password_empty), events.take(k)).stage,
            requested(fresh(mode, password_empty), events, k),
        ),
        after(fresh(mode, password_empty), events.take(k)).mode == mode,
    decreases k,
{
    let m = fresh(mode, password_empty);
    if k == 0 {
        assert(events.take(0) =~= Seq::<Ev>::empty());
    } else {
        lemma_run(mode, password_empty, events, k - 1);
        lemma_unfold(m, events, k - 1);
        assert(fits(after(m, events.take(k - 1)).stage, events[k - 1]));
        lemma_step_consistent(after(m, events.take(k - 1)), events[k - 1]);
    }
}

proof fn lemma_finished_witness(password_empty: bool, events: Seq<Ev>, k: int)
    requires
        well_answered(fresh(Mode::Encrypt, password_empty), events),
        0 <= k <= events.len(),
        stream_finished(after(fresh(Mode::Encrypt, password_empty), events.take(k)).stage),
    ensures
        exists|i: int|
            0 <= i < k && requested(fresh(Mode::Encrypt, password_empty), events, i)
                == Act::FinishEncryption && events[i] == Ev::Done,
    decreases k,
{
    let m = fresh(Mode::Encrypt, password_empty);
    if k == 0 {
        assert(events.take(0) =~= Seq::<Ev>::empty());
    } else {
        let prev = after(m, events.take(k - 1));
        lemma_unfold(m, events, k - 1);
        lemma_run(Mode::Encrypt, password_empty, events, k - 1);
        assert(fits(prev.stage, events[k - 1]));
        if stream_finished(prev.stage) {
            lemma_finished_witness(password_empty, events, k - 1);
            let i = choose|i: int|
                0 <= i < k - 1 && requested(m, events, i) == Act::FinishEncryption && events[i]
                    == Ev::Done;
            assert(0 <= i < k);
        } else {
            lemma_enter_finished(prev, events[k - 1]);
            assert(requested(m, events, k - 1) == Act::FinishEncryption);
        }
    }
}

proof fn lemma_copied_witness(mode: Mode, password_empty: bool, events: Seq<Ev>, k: int)
    requires
        well_answered(fresh(mode, password_empty), events),
        0 <= k <= events.len(),
        stream_copied(after(fresh(mode, password_empty), events.take(k)).stage),
    ensures
        exists|i: int|
            0 <= i < k && requested(fresh(mode, password_empty), events, i) == Act::CopyStream
                && events[i] == Ev::Done,
    decreases k,
{
    let m = fresh(mode, password_empty);
    if k == 0 {
        assert(events.take(0) =~= Seq::<Ev>::empty());
    } else {
        let prev = after(m, events.take(k - 1));
        lemma_unfold(m, events, k - 1);
        lemma_run(mode, password_empty, events, k - 1);
        assert(fits(prev.stage, events[k - 1]));
        if stream_copied(prev.stage) {
            lemma_copied_witness(mode, password_empty, events, k - 1);
            let i = choose|i: int|
                0 <= i < k - 1 && requested(m, events, i) == Act::CopyStream && events[i]
                    == Ev::Done;
            assert(0 <= i < k);
        } else {
            lemma_enter_copied(prev, events[k - 1]);
            assert(requested(m, events, k - 1) == Act::CopyStream);
        }
    }
}

/// An encrypted file is published only as a complete age file: whatever
/// the answers, a commit is requested in encryption only after finishing
/// the age stream was requested and succeeded.
pub proof fn lemma_commit_after_finished_encryption(
    password_empty: bool,
    events: Seq<Ev>,
    j: int,
)
    requires
        well_answered(fresh(Mode::Encrypt, password_empty), events),
        0 <= j <= events.len(),
        requested(fresh(Mode::Encrypt, password_empty), events, j) == Act::Commit,
    ensures
        exists|i: int|
            0 <= i < j && requested(fresh(Mode::Encrypt, password_empty), events, i)
                == Act::FinishEncryption && events[i] == Ev::Done,
{
    lemma_run(Mode::Encrypt, password_empty, events, j);
    lemma_finished_witness(password_empty, events, j);
}

/// In encryption, a copy that went through is always followed by finishing
/// the age stream.
pub proof fn lemma_copied_encryption_is_finished(password_empty: bool, events: Seq<Ev>, i: int)
    requires
        well_answered(fresh(Mode::Encrypt, password_empty), events),
        0 <= i < events.len(),
        requested(fresh(Mode::Encrypt, password_empty), events, i) == Act::CopyStream,
        events[i] == Ev::Done,
    ensures
        requested(fresh(Mode::Encrypt, password_empty), events, i + 1) == Act::FinishEncryption,
{
    lemma_run(Mode::Encrypt, password_empty, events, i);
    lemma_unfold(fresh(Mode::Encrypt, password_empty), events, i);
}

/// Success needs the whole stream: in either mode, success is reported
/// only along a run in which the copy was requested and went through.
pub proof fn lemma_finish_after_complete_copy(
    mode: Mode,
    password_empty: bool,
    events: Seq<Ev>,
    j: int,
)
    requires
        well_answered(fresh(mode, password_empty), events),
        0 <= j <= events.len(),
        requested(fresh(mode, password_empty), events, j) is Finish,
    ensures
        exists|i: int|
            0 <= i < j && requested(fresh(mode, password_empty), events, i) == Act::CopyStream
                && events[i] == Ev::Done,
{
    lemma_run(mode, password_empty, events, j);
    lemma_copied_witness(mode, password_empty, events, j);
}

/// In either mode, a copy that did not go through (a read, authentication
/// or write failure, or a cancellation) discards the temporary file next.
pub proof fn lemma_failed_copy_discards(mode: Mode, password_empty: bool, events: Seq<Ev>, i: int)
    requires
        well_answered(fresh(mode, password_empty), events),
        0 <= i < events.len(),
        requested(fresh(mode, password_empty), events, i) == Act::CopyStream,
        events[i] != Ev::Done,
    ensures
        requested(fresh(mode, password_empty), events, i + 1) == Act::Discard,
{
    lemma_run(mode, password_empty, events, i);
    lemma_unfold(fresh(mode, password_empty), events, i);
    assert(fits(after(fresh(mode, password_empty), events.take(i)).stage, events[i]));
}

} // verus!
