//! The state of the window, apart from drawing: the queue of files, the
//! password fields, the form's validation, and what a running or finished
//! batch shows.
use vstd::prelude::*;
use vstd::string::StringExecFns;
use crate::job::Mode;
use crate::naming::{has_age_ext, has_age_extension, action_word};
use crate::password::wipe_string;
use crate::text::{decimal, contains_string, holds, owned, join2, join3, push_decimal};

verus! {

/// A file picked or dropped onto the window, as found on disk: its
/// canonical path, its file name and its size in bytes.
pub struct AddedFile {
    pub path: String,
    pub name: String,
    pub size: u64,
}

/// The state of the window. `progress` is in thousandths of the batch.
pub struct Session {
    pub mode: Mode,
    pub files: Vec<String>,
    pub file_sizes: Vec<u64>,
    pub destination: Option<String>,
    pub password: String,
    pub confirmation: String,
    pub show_password: bool,
    pub generated: bool,
    pub password_saved: bool,
    pub busy: bool,
    pub progress: u32,
    pub status: String,
    pub error: bool,
    pub outputs: Vec<String>,
    pub password_epoch: u64,
}

/// The whole batch, in thousandths.
pub const PROGRESS_COMPLETE: u32 = 1000;

/// The fewest characters an encryption password may have.
pub const MIN_PASSWORD_CHARS: usize = 12;

pub open spec fn ready_text() -> Seq<char> {
    "Ready when you are."@
}

/// The epoch after `e`, wrapping around.
pub open spec fn next_epoch(e: u64) -> u64 {
    if e == u64::MAX { 0 } else { (e + 1) as u64 }
}

pub open spec fn paths(v: Seq<String>) -> Seq<Seq<char>> {
    v.map_values(|s: String| s@)
}

/// The files queued after adding `picked` to `files`, in order, each path
/// once.
pub open spec fn merged(files: Seq<Seq<char>>, picked: Seq<Option<AddedFile>>) -> Seq<Seq<char>>
    decreases picked.len(),
{
    if picked.len() == 0 {
        files
    } else {
        let before = merged(files, picked.drop_last());
        match picked.last() {
            Some(a) => if before.contains(a.path@) {
                before
            } else {
                before.push(a.path@)
            },
            None => before,
        }
    }
}

/// The sizes queued alongside [`merged`].
pub open spec fn merged_sizes(
    files: Seq<Seq<char>>,
    sizes: Seq<u64>,
    picked: Seq<Option<AddedFile>>,
) -> Seq<u64>
    decreases picked.len(),
{
    if picked.len() == 0 {
        sizes
    } else {
        let before = merged(files, picked.drop_last());
        let before_sizes = merged_sizes(files, sizes, picked.drop_last());
        match picked.last() {
            Some(a) => if before.contains(a.path@) {
                before_sizes
            } else {
                before_sizes.push(a.size)
            },
            None => before_sizes,
        }
    }
}

/// Whether every newly queued file has the `.age` extension.
pub open spec fn new_all_age(files: Seq<Seq<char>>, picked: Seq<Option<AddedFile>>) -> bool
    decreases picked.len(),
{
    if picked.len() == 0 {
        true
    } else {
        let before = merged(files, picked.drop_last());
        new_all_age(files, picked.drop_last()) && match picked.last() {
            Some(a) => before.contains(a.path@) || has_age_extension(a.name@),
            None => true,
        }
    }
}

/// Whether a picked entry could not be queued (it was not a file).
pub open spec fn rejected_any(picked: Seq<Option<AddedFile>>) -> bool {
    exists|i: int| 0 <= i < picked.len() && picked[i] is None
}

pub open spec fn sum_sizes(sizes: Seq<u64>) -> nat
    decreases sizes.len(),
{
    if sizes.len() == 0 {
        0
    } else {
        sum_sizes(sizes.drop_last()) + sizes.last() as nat
    }
}

/// The queue's total as shown: the sum of the sizes, stopping at
/// `u64::MAX`.
pub open spec fn capped_total(sizes: Seq<u64>) -> nat {
    if sum_sizes(sizes) > u64::MAX {
        u64::MAX as nat
    } else {
        sum_sizes(sizes)
    }
}

/// The completion text of a finished batch with `n` kept outputs.
pub open spec fn finished_text(mode: Mode, n: nat, error: Option<Seq<char>>, cancelled: bool) -> Seq<char> {
    match error {
        Some(m) => m + "\n"@ + decimal(n) + " completed file(s) kept. Originals are unchanged."@,
        None => if cancelled {
            "Cancelled. "@ + decimal(n) + " completed file(s) kept. Originals are unchanged."@
        } else {
            "All done. "@ + decimal(n) + " file(s) "@ + action_word(mode)
                + ". Originals are unchanged."@
        },
    }
}

impl Session {
    pub open spec fn wf(&self) -> bool {
        &&& self.files@.len() == self.file_sizes@.len()
        &&& forall|i: int, j: int|
            0 <= i < j < self.files@.len() ==> self.files@[i]@ != self.files@[j]@
        &&& self.progress <= PROGRESS_COMPLETE
    }

    /// What keeps the form from starting, if anything.
    pub open spec fn issue(&self) -> Option<Seq<char>> {
        if self.files@.len() == 0 {
            Some("Add files to get started."@)
        } else if self.password@.len() == 0 {
            Some("Enter your password."@)
        } else if self.mode == Mode::Encrypt && self.password@.len() < MIN_PASSWORD_CHARS {
            Some("Use at least 12 characters; a long, unique passphrase is best."@)
        } else if self.mode == Mode::Encrypt && self.password@ != self.confirmation@ {
            Some("The two passwords must match."@)
        } else if self.mode == Mode::Encrypt && self.generated && !self.password_saved {
            Some("Save the generated password and check its confirmation box."@)
        } else {
            None
        }
    }

    /// The password fields were wiped and their edit history retired.
    pub open spec fn secrets_cleared(&self, before: &Session) -> bool {
        &&& self.password@.len() == 0
        &&& self.confirmation@.len() == 0
        &&& !self.show_password
        &&& !self.generated
        &&& !self.password_saved
        &&& self.password_epoch == next_epoch(before.password_epoch)
    }

    pub open spec fn same_secrets(&self, o: &Session) -> bool {
        &&& self.password@ == o.password@
        &&& self.confirmation@ == o.confirmation@
        &&& self.show_password == o.show_password
        &&& self.generated == o.generated
        &&& self.password_saved == o.password_saved
        &&& self.password_epoch == o.password_epoch
    }

    pub open spec fn same_queue(&self, o: &Session) -> bool {
        &&& self.mode == o.mode
        &&& self.files@ == o.files@
        &&& self.file_sizes@ == o.file_sizes@
        &&& self.destination == o.destination
        &&& self.busy == o.busy
    }

    pub open spec fn same_results(&self, o: &Session) -> bool {
        &&& self.progress == o.progress
        &&& self.status@ == o.status@
        &&& self.error == o.error
        &&& self.outputs@ == o.outputs@
    }

    /// The results were reset to the ready state.
    pub open spec fn results_reset(&self) -> bool {
        &&& self.progress == 0
        &&& self.status@ == ready_text()
        &&& !self.error
        &&& self.outputs@.len() == 0
    }

    /// An empty window (status left empty).
    pub fn blank() -> (s: Session)
        ensures
            s.wf(),
            s.mode == Mode::Encrypt,
            s.files@.len() == 0,
            s.destination is None,
            s.password@.len() == 0,
            s.confirmation@.len() == 0,
            !s.show_password && !s.generated && !s.password_saved && !s.busy && !s.error,
            s.progress == 0,
            s.status@.len() == 0,
            s.outputs@.len() == 0,
            s.password_epoch == 0,
    {
        Session {
            mode: Mode::Encrypt,
            files: Vec::new(),
            file_sizes: Vec::new(),
            destination: None,
            password: String::new(),
            confirmation: String::new(),
            show_password: false,
            generated: false,
            password_saved: false,
            busy: false,
            progress: 0,
            status: String::new(),
            error: false,
            outputs: Vec::new(),
            password_epoch: 0,
        }
    }

    /// The window as it opens, ready for files.
    pub fn opening() -> (s: Session)
        ensures
            s.wf(),
            s.files@.len() == 0,
            s.status@ == ready_text(),
            !s.busy && !s.error,
    {
        let mut s = Session::blank();
        s.status = owned("Ready when you are.");
        s
    }

    /// A batch is running.
    pub fn is_busy(&self) -> (r: bool)
        ensures
            r == self.busy,
    {
        self.busy
    }

    /// Wipes both password fields and resets the password flags. The epoch
    /// moves on so the fields' edit history can be discarded.
    pub fn clear_password(&mut self)
        requires
            old(self).wf(),
        ensures
            final(self).wf(),
            final(self).secrets_cleared(old(self)),
            final(self).same_queue(old(self)),
            final(self).same_results(old(self)),
    {
        wipe_string(&mut self.password);
        wipe_string(&mut self.confirmation);
        self.password_epoch = if self.password_epoch == u64::MAX { 0 } else { self.password_epoch + 1 };
        self.show_password = false;
        self.generated = false;
        self.password_saved = false;
    }

    /// Empties the queue and the results, and clears the password.
    pub fn clear_files(&mut self)
        requires
            old(self).wf(),
        ensures
            final(self).wf(),
            final(self).files@.len() == 0,
            final(self).file_sizes@.len() == 0,
            final(self).results_reset(),
            final(self).secrets_cleared(old(self)),
            final(self).mode == old(self).mode,
            final(self).destination == old(self).destination,
            final(self).busy == old(self).busy,
    {
        self.files.clear();
        self.file_sizes.clear();
        self.outputs.clear();
        self.progress = 0;
        self.error = false;
        self.status = owned("Ready when you are.");
        self.clear_password();
    }

    /// Switches the mode; a real switch clears the password and the results.
    pub fn set_mode(&mut self, mode: Mode)
        requires
            old(self).wf(),
        ensures
            final(self).wf(),
            final(self).mode == mode,
            old(self).mode == mode ==> final(self).same_queue(old(self)) && final(self).same_secrets(
                old(self),
            ) && final(self).same_results(old(self)),
            old(self).mode != mode ==> {
                &&& final(self).secrets_cleared(old(self))
                &&& final(self).results_reset()
                &&& final(self).files@ == old(self).files@
                &&& final(self).file_sizes@ == old(self).file_sizes@
                &&& final(self).destination == old(self).destination
                &&& final(self).busy == old(self).busy
            },
    {
        if self.mode != mode {
            self.mode = mode;
            self.clear_password();
            self.outputs.clear();
            self.progress = 0;
            self.error = false;
            self.status = owned("Ready when you are.");
        }
    }

    /// The password field was edited by hand: the password is no longer
    /// the generated one, so the generated and saved marks are dropped.
    pub fn password_edited(&mut self)
        requires
            old(self).wf(),
        ensures
            final(self).wf(),
            !final(self).generated,
            !final(self).password_saved,
            final(self).password@ == old(self).password@,
            final(self).confirmation@ == old(self).confirmation@,
            final(self).show_password == old(self).show_password,
            final(self).password_epoch == old(self).password_epoch,
            final(self).same_queue(old(self)),
            final(self).same_results(old(self)),
    {
        self.generated = false;
        self.password_saved = false;
    }

    /// Puts a generated password into both fields and shows it.
    pub fn set_generated_password(&mut self, password: String)
        requires
            old(self).wf(),
        ensures
            final(self).wf(),
            final(self).password@ == password@,
            final(self).confirmation@ == password@,
            final(self).show_password,
            final(self).generated,
            !final(self).password_saved,
            final(self).password_epoch == next_epoch(old(self).password_epoch),
            final(self).same_queue(old(self)),
            final(self).same_results(old(self)),
    {
        self.clear_password();
        self.confirmation = password.clone();
        self.password = password;
        self.show_password = true;
        self.generated = true;
    }

    /// The combined size of the queued files, saturating at `u64::MAX`.
    pub fn total_file_size(&self) -> (r: u64)
        ensures
            r == (if sum_sizes(self.file_sizes@) > u64::MAX {
                u64::MAX as nat
            } else {
                sum_sizes(self.file_sizes@)
            }),
            r == capped_total(self.file_sizes@),
    {
        let mut total: u64 = 0;
        let mut i: usize = 0;
        while i < self.file_sizes.len()
            invariant
                i <= self.file_sizes@.len(),
                total == (if sum_sizes(self.file_sizes@.subrange(0, i as int)) > u64::MAX {
                    u64::MAX as nat
                } else {
                    sum_sizes(self.file_sizes@.subrange(0, i as int))
                }),
            decreases self.file_sizes@.len() - i,
        {
            let s = self.file_sizes[i];
            assert(self.file_sizes@.subrange(0, i + 1).drop_last() =~= self.file_sizes@.subrange(
                0,
                i as int,
            ));
            total = total.saturating_add(s);
            i = i + 1;
        }
        assert(self.file_sizes@.subrange(0, i as int) =~= self.file_sizes@);
        total
    }

    /// What keeps the form from starting, if anything.
    pub fn validation(&self) -> (r: Option<&'static str>)
        ensures
            match r {
                Some(m) => self.issue() == Some(m@),
                None => self.issue() is None,
            },
    {
        if self.files.len() == 0 {
            return Some("Add files to get started.");
        }
        if self.password.as_str().unicode_len() == 0 {
            return Some("Enter your password.");
        }
        if self.mode == Mode::Encrypt {
            if self.password.as_str().unicode_len() < MIN_PASSWORD_CHARS {
                return Some("Use at least 12 characters; a long, unique passphrase is best.");
            }
            if self.password != self.confirmation {
                return Some("The two passwords must match.");
            }
            if self.generated && !self.password_saved {
                return Some("Save the generated password and check its confirmation box.");
            }
        }
        None
    }

    /// The window shows a result: an error, kept outputs, or a cancellation.
    pub fn has_result(&self) -> (r: bool)
        ensures
            r == (self.error || self.outputs@.len() > 0 || (self.status@.len() >= 10
                && self.status@.subrange(0, 10) == "Cancelled."@)),
    {
        if self.error || self.outputs.len() > 0 {
            return true;
        }
        let n = self.status.as_str().unicode_len();
        if n < 10 {
            return false;
        }
        let head = self.status.as_str().substring_char(0, 10);
        crate::text::str_eq(head, "Cancelled.")
    }

    /// The validation hint shown under the start button: only while no
    /// result is shown.
    pub fn hint(&self) -> (r: Option<&'static str>)
        ensures
            match r {
                Some(m) => self.issue() == Some(m@) && !(self.error || self.outputs@.len() > 0 || (
                self.status@.len() >= 10 && self.status@.subrange(0, 10) == "Cancelled."@)),
                None => self.issue() is None || self.error || self.outputs@.len() > 0 || (
                self.status@.len() >= 10 && self.status@.subrange(0, 10) == "Cancelled."@),
            },
    {
        if self.has_result() {
            None
        } else {
            self.validation()
        }
    }

    /// Adds picked files to the queue. Each entry is a file found on disk,
    /// or `None` for something that is not a file. Nothing changes while a
    /// batch runs or when nothing was picked. Filling an empty queue picks
    /// the mode: decryption when every new file ends in `.age`.
    pub fn add_files(&mut self, picked: Vec<Option<AddedFile>>)
        requires
            old(self).wf(),
        ensures
            final(self).wf(),
            old(self).busy || picked@.len() == 0 ==> *final(self) == *old(self),
            !old(self).busy && picked@.len() > 0 ==> {
                let files = merged(paths(old(self).files@), picked@);
                let was_empty = old(self).files@.len() == 0;
                let switching = was_empty && files.len() > 0;
                let mode = if new_all_age(paths(old(self).files@), picked@) {
                    Mode::Decrypt
                } else {
                    Mode::Encrypt
                };
                &&& paths(final(self).files@) == files
                &&& final(self).file_sizes@ == merged_sizes(
                    paths(old(self).files@),
                    old(self).file_sizes@,
                    picked@,
                )
                &&& final(self).mode == (if switching { mode } else { old(self).mode })
                &&& (switching && mode != old(self).mode) ==> final(self).secrets_cleared(old(self))
                &&& !(switching && mode != old(self).mode) ==> final(self).same_secrets(old(self))
                &&& final(self).destination == old(self).destination
                &&& !final(self).busy
                &&& final(self).outputs@.len() == 0
                &&& final(self).progress == 0
                &&& final(self).error == rejected_any(picked@)
                &&& final(self).status@ == (if rejected_any(picked@) {
                    "Folders cannot be added directly. Zip a folder first."@
                } else {
                    "Files added. Set your password to continue."@
                })
            },
    {
        if self.busy || picked.len() == 0 {
            return;
        }
        let ghost start = paths(self.files@);
        let ghost start_sizes = self.file_sizes@;
        let was_empty = self.files.len() == 0;
        let mut rejected = false;
        let mut all_age = true;
        let mut i: usize = 0;
        let n = picked.len();
        let ghost all = picked@;
        assert(all.subrange(0, 0) =~= Seq::<Option<AddedFile>>::empty());
        while i < n
            invariant
                n == all.len(),
                all == picked@,
                i <= n,
                self.wf(),
                !self.busy,
                paths(self.files@) == merged(start, all.subrange(0, i as int)),
                self.file_sizes@ == merged_sizes(start, start_sizes, all.subrange(0, i as int)),
                all_age == new_all_age(start, all.subrange(0, i as int)),
                rejected == rejected_any(all.subrange(0, i as int)),
                self.mode == old(self).mode,
                self.same_secrets(old(self)),
                self.destination == old(self).destination,
                self.progress == old(self).progress,
                was_empty == (start.len() == 0),
            decreases n - i,
        {
            let ghost sub = all.subrange(0, i as int);
            let ghost next = all.subrange(0, i + 1);
            assert(next.drop_last() =~= sub);
            assert(next.last() == all[i as int]);
            let entry = &picked[i];
            match entry {
                None => {
                    rejected = true;
                    assert(next[i as int] is None);
                },
                Some(a) => {
                    proof {
                        lemma_holds_paths(self.files@, a.path@);
                        if rejected_any(next) {
                            let k = choose|k: int| 0 <= k < next.len() && next[k] is None;
                            assert(k < i);
                            assert(sub[k] is None);
                        }
                        if rejected_any(sub) {
                            let k = choose|k: int| 0 <= k < sub.len() && sub[k] is None;
                            assert(next[k] is None);
                        }
                    }
                    if !contains_string(&self.files, &a.path) {
                        let ok = has_age_ext(a.name.as_str());
                        all_age = all_age && ok;
                        let ghost before = self.files@;
                        self.files.push(a.path.clone());
                        self.file_sizes.push(a.size);
                        proof {
                            assert forall|x: int, y: int| 0 <= x < y < self.files@.len() implies self.files@[x]@
                                != self.files@[y]@ by {
                                if y == before.len() {
                                    assert(self.files@[x] == before[x]);
                                    assert(paths(before)[x] == before[x]@);
                                } else {
                                    assert(self.files@[x] == before[x]);
                                    assert(self.files@[y] == before[y]);
                                }
                            }
                            assert(paths(self.files@) =~= paths(before).push(a.path@));
                        }
                    }
                },
            }
            proof {
                if all[i as int] is None {
                    assert(next[i as int] is None);
                    if rejected_any(sub) {
                        let k = choose|k: int| 0 <= k < sub.len() && sub[k] is None;
                        assert(next[k] is None);
                    }
                }
            }
            i = i + 1;
        }
        assert(all.subrange(0, n as int) =~= all);
        if was_empty && self.files.len() > 0 {
            self.set_mode(if all_age { Mode::Decrypt } else { Mode::Encrypt });
        }
        self.outputs.clear();
        self.progress = 0;
        self.error = rejected;
        self.status = if rejected {
            owned("Folders cannot be added directly. Zip a folder first.")
        } else {
            owned("Files added. Set your password to continue.")
        };
    }

    /// Whether the form may start a batch: nothing runs and nothing is
    /// missing.
    pub fn can_start(&self) -> (r: bool)
        ensures
            r == (!self.busy && self.issue() is None),
    {
        !self.busy && self.validation().is_none()
    }

    /// Planning the jobs failed: the message is shown as an error and the
    /// password is kept for another try.
    pub fn plan_failed(&mut self, message: String)
        requires
            old(self).wf(),
        ensures
            final(self).wf(),
            final(self).status@ == message@,
            final(self).error,
            final(self).same_queue(old(self)),
            final(self).same_secrets(old(self)),
            final(self).progress == old(self).progress,
            final(self).outputs@ == old(self).outputs@,
    {
        self.status = message;
        self.error = true;
    }

    /// Starts a batch: hands out the password, wipes both fields and shows
    /// the preparation status.
    pub fn take_password(&mut self) -> (password: String)
        requires
            old(self).wf(),
            !old(self).busy,
            old(self).issue() is None,
        ensures
            final(self).wf(),
            password@ == old(self).password@,
            final(self).secrets_cleared(old(self)),
            final(self).busy,
            final(self).progress == 0,
            !final(self).error,
            final(self).outputs@.len() == 0,
            final(self).status@ == "Preparing password\u{2026}"@,
            final(self).mode == old(self).mode,
            final(self).files@ == old(self).files@,
            final(self).file_sizes@ == old(self).file_sizes@,
            final(self).destination == old(self).destination,
    {
        let mut password = String::new();
        std::mem::swap(&mut password, &mut self.password);
        self.clear_password();
        self.busy = true;
        self.progress = 0;
        self.error = false;
        self.outputs.clear();
        self.status = owned("Preparing password\u{2026}");
        password
    }

    /// The worker could not be started; no file was processed.
    pub fn worker_failed(&mut self, detail: &str)
        requires
            old(self).wf(),
        ensures
            final(self).wf(),
            !final(self).busy,
            final(self).error,
            final(self).status@ == "Could not start the worker: "@ + detail@
                + ". No files were processed."@,
            final(self).mode == old(self).mode,
            final(self).files@ == old(self).files@,
            final(self).same_secrets(old(self)),
            final(self).outputs@ == old(self).outputs@,
    {
        self.busy = false;
        self.error = true;
        self.status = join3("Could not start the worker: ", detail, ". No files were processed.");
    }

    /// A progress update from the worker. While a cancellation is pending
    /// the status keeps saying so; the progress value always moves.
    pub fn apply_progress(&mut self, progress: u32, message: String, cancel_requested: bool)
        requires
            old(self).wf(),
            progress <= PROGRESS_COMPLETE,
        ensures
            final(self).wf(),
            final(self).progress == progress,
            cancel_requested ==> final(self).status@ == old(self).status@,
            !cancel_requested ==> final(self).status@ == message@,
            final(self).same_queue(old(self)),
            final(self).same_secrets(old(self)),
            final(self).error == old(self).error,
            final(self).outputs@ == old(self).outputs@,
    {
        self.progress = progress;
        if !cancel_requested {
            self.status = message;
        }
    }

    /// The worker finished: its outputs are kept and the outcome shown.
    pub fn apply_finished(&mut self, outputs: Vec<String>, error: Option<String>, cancelled: bool)
        requires
            old(self).wf(),
        ensures
            final(self).wf(),
            !final(self).busy,
            final(self).outputs@ == outputs@,
            final(self).error == (error is Some),
            final(self).status@ == finished_text(
                old(self).mode,
                outputs@.len() as nat,
                match error {
                    Some(m) => Some(m@),
                    None => None,
                },
                cancelled,
            ),
            final(self).progress == (if error is None && !cancelled {
                PROGRESS_COMPLETE
            } else {
                old(self).progress
            }),
            final(self).mode == old(self).mode,
            final(self).files@ == old(self).files@,
            final(self).same_secrets(old(self)),
    {
        self.busy = false;
        let n = outputs.len() as u64;
        self.outputs = outputs;
        self.error = error.is_some();
        let mut text = match error {
            Some(m) => join2(m.as_str(), "\n"),
            None => if cancelled {
                owned("Cancelled. ")
            } else {
                owned("All done. ")
            },
        };
        push_decimal(&mut text, n);
        if self.error || cancelled {
            text.append(" completed file(s) kept. Originals are unchanged.");
        } else {
            self.progress = PROGRESS_COMPLETE;
            text.append(" file(s) ");
            text.append(match self.mode {
                Mode::Encrypt => "encrypted",
                Mode::Decrypt => "decrypted",
            });
            text.append(". Originals are unchanged.");
        }
        self.status = text;
    }

    /// The worker went away without finishing.
    pub fn worker_vanished(&mut self)
        requires
            old(self).wf(),
        ensures
            final(self).wf(),
            !old(self).busy ==> *final(self) == *old(self),
            old(self).busy ==> !final(self).busy && final(self).error && final(self).status@
                == "The worker stopped unexpectedly. Check the output folder for completed files. Originals are unchanged."@
                && final(self).outputs@ == old(self).outputs@ && final(self).same_secrets(old(self)),
    {
        if self.busy {
            self.busy = false;
            self.error = true;
            self.status = owned(
                "The worker stopped unexpectedly. Check the output folder for completed files. Originals are unchanged.",
            );
        }
    }

    /// Cancellation was requested from the window.
    pub fn request_cancel(&mut self)
        requires
            old(self).wf(),
        ensures
            final(self).wf(),
            final(self).status@ == "Cancelling\u{2026} Password setup may need a moment to finish."@,
            final(self).same_queue(old(self)),
            final(self).same_secrets(old(self)),
            final(self).error == old(self).error,
            final(self).outputs@ == old(self).outputs@,
            final(self).progress == old(self).progress,
    {
        self.status = owned("Cancelling\u{2026} Password setup may need a moment to finish.");
    }

    /// The window was asked to close while a batch runs.
    pub fn close_refused(&mut self)
        requires
            old(self).wf(),
        ensures
            final(self).wf(),
            final(self).status@
                == "An operation is running. Click Cancel, wait for it to finish, then close the app."@,
            final(self).same_queue(old(self)),
            final(self).same_secrets(old(self)),
            final(self).error == old(self).error,
            final(self).outputs@ == old(self).outputs@,
            final(self).progress == old(self).progress,
    {
        self.status = owned(
            "An operation is running. Click Cancel, wait for it to finish, then close the app.",
        );
    }

    /// Shows `message` as an error.
    pub fn show_error(&mut self, message: String)
        requires
            old(self).wf(),
        ensures
            final(self).wf(),
            final(self).error,
            final(self).status@ == message@,
            final(self).same_queue(old(self)),
            final(self).same_secrets(old(self)),
            final(self).outputs@ == old(self).outputs@,
            final(self).progress == old(self).progress,
    {
        self.error = true;
        self.status = message;
    }

    /// Removes the queued file at `index`; removing the last one clears the
    /// queue as the Clear button does.
    pub fn remove_file(&mut self, index: usize)
        requires
            old(self).wf(),
            index < old(self).files@.len(),
        ensures
            final(self).wf(),
            old(self).files@.len() > 1 ==> {
                &&& final(self).files@ == old(self).files@.remove(index as int)
                &&& final(self).file_sizes@ == old(self).file_sizes@.remove(index as int)
                &&& final(self).same_secrets(old(self))
                &&& final(self).same_results(old(self))
            },
            old(self).files@.len() == 1 ==> {
                &&& final(self).files@.len() == 0
                &&& final(self).results_reset()
                &&& final(self).secrets_cleared(old(self))
            },
            final(self).mode == old(self).mode,
            final(self).destination == old(self).destination,
            final(self).busy == old(self).busy,
    {
        let ghost before = self.files@;
        self.files.remove(index);
        self.file_sizes.remove(index);
        proof {
            assert forall|i: int, j: int| 0 <= i < j < self.files@.len() implies self.files@[i]@
                != self.files@[j]@ by {
                let oi = if i < index { i } else { i + 1 };
                let oj = if j < index { j } else { j + 1 };
                assert(self.files@[i] == before[oi]);
                assert(self.files@[j] == before[oj]);
            }
        }
        if self.files.len() == 0 {
            self.clear_files();
        }
    }

    /// Wipes both password fields as the window closes.
    pub fn forget_secrets(&mut self)
        requires
            old(self).wf(),
        ensures
            final(self).wf(),
            final(self).password@.len() == 0,
            final(self).confirmation@.len() == 0,
            final(self).same_queue(old(self)),
            final(self).same_results(old(self)),
    {
        wipe_string(&mut self.password);
        wipe_string(&mut self.confirmation);
    }
}

/// The status while the password for file `index` (of `count`) is derived.
pub fn preparing_message(index: usize, count: usize) -> (r: String)
    requires
        index < count,
    ensures
        r@ == "Preparing password \u{b7} File "@ + decimal(index as nat + 1) + " of "@ + decimal(
            count as nat,
        ),
{
    let mut r = owned("Preparing password \u{b7} File ");
    push_decimal(&mut r, index as u64 + 1);
    r.append(" of ");
    push_decimal(&mut r, count as u64);
    r
}

/// The status while file `index` (of `count`), named `name`, is processed.
pub fn working_message(mode: Mode, name: &str, index: usize, count: usize) -> (r: String)
    requires
        index < count,
    ensures
        r@ == (match mode {
            Mode::Encrypt => "Encrypting "@,
            Mode::Decrypt => "Decrypting "@,
        }) + name@ + " \u{b7} "@ + decimal(index as nat + 1) + " of "@ + decimal(count as nat),
{
    let mut r = match mode {
        Mode::Encrypt => owned("Encrypting "),
        Mode::Decrypt => owned("Decrypting "),
    };
    r.append(name);
    r.append(" \u{b7} ");
    push_decimal(&mut r, index as u64 + 1);
    r.append(" of ");
    push_decimal(&mut r, count as u64);
    r
}

/// The message shown when the output folder could not be opened.
pub fn folder_open_failed(detail: &str) -> (r: String)
    ensures
        r@ == "Could not open the folder: "@ + detail@,
{
    join2("Could not open the folder: ", detail)
}

/// The entry is a file with path `p`.
pub open spec fn has_path(o: Option<AddedFile>, p: Seq<char>) -> bool {
    o matches Some(b) && b.path@ == p
}

/// Entry `i` of `picked` is a file met for the first time: it is not in
/// `files` and no earlier entry has its path.
pub open spec fn first_seen(files: Seq<Seq<char>>, picked: Seq<Option<AddedFile>>, i: int) -> bool {
    &&& picked[i] is Some
    &&& !files.contains(picked[i]->Some_0.path@)
    &&& forall|j: int| 0 <= j < i ==> !#[trigger] has_path(picked[j], picked[i]->Some_0.path@)
}

proof fn lemma_merged_contains(files: Seq<Seq<char>>, picked: Seq<Option<AddedFile>>, p: Seq<char>)
    ensures
        merged(files, picked).contains(p) <==> (files.contains(p) || exists|j: int|
            0 <= j < picked.len() && #[trigger] has_path(picked[j], p)),
    decreases picked.len(),
{
    if picked.len() > 0 {
        let n = picked.len() - 1;
        let rest = picked.drop_last();
        lemma_merged_contains(files, rest, p);
        let before = merged(files, rest);
        let in_rest = exists|j: int| 0 <= j < rest.len() && #[trigger] has_path(rest[j], p);
        let in_all = exists|j: int| 0 <= j < picked.len() && #[trigger] has_path(picked[j], p);
        assert(in_all <==> (in_rest || has_path(picked[n], p))) by {
            if in_rest {
                let j = choose|j: int| 0 <= j < rest.len() && #[trigger] has_path(rest[j], p);
                assert(picked[j] == rest[j]);
                assert(has_path(picked[j], p));
            }
            if in_all {
                let j = choose|j: int| 0 <= j < picked.len() && #[trigger] has_path(picked[j], p);
                if j < n {
                    assert(rest[j] == picked[j]);
                    assert(has_path(rest[j], p));
                }
            }
            if has_path(picked[n], p) {
                assert(has_path(picked[n], p));
            }
        }
        match picked.last() {
            Some(a) => if !before.contains(a.path@) {
                assert(before.push(a.path@).contains(p) <==> (before.contains(p) || a.path@ == p)) by {
                    if before.push(a.path@).contains(p) {
                        let k = choose|k: int| 0 <= k < before.len() + 1 && before.push(a.path@)[k] == p;
                        if k < before.len() {
                            assert(before[k] == p);
                        }
                    }
                    if before.contains(p) {
                        let k = choose|k: int| 0 <= k < before.len() && before[k] == p;
                        assert(before.push(a.path@)[k] == p);
                    }
                    if a.path@ == p {
                        assert(before.push(a.path@)[before.len() as int] == p);
                    }
                }
            },
            None => {},
        }
    }
}

/// The mode picked when files fill an empty queue is decryption exactly
/// when every file queued for the first time is named `*.age` (in any
/// letter case); one such file without that extension means encryption.
/// Entries that repeat a queued path, and entries that are not files, do
/// not count.
pub proof fn lemma_fill_mode_needs_every_new_file_age(
    files: Seq<Seq<char>>,
    picked: Seq<Option<AddedFile>>,
)
    ensures
        new_all_age(files, picked) <==> forall|i: int|
            0 <= i < picked.len() && #[trigger] first_seen(files, picked, i) ==> has_age_extension(
                picked[i]->Some_0.name@,
            ),
    decreases picked.len(),
{
    if picked.len() > 0 {
        let n = picked.len() - 1;
        let rest = picked.drop_last();
        lemma_fill_mode_needs_every_new_file_age(files, rest);
        assert forall|i: int| 0 <= i < n implies first_seen(files, picked, i) == first_seen(
            files,
            rest,
            i,
        ) by {
            assert(picked[i] == rest[i]);
            assert forall|j: int| 0 <= j < i implies picked[j] == rest[j] by {}
        }
        match picked.last() {
            Some(a) => {
                lemma_merged_contains(files, rest, a.path@);
                if first_seen(files, picked, n) {
                    if exists|j: int| 0 <= j < rest.len() && #[trigger] has_path(rest[j], a.path@) {
                        let j = choose|j: int| 0 <= j < rest.len() && #[trigger] has_path(rest[j], a.path@);
                        assert(picked[j] == rest[j]);
                        assert(false);
                    }
                } else if !merged(files, rest).contains(a.path@) {
                    assert forall|j: int| 0 <= j < n implies !(#[trigger] has_path(picked[j], picked[n]->Some_0.path@)) by {
                        assert(picked[j] == rest[j]);
                    }
                    assert(first_seen(files, picked, n));
                }
            },
            None => {
                assert(!first_seen(files, picked, n));
            },
        }
    }
}

/// The queue's total size: the total of no sizes is 0, and one more size
/// adds to the total until it stops at `u64::MAX`. In particular sizes
/// whose sum fits give their sum.
pub proof fn lemma_total_adds_sizes(sizes: Seq<u64>, x: u64)
    ensures
        sum_sizes(Seq::<u64>::empty()) == 0,
        sum_sizes(sizes.push(x)) == sum_sizes(sizes) + x,
        capped_total(sizes.push(x)) == (if capped_total(sizes) + x > u64::MAX {
            u64::MAX as int
        } else {
            capped_total(sizes) + x
        }),
{
    assert(sizes.push(x).drop_last() =~= sizes);
}

/// The total is additive over any split of the queue.
pub proof fn lemma_total_splits(a: Seq<u64>, b: Seq<u64>)
    ensures
        sum_sizes(a + b) == sum_sizes(a) + sum_sizes(b),
    decreases b.len(),
{
    if b.len() == 0 {
        assert(a + b =~= a);
    } else {
        lemma_total_splits(a, b.drop_last());
        assert((a + b).drop_last() =~= a + b.drop_last());
    }
}

/// The "All done" status names the session's own mode: "encrypted" after
/// encryption, "decrypted" after decryption, so the two modes never show
/// the same text.
pub proof fn lemma_done_text_names_mode(mode: Mode, n: nat)
    ensures
        finished_text(mode, n, None, false) == "All done. "@ + decimal(n) + " file(s) "@ + (
        match mode {
            Mode::Encrypt => "encrypted"@,
            Mode::Decrypt => "decrypted"@,
        }) + ". Originals are unchanged."@,
        finished_text(Mode::Encrypt, n, None, false) != finished_text(Mode::Decrypt, n, None, false),
{
    let pre = "All done. "@ + decimal(n) + " file(s) "@;
    let e = finished_text(Mode::Encrypt, n, None, false);
    let d = finished_text(Mode::Decrypt, n, None, false);
    reveal_strlit("encrypted");
    reveal_strlit("decrypted");
    assert(e[pre.len() as int] == 'e');
    assert(d[pre.len() as int] == 'd');
}

/// The form is valid only with files, a password, and, when encrypting, a
/// confirmed password of at least twelve characters that was saved if it
/// was generated.
pub proof fn lemma_valid_form(s: Session)
    requires
        s.issue() is None,
    ensures
        s.files@.len() > 0,
        s.password@.len() > 0,
        s.mode == Mode::Encrypt ==> s.password@.len() >= MIN_PASSWORD_CHARS && s.password@
            == s.confirmation@ && (s.generated ==> s.password_saved),
{
}

/// A list holds a string exactly when its texts contain that string's text.
pub proof fn lemma_holds_paths(v: Seq<String>, s: Seq<char>)
    ensures
        holds(v, s) == paths(v).contains(s),
{
    if holds(v, s) {
        let i = choose|i: int| 0 <= i < v.len() && #[trigger] v[i]@ == s;
        assert(paths(v)[i] == s);
    }
    if paths(v).contains(s) {
        let i = choose|i: int| 0 <= i < paths(v).len() && paths(v)[i] == s;
        assert(v[i]@ == s);
    }
}

} // verus!
