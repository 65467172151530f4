//! Planning the output path of every selected file.
//!
//! The planner decides; whoever drives it looks at the file system. For
//! each canonical source it offers candidate output paths one at a time,
//! and is told whether each is occupied, until it settles on a free one
//! that no earlier file of the batch has claimed (compared without case).
use vstd::prelude::*;
use crate::job::{Job, Mode};
use crate::naming::{
    candidate_for, candidate_name, join_name, joined, name_too_long, name_units, wanted_for,
    wanted_name, MAX_NAME_UNITS,
};
use crate::text::{contains_string, holds, join3, lowercase, owned, to_lower};

verus! {

/// The most candidate names tried for one file.
pub const MAX_ATTEMPTS: u64 = 10_000;

/// What the planner needs next.
pub enum PlanStep {
    /// Report whether this path is occupied.
    Probe(String),
    /// The source was already planned; nothing to do.
    Skipped,
    /// The source now has its job.
    Planned,
    /// Planning stops with this message.
    Failed(String),
}

/// The source being named and the candidate under test.
pub struct Pending {
    pub input: String,
    pub folder: String,
    pub name: Ghost<Seq<char>>,
    pub wanted: String,
    /// Number of the candidate under test, from 1.
    pub attempt: u64,
    pub candidate: String,
}

/// How a planned output was named: its folder, the source's file name and
/// the candidate number.
pub type Naming = (Seq<char>, Seq<char>, nat);

pub struct JobPlanner {
    pub mode: Mode,
    pub destination: Option<String>,
    pub windows: bool,
    pub seen: Vec<String>,
    pub reserved: Vec<String>,
    pub jobs: Vec<Job>,
    pub naming: Ghost<Seq<Naming>>,
    pub pending: Option<Pending>,
}

pub open spec fn too_long_message(input: Seq<char>) -> Seq<char> {
    "The output name for "@ + input
        + " would be too long. Shorten the source filename or choose another output folder."@
}

pub open spec fn no_name_message() -> Seq<char> {
    "This file has no name."@
}

pub open spec fn too_many_message() -> Seq<char> {
    "Too many files have the same output name."@
}

/// The output folder for a source whose own folder is `parent`.
pub open spec fn folder_for(destination: Option<String>, parent: Option<String>) -> Seq<char> {
    match destination {
        Some(d) => d@,
        None => parent.unwrap()@,
    }
}


impl JobPlanner {
    /// The path offered as candidate `k` for a source.
    pub open spec fn candidate_path(&self, folder: Seq<char>, name: Seq<char>, k: nat) -> Seq<char> {
        joined(folder, candidate_name(wanted_name(name, self.mode), self.mode, k), self.windows)
    }

    pub open spec fn wf(&self) -> bool {
        &&& self.reserved@.len() == self.jobs@.len()
        &&& self.naming@.len() == self.jobs@.len()
        &&& forall|i: int|
            0 <= i < self.jobs@.len() ==> #[trigger] self.reserved@[i]@ == lowercase(
                self.jobs@[i].output@,
            )
        &&& forall|i: int, j: int|
            0 <= i < j < self.reserved@.len() ==> self.reserved@[i]@ != self.reserved@[j]@
        &&& forall|i: int, j: int|
            0 <= i < j < self.jobs@.len() ==> self.jobs@[i].input@ != self.jobs@[j].input@
        &&& forall|i: int| 0 <= i < self.jobs@.len() ==> holds(self.seen@, #[trigger] self.jobs@[i].input@)
        &&& forall|i: int|
            0 <= i < self.jobs@.len() ==> {
                let n = #[trigger] self.naming@[i];
                &&& self.jobs@[i].output@ == self.candidate_path(n.0, n.1, n.2)
                &&& n.2 < MAX_ATTEMPTS
                &&& name_units(candidate_name(wanted_name(n.1, self.mode), self.mode, n.2), self.windows)
                    <= MAX_NAME_UNITS
                &&& (self.destination matches Some(d) ==> n.0 == d@)
            }
        &&& self.pending matches Some(p) ==> {
            &&& holds(self.seen@, p.input@)
            &&& forall|i: int| 0 <= i < self.jobs@.len() ==> self.jobs@[i].input@ != p.input@
            &&& 1 <= p.attempt <= MAX_ATTEMPTS
            &&& p.wanted@ == wanted_name(p.name@, self.mode)
            &&& p.candidate@ == self.candidate_path(p.folder@, p.name@, (p.attempt - 1) as nat)
            &&& name_units(
                candidate_name(p.wanted@, self.mode, (p.attempt - 1) as nat),
                self.windows,
            ) <= MAX_NAME_UNITS
            &&& (self.destination matches Some(d) ==> p.folder@ == d@)
        }
    }

    /// A planner with nothing planned. `destination` is the canonical output
    /// folder, if one was chosen; `windows` selects the platform's path style.
    pub fn new(mode: Mode, destination: Option<String>, windows: bool) -> (r: JobPlanner)
        ensures
            r.wf(),
            r.mode == mode,
            r.destination == destination,
            r.windows == windows,
            r.seen@.len() == 0,
            r.jobs@.len() == 0,
            r.pending is None,
    {
        JobPlanner {
            mode,
            destination,
            windows,
            seen: Vec::new(),
            reserved: Vec::new(),
            jobs: Vec::new(),
            naming: Ghost(Seq::empty()),
            pending: None,
        }
    }

    /// Whether [`Self::begin`] takes a source with this file name: one that
    /// does not make the wanted output name `..`, which names no file.
    pub fn takes_name(&self, name: &str) -> (r: bool)
        ensures
            r == (wanted_name(name@, self.mode) != seq!['.', '.']),
    {
        let wanted = wanted_for(name, self.mode);
        let k = wanted.as_str().unicode_len();
        let r = !(k == 2 && wanted.as_str().get_char(0) == '.' && wanted.as_str().get_char(1) == '.');
        proof {
            if k == 2 && wanted@[0] == '.' && wanted@[1] == '.' {
                assert(wanted@ =~= seq!['.', '.']);
            }
        }
        r
    }

    /// Starts naming the canonical source `input`, whose folder is `parent`
    /// and whose file name is `name`.
    pub fn begin(&mut self, input: String, parent: Option<String>, name: Option<String>) -> (step: PlanStep)
        requires
            old(self).wf(),
            old(self).pending is None,
            old(self).destination is Some || parent is Some,
            name matches Some(n) ==> wanted_name(n@, old(self).mode) != seq!['.', '.'],
        ensures
            final(self).wf(),
            final(self).mode == old(self).mode,
            final(self).destination == old(self).destination,
            final(self).windows == old(self).windows,
            final(self).jobs@ == old(self).jobs@,
            holds(old(self).seen@, input@) ==> step is Skipped && final(self).seen@ == old(
                self,
            ).seen@ && final(self).pending is None,
            !holds(old(self).seen@, input@) ==> {
                &&& final(self).seen@.len() == old(self).seen@.len() + 1
                &&& final(self).seen@.last()@ == input@
                &&& match name {
                    None => step matches PlanStep::Failed(m) && m@ == no_name_message()
                        && final(self).pending is None,
                    Some(n) => {
                        let folder = folder_for(old(self).destination, parent);
                        let wanted = wanted_name(n@, old(self).mode);
                        if name_units(wanted, old(self).windows) > MAX_NAME_UNITS {
                            &&& step matches PlanStep::Failed(m) && m@ == too_long_message(input@)
                            &&& final(self).pending is None
                        } else {
                            &&& step matches PlanStep::Probe(c) && c@ == joined(
                                folder,
                                wanted,
                                old(self).windows,
                            )
                            &&& final(self).pending matches Some(p) && p.input@ == input@
                                && p.folder@ == folder && p.name@ == n@ && p.attempt == 1
                        }
                    },
                }
            },
    {
        if contains_string(&self.seen, &input) {
            return PlanStep::Skipped;
        }
        let ghost old_seen = self.seen@;
        let dup = input.clone();
        self.seen.push(dup);
        proof {
            assert forall|i: int| 0 <= i < self.jobs@.len() implies holds(
                self.seen@,
                #[trigger] self.jobs@[i].input@,
            ) by {
                let k = choose|k: int| 0 <= k < old_seen.len() && old_seen[k]@ == self.jobs@[i].input@;
                assert(self.seen@[k] == old_seen[k]);
            }
            assert(self.seen@[old_seen.len() as int]@ == input@);
            assert forall|i: int| 0 <= i < self.jobs@.len() implies self.jobs@[i].input@ != input@ by {
                if self.jobs@[i].input@ == input@ {
                    assert(holds(old_seen, input@));
                }
            }
        }
        let folder = match &self.destination {
            Some(d) => d.clone(),
            None => match parent {
                Some(p) => p,
                None => {
                    assert(false);
                    String::new()
                },
            },
        };
        let name = match name {
            Some(n) => n,
            None => return PlanStep::Failed(owned("This file has no name.")),
        };
        let wanted = wanted_for(name.as_str(), self.mode);
        if name_too_long(wanted.as_str(), self.windows) {
            return PlanStep::Failed(join3(
                "The output name for ",
                input.as_str(),
                " would be too long. Shorten the source filename or choose another output folder.",
            ));
        }
        let candidate = join_name(folder.as_str(), wanted.as_str(), self.windows);
        let probe = candidate.clone();
        assert(candidate_name(wanted@, self.mode, 0) == wanted@);
        self.pending = Some(Pending {
            input,
            folder,
            name: Ghost(name@),
            wanted,
            attempt: 1,
            candidate,
        });
        PlanStep::Probe(probe)
    }

    /// Reports whether the candidate under test is occupied.
    pub fn observe(&mut self, occupied: bool) -> (step: PlanStep)
        requires
            old(self).wf(),
            old(self).pending is Some,
        ensures
            final(self).wf(),
            final(self).mode == old(self).mode,
            final(self).destination == old(self).destination,
            final(self).windows == old(self).windows,
            final(self).seen@ == old(self).seen@,
            ({
                let p = old(self).pending.unwrap();
                let key = lowercase(p.candidate@);
                if !occupied && !holds(old(self).reserved@, key) {
                    &&& step is Planned
                    &&& final(self).pending is None
                    &&& final(self).jobs@.len() == old(self).jobs@.len() + 1
                    &&& final(self).jobs@.drop_last() == old(self).jobs@
                    &&& final(self).jobs@.last().input@ == p.input@
                    &&& final(self).jobs@.last().output@ == p.candidate@
                } else if p.attempt == MAX_ATTEMPTS {
                    &&& step matches PlanStep::Failed(m) && m@ == too_many_message()
                    &&& final(self).pending is None
                    &&& final(self).jobs@ == old(self).jobs@
                } else {
                    let next = candidate_name(p.wanted@, old(self).mode, p.attempt as nat);
                    &&& final(self).jobs@ == old(self).jobs@
                    &&& if name_units(next, old(self).windows) > MAX_NAME_UNITS {
                        &&& step matches PlanStep::Failed(m) && m@ == too_long_message(p.input@)
                        &&& final(self).pending is None
                    } else {
                        &&& step matches PlanStep::Probe(c) && c@ == joined(
                            p.folder@,
                            next,
                            old(self).windows,
                        )
                        &&& final(self).pending matches Some(q) && q.input@ == p.input@
                            && q.folder@ == p.folder@ && q.name@ == p.name@ && q.attempt
                            == p.attempt + 1
                    }
                }
            }),
    {
        let p = match self.pending.take() {
            Some(p) => p,
            None => {
                assert(false);
                return PlanStep::Skipped;
            },
        };
        let key = to_lower(p.candidate.as_str());
        if !occupied && !contains_string(&self.reserved, &key) {
            let ghost old_reserved = self.reserved@;
            let ghost old_jobs = self.jobs@;
            let ghost entry: Naming = (p.folder@, p.name@, (p.attempt - 1) as nat);
            self.reserved.push(key);
            self.jobs.push(Job { input: p.input, output: p.candidate });
            self.naming = Ghost(self.naming@.push(entry));
            proof {
                let n = old_reserved.len() as int;
                assert forall|i: int, j: int| 0 <= i < j < self.reserved@.len() implies self.reserved@[i]@
                    != self.reserved@[j]@ by {
                    if j == n {
                        assert(self.reserved@[i] == old_reserved[i]);
                    } else {
                        assert(self.reserved@[i] == old_reserved[i]);
                        assert(self.reserved@[j] == old_reserved[j]);
                    }
                }
                assert forall|i: int| 0 <= i < self.jobs@.len() implies #[trigger] self.reserved@[i]@
                    == lowercase(self.jobs@[i].output@) by {
                    if i < n {
                        assert(self.reserved@[i] == old_reserved[i]);
                        assert(self.jobs@[i] == old_jobs[i]);
                    }
                }
                assert forall|i: int| 0 <= i < self.jobs@.len() implies holds(
                    self.seen@,
                    #[trigger] self.jobs@[i].input@,
                ) by {
                    if i < n {
                        assert(self.jobs@[i] == old_jobs[i]);
                    }
                }
                assert(self.jobs@.drop_last() =~= old_jobs);
            }
            return PlanStep::Planned;
        }
        if p.attempt == MAX_ATTEMPTS {
            return PlanStep::Failed(owned("Too many files have the same output name."));
        }
        proof {
            crate::naming::lemma_wanted_len(p.name@, self.mode);
        }
        let next = candidate_for(p.wanted.as_str(), self.mode, p.attempt);
        if name_too_long(next.as_str(), self.windows) {
            return PlanStep::Failed(join3(
                "The output name for ",
                p.input.as_str(),
                " would be too long. Shorten the source filename or choose another output folder.",
            ));
        }
        let candidate = join_name(p.folder.as_str(), next.as_str(), self.windows);
        let probe = candidate.clone();
        self.pending = Some(Pending {
            input: p.input,
            folder: p.folder,
            name: p.name,
            wanted: p.wanted,
            attempt: p.attempt + 1,
            candidate,
        });
        PlanStep::Probe(probe)
    }

    /// The planned jobs, in the order their sources were first given.
    pub fn finish(self) -> (jobs: Vec<Job>)
        requires
            self.wf(),
        ensures
            jobs@ == self.jobs@,
    {
        self.jobs
    }
}


/// Planning needs at least one selected file.
pub fn check_selection(count: usize) -> (r: Result<(), String>)
    ensures
        count == 0 ==> (r matches Err(m) && m@ == "Choose at least one file."@),
        count > 0 ==> r is Ok,
{
    if count == 0 {
        Err(owned("Choose at least one file."))
    } else {
        Ok(())
    }
}

/// The chosen output folder is not a folder.
pub fn folder_unavailable() -> (r: String)
    ensures
        r@ == "The output folder is unavailable. Choose another folder."@,
{
    owned("The output folder is unavailable. Choose another folder.")
}

/// The chosen output folder could not be resolved.
pub fn folder_unresolved(detail: &str) -> (r: String)
    ensures
        r@ == "Could not resolve the output folder: "@ + detail@,
{
    crate::text::join2("Could not resolve the output folder: ", detail)
}

/// A selected path is not an available file.
pub fn not_a_file(shown: &str) -> (r: String)
    ensures
        r@ == "Not an available file: "@ + shown@ + ". Zip folders before adding them."@,
{
    join3("Not an available file: ", shown, ". Zip folders before adding them.")
}

/// A selected file could not be resolved.
pub fn source_unresolved(detail: &str) -> (r: String)
    ensures
        r@ == "Could not resolve the source file: "@ + detail@,
{
    crate::text::join2("Could not resolve the source file: ", detail)
}

/// A candidate output path could not be inspected.
pub fn probe_failed(detail: &str) -> (r: String)
    ensures
        r@ == "Could not inspect the output path: "@ + detail@,
{
    crate::text::join2("Could not inspect the output path: ", detail)
}

/// No two planned outputs share a path when letter case is ignored, and no
/// source is planned twice.
pub proof fn lemma_planned_outputs_distinct(p: JobPlanner)
    requires
        p.wf(),
    ensures
        forall|i: int, j: int|
            0 <= i < p.jobs@.len() && 0 <= j < p.jobs@.len() && i != j ==> lowercase(
                p.jobs@[i].output@,
            ) != lowercase(p.jobs@[j].output@),
        forall|i: int, j: int|
            0 <= i < p.jobs@.len() && 0 <= j < p.jobs@.len() && i != j ==> p.jobs@[i].input@
                != p.jobs@[j].input@,
{
    assert forall|i: int, j: int|
        0 <= i < p.jobs@.len() && 0 <= j < p.jobs@.len() && i != j implies lowercase(
        p.jobs@[i].output@,
    ) != lowercase(p.jobs@[j].output@) by {
        assert(p.reserved@[i]@ == lowercase(p.jobs@[i].output@));
        assert(p.reserved@[j]@ == lowercase(p.jobs@[j].output@));
    }
}

/// Every planned output is one of the candidates offered for its source:
/// the name wanted in the mode, or that name with one of the first 9999
/// collision suffixes, joined onto the destination folder when one was
/// chosen; and its file name fits the platform's name limit.
pub proof fn lemma_planned_output_is_candidate(p: JobPlanner, i: int)
    requires
        p.wf(),
        0 <= i < p.jobs@.len(),
    ensures
        exists|folder: Seq<char>, name: Seq<char>, k: nat|
            k < MAX_ATTEMPTS && p.jobs@[i].output@ == p.candidate_path(folder, name, k) && (
            p.destination matches Some(d) ==> folder == d@) && name_units(
                candidate_name(wanted_name(name, p.mode), p.mode, k),
                p.windows,
            ) <= MAX_NAME_UNITS,
{
    let n = p.naming@[i];
    assert(p.jobs@[i].output@ == p.candidate_path(n.0, n.1, n.2));
}

} // verus!
