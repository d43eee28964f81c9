//! One pass of cleanup over a repository.
//!
//! The pass is a machine: it says what has to be done next, and is told what came of it.
use vstd::prelude::*;
use vstd::utf8::*;

use super::git::{remote_ref, remote_reference, Repository};
use super::policy::{
    candidate_views, evidence_view, record_views, retention, retention_reason, Candidate,
    CandidateView, EvidenceView, MergeEvidence, Policy, PolicyView, Record, RecordView, State,
};
use super::store::{Settings, SettingsView};
use crate::lines::{trim, trimmed};
use crate::path::{join, joined, place};
use crate::runtime_provider::copy_bytes;
use crate::text::{decimal, decimal_text, same, text_of};

verus! {

/// Whether processes use a worktree, as far as that can be told.
pub enum CleanupProcessUse {
    Clear,
    Active(u32),
    Unknown(String),
}

/// How far the pass is with a candidate, or with an interrupted record.
#[derive(Clone, Copy, Debug, PartialEq, Eq, Structural)]
pub enum Phase {
    /// The decision on a candidate is being saved.
    Saving,
    Evidence,
    /// Owners and local work are looked at for the first time.
    First,
    Lease,
    /// They are looked at again, under the lease.
    Second,
    /// The intent to remove is being saved.
    Intent,
    Unchanged,
    Current,
    Ancestry,
    Owned,
    Worktree,
    WorktreeSaved,
    Branch,
    /// The resources of an interrupted record are looked for.
    Absent,
    Recovered,
    Ended,
}

/// What came of the last step.
pub enum Event {
    Settled(Result<(), String>),
    Evidence(Option<MergeEvidence>),
    /// Why sessions and processes keep a candidate, and why local work does.
    Inspected(Result<Option<String>, String>, Result<Option<String>, String>),
    Printed(Result<String, String>),
    Answered(bool),
    Owned(Result<Option<String>, String>),
    Absent(Result<bool, String>),
}

/// What has to be done next.
pub enum Step {
    /// Save a record durably, and append it to the audit.
    Save(Record),
    /// Look for merge evidence, in a branch at a commit.
    FindEvidence(Candidate, String, String),
    Inspect(Candidate),
    /// Take the exclusive lock of a path.
    Lease(Vec<u8>),
    /// Check that a candidate is still what was discovered.
    Verify(Candidate),
    /// Resolve a reference.
    Resolve(String),
    /// Ask whether a commit is an ancestor of another.
    Ancestor(String, String),
    CheckOwner(Candidate),
    RemoveWorktree(Candidate),
    RemoveBranch(String, String),
    /// Look whether the resources of a candidate are gone.
    CheckAbsent(Candidate),
    Finished(Vec<Record>),
    Failed(String),
}

pub enum EventView {
    Settled(Result<(), Seq<char>>),
    Evidence(Option<EvidenceView>),
    Inspected(Result<Option<Seq<char>>, Seq<char>>, Result<Option<Seq<char>>, Seq<char>>),
    Printed(Result<Seq<char>, Seq<char>>),
    Answered(bool),
    Owned(Result<Option<Seq<char>>, Seq<char>>),
    Absent(Result<bool, Seq<char>>),
}

#[verifier::ext_equal]
pub enum StepView {
    Save(RecordView),
    FindEvidence(CandidateView, Seq<char>, Seq<char>),
    Inspect(CandidateView),
    Lease(Seq<u8>),
    Verify(CandidateView),
    Resolve(Seq<char>),
    Ancestor(Seq<char>, Seq<char>),
    CheckOwner(CandidateView),
    RemoveWorktree(CandidateView),
    RemoveBranch(Seq<char>, Seq<char>),
    CheckAbsent(CandidateView),
    Finished(Seq<RecordView>),
    Failed(Seq<char>),
}

pub open spec fn reason_view(value: Result<Option<String>, String>) -> Result<
    Option<Seq<char>>,
    Seq<char>,
> {
    match value {
        Ok(reason) => Ok(text_of(reason)),
        Err(message) => Err(message@),
    }
}

impl View for Event {
    type V = EventView;

    open spec fn view(&self) -> EventView {
        match self {
            Event::Settled(result) => EventView::Settled(
                match result {
                    Ok(_) => Ok(()),
                    Err(message) => Err(message@),
                },
            ),
            Event::Evidence(evidence) => EventView::Evidence(evidence_view(*evidence)),
            Event::Inspected(owned, local) => EventView::Inspected(
                reason_view(*owned),
                reason_view(*local),
            ),
            Event::Printed(result) => EventView::Printed(
                match result {
                    Ok(text) => Ok(text@),
                    Err(message) => Err(message@),
                },
            ),
            Event::Answered(answer) => EventView::Answered(*answer),
            Event::Owned(owned) => EventView::Owned(reason_view(*owned)),
            Event::Absent(result) => EventView::Absent(
                match result {
                    Ok(absent) => Ok(*absent),
                    Err(message) => Err(message@),
                },
            ),
        }
    }
}

impl View for Step {
    type V = StepView;

    open spec fn view(&self) -> StepView {
        match self {
            Step::Save(record) => StepView::Save(record@),
            Step::FindEvidence(candidate, branch, commit) => StepView::FindEvidence(
                candidate@,
                branch@,
                commit@,
            ),
            Step::Inspect(candidate) => StepView::Inspect(candidate@),
            Step::Lease(path) => StepView::Lease(path@),
            Step::Verify(candidate) => StepView::Verify(candidate@),
            Step::Resolve(reference) => StepView::Resolve(reference@),
            Step::Ancestor(commit, integration) => StepView::Ancestor(commit@, integration@),
            Step::CheckOwner(candidate) => StepView::CheckOwner(candidate@),
            Step::RemoveWorktree(candidate) => StepView::RemoveWorktree(candidate@),
            Step::RemoveBranch(branch, commit) => StepView::RemoveBranch(branch@, commit@),
            Step::CheckAbsent(candidate) => StepView::CheckAbsent(candidate@),
            Step::Finished(records) => StepView::Finished(record_views(records@)),
            Step::Failed(message) => StepView::Failed(message@),
        }
    }
}

/// A pass over a repository, as it stands.
pub struct Reconciliation {
    pub repository: Vec<u8>,
    pub policy: Policy,
    pub trigger: String,
    pub preview: bool,
    pub history: Vec<Record>,
    pub integration: Result<(String, String), String>,
    pub candidates: Vec<Candidate>,
    pub records: Vec<Record>,
    /// How many candidates were decided on.
    pub at: usize,
    /// How many records of the history were looked at.
    pub looked: usize,
    pub phase: Phase,
    pub current: Record,
}

#[verifier::ext_equal]
pub struct PassView {
    pub repository: Seq<u8>,
    pub policy: PolicyView,
    pub trigger: Seq<char>,
    pub preview: bool,
    pub history: Seq<RecordView>,
    pub integration: Result<(Seq<char>, Seq<char>), Seq<char>>,
    pub candidates: Seq<CandidateView>,
    pub records: Seq<RecordView>,
    pub at: int,
    pub looked: int,
    pub phase: Phase,
    pub current: RecordView,
}

/// The branch and commit to look for merges in, or why there are none.
pub open spec fn integration_view(value: Result<(String, String), String>) -> Result<
    (Seq<char>, Seq<char>),
    Seq<char>,
> {
    match value {
        Ok(found) => Ok((found.0@, found.1@)),
        Err(message) => Err(message@),
    }
}

impl View for Reconciliation {
    type V = PassView;

    open spec fn view(&self) -> PassView {
        PassView {
            repository: self.repository@,
            policy: self.policy@,
            trigger: self.trigger@,
            preview: self.preview,
            history: record_views(self.history@),
            integration: integration_view(self.integration),
            candidates: candidate_views(self.candidates@),
            records: record_views(self.records@),
            at: self.at as int,
            looked: self.looked as int,
            phase: self.phase,
            current: self.current@,
        }
    }
}

/// The number of the attempt on a candidate: one more than the last one that the first `n`
/// records of the history know of.
pub open spec fn attempt_number(history: Seq<RecordView>, candidate: CandidateView, n: nat) -> u32
    decreases n,
{
    if n == 0 {
        1
    } else if history[n - 1].candidate.same_as(candidate) {
        if history[n - 1].attempts == u32::MAX {
            u32::MAX
        } else {
            (history[n - 1].attempts + 1) as u32
        }
    } else {
        attempt_number(history, candidate, (n - 1) as nat)
    }
}

/// A record of an operation that was interrupted before all was removed.
pub open spec fn interrupted(record: RecordView) -> bool {
    ||| record.state == State::Removing
    ||| record.worktree_removed && !record.branch_removed && record.candidate.branch is Some
}

/// The first interrupted record, from `i` on.
pub open spec fn next_interrupted(history: Seq<RecordView>, i: int) -> int
    decreases history.len() - i,
{
    if i < 0 || i >= history.len() || interrupted(history[i]) {
        i
    } else {
        next_interrupted(history, i + 1)
    }
}

/// What owners and local work say together: the first that cannot be told, or both.
pub open spec fn both_known(
    owned: Result<Option<Seq<char>>, Seq<char>>,
    local: Result<Option<Seq<char>>, Seq<char>>,
) -> Result<(Option<Seq<char>>, Option<Seq<char>>), Seq<char>> {
    match owned {
        Err(message) => Err(message),
        Ok(owned) => match local {
            Err(message) => Err(message),
            Ok(local) => Ok((owned, local)),
        },
    }
}

impl PassView {
    pub open spec fn candidate(self) -> CandidateView {
        self.current.candidate
    }

    pub open spec fn branch(self) -> Seq<char> {
        (self.integration->Ok_0).0
    }

    /// The decision on a candidate stands and is saved.
    pub open spec fn concludes(self, record: RecordView) -> (PassView, StepView) {
        (PassView { current: record, phase: Phase::Saving, ..self }, StepView::Save(record))
    }

    /// A candidate is kept, and why.
    pub open spec fn defers(self, reason: Seq<char>) -> (PassView, StepView) {
        self.concludes(RecordView { state: State::Deferred, reason, ..self.current })
    }

    pub open spec fn fresh_record(self, candidate: CandidateView, now: u64) -> RecordView {
        RecordView {
            repository: self.repository,
            candidate,
            evidence: None,
            trigger: self.trigger,
            timestamp: now,
            attempts: attempt_number(self.history, candidate, self.history.len()),
            state: State::Pending,
            reason: Seq::empty(),
            worktree_removed: false,
            branch_removed: false,
        }
    }

    /// Go on with the next candidate. Cheap exclusions come before any check that needs the
    /// remote.
    pub open spec fn next_candidate(self, now: u64) -> (PassView, StepView) {
        if self.at >= self.candidates.len() {
            self.next_record()
        } else {
            let candidate = self.candidates[self.at];
            let begun = PassView { current: self.fresh_record(candidate, now), ..self };
            match self.integration {
                Err(reason) => begun.defers("integration unavailable: "@ + reason),
                Ok((branch, commit)) => {
                    let early = retention(self.policy, candidate, branch, false, None, None);
                    if early != Some("merge not verified at current commit"@) {
                        begun.defers(early->0)
                    } else {
                        (
                            PassView { phase: Phase::Evidence, ..begun },
                            StepView::FindEvidence(candidate, branch, commit),
                        )
                    }
                },
            }
        }
    }

    /// Go on with the next interrupted record of the history.
    pub open spec fn next_record(self) -> (PassView, StepView) {
        let i = next_interrupted(self.history, self.looked);
        if i >= self.history.len() {
            (
                PassView { looked: i, phase: Phase::Ended, ..self },
                StepView::Finished(self.records),
            )
        } else {
            (
                PassView { looked: i, phase: Phase::Absent, ..self },
                StepView::CheckAbsent(self.history[i].candidate),
            )
        }
    }

    pub open spec fn fails(self, message: Seq<char>) -> (PassView, StepView) {
        (PassView { phase: Phase::Ended, ..self }, StepView::Failed(message))
    }

    /// Remove the branch, where the candidate has one.
    pub open spec fn removes_branch(self) -> (PassView, StepView) {
        match self.candidate().branch {
            Some(branch) => (
                PassView { phase: Phase::Branch, ..self },
                StepView::RemoveBranch(branch, self.candidate().commit),
            ),
            None => self.removed(),
        }
    }

    pub open spec fn removed(self) -> (PassView, StepView) {
        self.concludes(
            RecordView {
                state: State::Removed,
                reason: "verified merged resources removed"@,
                ..self.current
            },
        )
    }

    /// The reason that keeps the candidate, given what was just seen.
    pub open spec fn kept_by(
        self,
        owned: Result<Option<Seq<char>>, Seq<char>>,
        local: Result<Option<Seq<char>>, Seq<char>>,
    ) -> Option<Seq<char>> {
        match both_known(owned, local) {
            Err(message) => Some(message),
            Ok((owned, local)) => retention(
                self.policy,
                self.candidate(),
                self.branch(),
                self.current.evidence is Some,
                owned,
                local,
            ),
        }
    }

    /// The event is one that the phase waits for.
    pub open spec fn awaits(self, event: EventView) -> bool {
        match self.phase {
            Phase::Evidence => event is Evidence,
            Phase::First | Phase::Second => event is Inspected,
            Phase::Current => event is Printed,
            Phase::Ancestry => event is Answered,
            Phase::Owned => event is Owned,
            Phase::Absent => event is Absent,
            Phase::Ended => false,
            _ => event is Settled,
        }
    }

    /// What comes of looking at a candidate.
    pub open spec fn decides(self, event: EventView) -> (PassView, StepView) {
        let record = self.current;
        let candidate = self.candidate();
        match self.phase {
            Phase::Evidence => (
                PassView {
                    current: RecordView { evidence: event->Evidence_0, ..record },
                    phase: Phase::First,
                    ..self
                },
                StepView::Inspect(candidate),
            ),
            Phase::First => match self.kept_by(event->Inspected_0, event->Inspected_1) {
                Some(reason) => self.defers(reason),
                None => match candidate.path {
                    Some(path) => (
                        PassView { phase: Phase::Lease, ..self },
                        StepView::Lease(path),
                    ),
                    None => (
                        PassView { phase: Phase::Second, ..self },
                        StepView::Inspect(candidate),
                    ),
                },
            },
            Phase::Lease => match event->Settled_0 {
                Err(message) => self.defers(message),
                Ok(_) => (
                    PassView { phase: Phase::Second, ..self },
                    StepView::Inspect(candidate),
                ),
            },
            Phase::Second => match self.kept_by(event->Inspected_0, event->Inspected_1) {
                Some(reason) => self.defers(reason),
                None => if self.preview {
                    self.concludes(
                        RecordView { reason: "eligible; preview made no changes"@, ..record },
                    )
                } else {
                    let intent = RecordView {
                        state: State::Removing,
                        reason: "verified and preparing removal"@,
                        ..record
                    };
                    (
                        PassView { current: intent, phase: Phase::Intent, ..self },
                        StepView::Save(intent),
                    )
                },
            },
            _ => self.fails("the pass has ended"@),
        }
    }

    /// What comes of a step between the intent to remove and its end.
    pub open spec fn removes(self, event: EventView) -> (PassView, StepView) {
        let record = self.current;
        let candidate = self.candidate();
        match self.phase {
            Phase::Intent => match event->Settled_0 {
                Err(message) => self.defers(message),
                Ok(_) => (
                    PassView { phase: Phase::Unchanged, ..self },
                    StepView::Verify(candidate),
                ),
            },
            Phase::Unchanged => match event->Settled_0 {
                Err(message) => self.defers(message),
                Ok(_) => if record.evidence is None {
                    self.defers("missing merge evidence"@)
                } else {
                    (
                        PassView { phase: Phase::Current, ..self },
                        StepView::Resolve(remote_ref(self.policy.remote, self.branch())),
                    )
                },
            },
            Phase::Current => match event->Printed_0 {
                Err(message) => self.defers(message),
                Ok(text) => if trimmed(text) != record.evidence->0.at() {
                    self.defers("integration reference changed"@)
                } else {
                    match record.evidence->0 {
                        EvidenceView::Ancestor { integration } => (
                            PassView { phase: Phase::Ancestry, ..self },
                            StepView::Ancestor(candidate.commit, integration),
                        ),
                        EvidenceView::Github { integration, source, merge, .. } => if source
                            == candidate.commit {
                            (
                                PassView { phase: Phase::Ancestry, ..self },
                                StepView::Ancestor(merge, integration),
                            )
                        } else {
                            self.defers("merge source changed"@)
                        },
                    }
                },
            },
            Phase::Ancestry => if event->Answered_0 {
                (PassView { phase: Phase::Owned, ..self }, StepView::CheckOwner(candidate))
            } else {
                self.defers("merge evidence changed"@)
            },
            Phase::Owned => match event->Owned_0 {
                Err(message) => self.defers(message),
                Ok(Some(reason)) => self.defers(reason),
                Ok(None) => if candidate.path is Some {
                    (
                        PassView { phase: Phase::Worktree, ..self },
                        StepView::RemoveWorktree(candidate),
                    )
                } else {
                    self.removes_branch()
                },
            },
            Phase::Worktree => match event->Settled_0 {
                Err(message) => self.defers(message),
                Ok(_) => {
                    let half = RecordView { worktree_removed: true, ..record };
                    (
                        PassView { current: half, phase: Phase::WorktreeSaved, ..self },
                        StepView::Save(half),
                    )
                },
            },
            Phase::WorktreeSaved => match event->Settled_0 {
                Err(message) => self.defers(message),
                Ok(_) => self.removes_branch(),
            },
            Phase::Branch => match event->Settled_0 {
                Err(message) => self.defers(message),
                Ok(_) => PassView {
                    current: RecordView { branch_removed: true, ..record },
                    ..self
                }.removed(),
            },
            _ => self.fails("the pass has ended"@),
        }
    }

    /// What comes of looking at an interrupted record.
    pub open spec fn recovers(self, event: EventView, now: u64) -> (PassView, StepView) {
        let record = self.current;
        match self.phase {
            Phase::Absent => match event->Absent_0 {
                Err(message) => self.fails(message),
                Ok(absent) => if !absent {
                    PassView { looked: self.looked + 1, ..self }.next_record()
                } else {
                    let previous = self.history[self.looked];
                    let finished = RecordView {
                        state: State::Removed,
                        reason: "reconciled removal after interrupted operation"@,
                        timestamp: now,
                        trigger: self.trigger,
                        worktree_removed: previous.candidate.path is Some,
                        branch_removed: previous.candidate.branch is Some,
                        ..previous
                    };
                    (
                        PassView { current: finished, phase: Phase::Recovered, ..self },
                        StepView::Save(finished),
                    )
                },
            },
            Phase::Recovered => match event->Settled_0 {
                Err(message) => self.fails(message),
                Ok(_) => PassView {
                    records: self.records.push(record),
                    looked: self.looked + 1,
                    ..self
                }.next_record(),
            },
            _ => self.fails("the pass has ended"@),
        }
    }

    /// What the pass becomes, and what is done next.
    pub open spec fn told(self, event: EventView, now: u64) -> (PassView, StepView) {
        match self.phase {
            Phase::Saving => match event->Settled_0 {
                Err(message) => self.fails(message),
                Ok(_) => PassView {
                    records: self.records.push(self.current),
                    at: self.at + 1,
                    ..self
                }.next_candidate(now),
            },
            Phase::Evidence | Phase::First | Phase::Lease | Phase::Second => self.decides(event),
            Phase::Absent | Phase::Recovered => self.recovers(event, now),
            _ => self.removes(event),
        }
    }
}

fn attempts_of(history: &Vec<Record>, candidate: &Candidate) -> (r: u32)
    ensures
        r == attempt_number(record_views(history@), candidate@, history@.len()),
{
    let mut i: usize = history.len();
    let ghost views = record_views(history@);
    while i > 0
        invariant
            i <= history@.len(),
            views == record_views(history@),
            attempt_number(views, candidate@, history@.len()) == attempt_number(
                views,
                candidate@,
                i as nat,
            ),
        decreases i,
    {
        assert(views[i - 1] == history@[i - 1]@);
        if history[i - 1].candidate.equals(candidate) {
            return history[i - 1].attempts.saturating_add(1);
        }
        i = i - 1;
    }
    1
}

fn is_interrupted(record: &Record) -> (r: bool)
    ensures
        r == interrupted(record@),
{
    record.state == State::Removing || (record.worktree_removed && !record.branch_removed
        && record.candidate.branch.is_some())
}

pub(crate) fn copy_records(records: &Vec<Record>) -> (r: Vec<Record>)
    ensures
        record_views(r@) == record_views(records@),
{
    let mut out: Vec<Record> = Vec::new();
    let mut i: usize = 0;
    while i < records.len()
        invariant
            i <= records@.len(),
            out@.len() == i,
            forall|j: int| 0 <= j < i ==> (#[trigger] out@[j])@ == records@[j]@,
        decreases records@.len() - i,
    {
        out.push(records[i].clone());
        i = i + 1;
    }
    assert(record_views(out@) =~= record_views(records@));
    out
}

impl Reconciliation {
    /// The positions of the pass lie within what it goes through.
    pub open spec fn wf(self) -> bool {
        &&& self.at <= self.candidates.len()
        &&& self.looked <= self.history.len()
        &&& self.phase == Phase::Absent || self.phase == Phase::Recovered ==> self.looked
            < self.history.len()
        &&& self.in_hand() ==> self.at < self.candidates.len()
        &&& self.in_hand() && self.phase != Phase::Saving ==> self.integration is Ok
        &&& self.phase == Phase::Current ==> self.current.evidence is Some
    }

    /// A candidate is being decided on.
    pub open spec fn in_hand(self) -> bool {
        !(self.phase == Phase::Absent || self.phase == Phase::Recovered || self.phase
            == Phase::Ended)
    }

    fn conclude(&mut self) -> (r: Step)
        requires
            old(self).wf(),
            old(self).in_hand(),
        ensures
            final(self).wf(),
            (final(self)@, r@) == old(self)@.concludes(old(self)@.current),
    {
        self.phase = Phase::Saving;
        Step::Save(self.current.clone())
    }

    fn defer(&mut self, reason: String) -> (r: Step)
        requires
            old(self).wf(),
            old(self).in_hand(),
        ensures
            final(self).wf(),
            (final(self)@, r@) == old(self)@.defers(reason@),
    {
        self.current.state = State::Deferred;
        self.current.reason = reason;
        let ghost middle = self@;
        let r = self.conclude();
        assert((self@, r@) == middle.concludes(middle.current));
        r
    }

    fn fail(&mut self, message: String) -> (r: Step)
        requires
            old(self).wf(),
        ensures
            final(self).wf(),
            (final(self)@, r@) == old(self)@.fails(message@),
    {
        self.phase = Phase::Ended;
        Step::Failed(message)
    }

    fn go_to_record(&mut self) -> (r: Step)
        requires
            old(self).at <= old(self).candidates@.len(),
            old(self).looked <= old(self).history@.len(),
        ensures
            final(self).wf(),
            (final(self)@, r@) == old(self)@.next_record(),
    {
        let ghost views = record_views(self.history@);
        while self.looked < self.history.len() && !is_interrupted(&self.history[self.looked])
            invariant
                *self == (Reconciliation { looked: self.looked, ..*old(self) }),
                views == record_views(self.history@),
                self.looked <= self.history@.len(),
                next_interrupted(views, old(self).looked as int) == next_interrupted(
                    views,
                    self.looked as int,
                ),
            decreases self.history@.len() - self.looked,
        {
            assert(views[self.looked as int] == self.history@[self.looked as int]@);
            self.looked = self.looked + 1;
        }
        if self.looked >= self.history.len() {
            self.phase = Phase::Ended;
            let r = Step::Finished(copy_records(&self.records));
            assert(self@ == (PassView {
                looked: self.looked as int,
                phase: Phase::Ended,
                ..old(self)@
            }));
            r
        } else {
            assert(views[self.looked as int] == self.history@[self.looked as int]@);
            self.phase = Phase::Absent;
            assert(self@ == (PassView {
                looked: self.looked as int,
                phase: Phase::Absent,
                ..old(self)@
            }));
            Step::CheckAbsent(self.history[self.looked].candidate.clone())
        }
    }

    fn go_to_candidate(&mut self, now: u64) -> (r: Step)
        requires
            old(self).at <= old(self).candidates@.len(),
            old(self).looked <= old(self).history@.len(),
        ensures
            final(self).wf(),
            (final(self)@, r@) == old(self)@.next_candidate(now),
    {
        if self.at >= self.candidates.len() {
            return self.go_to_record();
        }
        let candidate = self.candidates[self.at].clone();
        assert(candidate_views(self.candidates@)[self.at as int]
            == self.candidates@[self.at as int]@);
        let attempts: u32 = attempts_of(&self.history, &candidate);
        let ghost before = self@;
        self.current = Record {
            repository: copy_bytes(&self.repository),
            candidate: candidate.clone(),
            evidence: None,
            trigger: self.trigger.clone(),
            timestamp: now,
            attempts,
            state: State::Pending,
            reason: String::new(),
            worktree_removed: false,
            branch_removed: false,
        };
        self.phase = Phase::Saving;
        let ghost begun = PassView { current: before.fresh_record(candidate@, now), ..before };
        assert(self@.current =~= begun.current);
        assert(self@ =~= (PassView { phase: Phase::Saving, ..begun }));
        let (branch, commit) = match &self.integration {
            Ok(found) => (found.0.clone(), found.1.clone()),
            Err(message) => {
                let reason = "integration unavailable: ".to_owned().concat(message.as_str());
                let ghost said = reason@;
                let r = self.defer(reason);
                assert((self@, r@) == begun.defers(said));
                return r;
            },
        };
        let early = retention_reason(
            &self.policy,
            &candidate,
            branch.as_str(),
            &None,
            &None,
            &None,
        );
        if let Some(reason) = early {
            if !same(reason.as_str(), "merge not verified at current commit") {
                let ghost said = reason@;
                let r = self.defer(reason);
                assert((self@, r@) == begun.defers(said));
                return r;
            }
        }
        self.phase = Phase::Evidence;
        assert(self@ =~= (PassView { phase: Phase::Evidence, ..begun }));
        Step::FindEvidence(candidate, branch, commit)
    }

    fn kept(
        &self,
        owned: Result<Option<String>, String>,
        local: Result<Option<String>, String>,
    ) -> (r: Option<String>)
        requires
            self.integration is Ok,
        ensures
            text_of(r) == self@.kept_by(reason_view(owned), reason_view(local)),
    {
        let owned = match owned {
            Ok(owned) => owned,
            Err(message) => {
                return Some(message);
            },
        };
        let local = match local {
            Ok(local) => local,
            Err(message) => {
                return Some(message);
            },
        };
        match &self.integration {
            Ok(found) => retention_reason(
                &self.policy,
                &self.current.candidate,
                found.0.as_str(),
                &self.current.evidence,
                &owned,
                &local,
            ),
            Err(_) => None,
        }
    }

    fn go_to_branch(&mut self) -> (r: Step)
        requires
            old(self).wf(),
            old(self).in_hand(),
            old(self).phase != Phase::Saving,
        ensures
            final(self).wf(),
            (final(self)@, r@) == old(self)@.removes_branch(),
    {
        let branch = match &self.current.candidate.branch {
            Some(branch) => branch.clone(),
            None => {
                return self.finish_removal();
            },
        };
        self.phase = Phase::Branch;
        Step::RemoveBranch(branch, self.current.candidate.commit.clone())
    }

    fn finish_removal(&mut self) -> (r: Step)
        requires
            old(self).wf(),
            old(self).in_hand(),
        ensures
            final(self).wf(),
            (final(self)@, r@) == old(self)@.removed(),
    {
        self.current.state = State::Removed;
        self.current.reason = "verified merged resources removed".to_owned();
        let ghost middle = self@;
        let r = self.conclude();
        assert((self@, r@) == middle.concludes(middle.current));
        r
    }

    fn decide(&mut self, event: Event) -> (r: Step)
        requires
            old(self).wf(),
            old(self)@.awaits(event@),
            old(self).in_hand(),
        ensures
            final(self).wf(),
            (final(self)@, r@) == old(self)@.decides(event@),
    {
        match (self.phase, event) {
            (Phase::Evidence, Event::Evidence(evidence)) => {
                self.current.evidence = evidence;
                self.phase = Phase::First;
                Step::Inspect(self.current.candidate.clone())
            },
            (Phase::First, Event::Inspected(owned, local)) => {
                if let Some(reason) = self.kept(owned, local) {
                    return self.defer(reason);
                }
                if let Some(path) = &self.current.candidate.path {
                    let path = copy_bytes(path);
                    self.phase = Phase::Lease;
                    return Step::Lease(path);
                }
                self.phase = Phase::Second;
                Step::Inspect(self.current.candidate.clone())
            },
            (Phase::Lease, Event::Settled(result)) => match result {
                Err(message) => self.defer(message),
                Ok(_) => {
                    self.phase = Phase::Second;
                    Step::Inspect(self.current.candidate.clone())
                },
            },
            (Phase::Second, Event::Inspected(owned, local)) => {
                if let Some(reason) = self.kept(owned, local) {
                    return self.defer(reason);
                }
                if self.preview {
                    self.current.reason = "eligible; preview made no changes".to_owned();
                    let ghost middle = self@;
                    let r = self.conclude();
                    assert((self@, r@) == middle.concludes(middle.current));
                    return r;
                }
                self.current.state = State::Removing;
                self.current.reason = "verified and preparing removal".to_owned();
                self.phase = Phase::Intent;
                Step::Save(self.current.clone())
            },
            _ => self.fail("the pass has ended".to_owned()),
        }
    }

    fn carry_on(&mut self, event: Event) -> (r: Step)
        requires
            old(self).wf(),
            old(self)@.awaits(event@),
            old(self).in_hand(),
        ensures
            final(self).wf(),
            (final(self)@, r@) == old(self)@.removes(event@),
    {
        match (self.phase, event) {
            (Phase::Intent, Event::Settled(result)) => match result {
                Err(message) => self.defer(message),
                Ok(_) => {
                    self.phase = Phase::Unchanged;
                    Step::Verify(self.current.candidate.clone())
                },
            },
            (Phase::Unchanged, Event::Settled(result)) => match result {
                Err(message) => self.defer(message),
                Ok(_) => {
                    if self.current.evidence.is_none() {
                        return self.defer("missing merge evidence".to_owned());
                    }
                    let reference = match &self.integration {
                        Ok(found) => remote_reference(self.policy.remote.as_str(), found.0.as_str()),
                        Err(_) => String::new(),
                    };
                    self.phase = Phase::Current;
                    Step::Resolve(reference)
                },
            },
            (Phase::Current, Event::Printed(result)) => match result {
                Err(message) => self.defer(message),
                Ok(text) => {
                    let evidence = match &self.current.evidence {
                        Some(evidence) => evidence.clone(),
                        None => {
                            return self.defer("missing merge evidence".to_owned());
                        },
                    };
                    if !same(trim(text.as_str()).as_str(), evidence.integration()) {
                        return self.defer("integration reference changed".to_owned());
                    }
                    match evidence {
                        MergeEvidence::Ancestor { integration } => {
                            self.phase = Phase::Ancestry;
                            Step::Ancestor(self.current.candidate.commit.clone(), integration)
                        },
                        MergeEvidence::Github { integration, source, merge, .. } => {
                            if !same(source.as_str(), self.current.candidate.commit.as_str()) {
                                return self.defer("merge source changed".to_owned());
                            }
                            self.phase = Phase::Ancestry;
                            Step::Ancestor(merge, integration)
                        },
                    }
                },
            },
            (Phase::Ancestry, Event::Answered(answer)) => {
                if !answer {
                    return self.defer("merge evidence changed".to_owned());
                }
                self.phase = Phase::Owned;
                Step::CheckOwner(self.current.candidate.clone())
            },
            (Phase::Owned, Event::Owned(owned)) => match owned {
                Err(message) => self.defer(message),
                Ok(Some(reason)) => self.defer(reason),
                Ok(None) => {
                    if self.current.candidate.path.is_some() {
                        self.phase = Phase::Worktree;
                        return Step::RemoveWorktree(self.current.candidate.clone());
                    }
                    self.go_to_branch()
                },
            },
            (Phase::Worktree, Event::Settled(result)) => match result {
                Err(message) => self.defer(message),
                Ok(_) => {
                    self.current.worktree_removed = true;
                    self.phase = Phase::WorktreeSaved;
                    Step::Save(self.current.clone())
                },
            },
            (Phase::WorktreeSaved, Event::Settled(result)) => match result {
                Err(message) => self.defer(message),
                Ok(_) => self.go_to_branch(),
            },
            (Phase::Branch, Event::Settled(result)) => match result {
                Err(message) => self.defer(message),
                Ok(_) => {
                    self.current.branch_removed = true;
                    self.finish_removal()
                },
            },
            _ => self.fail("the pass has ended".to_owned()),
        }
    }

    fn recover(&mut self, event: Event, now: u64) -> (r: Step)
        requires
            old(self).wf(),
            old(self)@.awaits(event@),
            old(self).phase == Phase::Absent || old(self).phase == Phase::Recovered,
        ensures
            final(self).wf(),
            (final(self)@, r@) == old(self)@.recovers(event@, now),
    {
        let ghost before = self@;
        match (self.phase, event) {
            (Phase::Absent, Event::Absent(result)) => match result {
                Err(message) => self.fail(message),
                Ok(absent) => {
                    if !absent {
                        self.looked = self.looked + 1;
                        assert(self@ =~= (PassView { looked: before.looked + 1, ..before }));
                        return self.go_to_record();
                    }
                    let ghost views = record_views(self.history@);
                    assert(views[self.looked as int] == self.history@[self.looked as int]@);
                    let mut previous = self.history[self.looked].clone();
                    previous.state = State::Removed;
                    previous.reason = "reconciled removal after interrupted operation".to_owned();
                    previous.timestamp = now;
                    previous.trigger = self.trigger.clone();
                    previous.worktree_removed = previous.candidate.path.is_some();
                    previous.branch_removed = previous.candidate.branch.is_some();
                    self.current = previous;
                    self.phase = Phase::Recovered;
                    Step::Save(self.current.clone())
                },
            },
            (Phase::Recovered, Event::Settled(result)) => match result {
                Err(message) => self.fail(message),
                Ok(_) => {
                    let ghost old_records = self.records@;
                    let record = self.current.clone();
                    let ghost added = record@;
                    self.records.push(record);
                    self.looked = self.looked + 1;
                    assert(record_views(self.records@) =~= record_views(old_records).push(added));
                    assert(self@ =~= (PassView {
                        records: before.records.push(before.current),
                        looked: before.looked + 1,
                        ..before
                    }));
                    self.go_to_record()
                },
            },
            _ => self.fail("the pass has ended".to_owned()),
        }
    }

    /// Go on with what came of the last step.
    pub fn next(&mut self, event: Event, now: u64) -> (r: Step)
        requires
            old(self).wf(),
            old(self)@.awaits(event@),
        ensures
            final(self).wf(),
            (final(self)@, r@) == old(self)@.told(event@, now),
    {
        let ghost before = self@;
        match self.phase {
            Phase::Saving => match event {
                Event::Settled(result) => match result {
                Err(message) => self.fail(message),
                Ok(_) => {
                    let ghost old_records = self.records@;
                    let record = self.current.clone();
                    let ghost added = record@;
                    self.records.push(record);
                    self.at = self.at + 1;
                    assert(record_views(self.records@) =~= record_views(old_records).push(added));
                    assert(self@ =~= (PassView {
                        records: before.records.push(before.current),
                        at: before.at + 1,
                        ..before
                    }));
                    self.go_to_candidate(now)
                },
            },
                _ => self.fail("the pass has ended".to_owned()),
            },
            Phase::Evidence | Phase::First | Phase::Lease | Phase::Second => self.decide(event),
            Phase::Absent | Phase::Recovered => self.recover(event, now),
            _ => self.carry_on(event),
        }
    }

    /// Whether the lock of the candidate's path has to be held.
    pub fn holds_lease(&self) -> (r: bool)
        ensures
            r == (self@.current.candidate.path is Some && (self.phase == Phase::Second
                || self.phase == Phase::Intent || removing(self.phase))),
    {
        self.current.candidate.path.is_some() && match self.phase {
            Phase::Second
            | Phase::Intent
            | Phase::Unchanged
            | Phase::Current
            | Phase::Ancestry
            | Phase::Owned
            | Phase::Worktree
            | Phase::WorktreeSaved
            | Phase::Branch => true,
            _ => false,
        }
    }
}

/// The phases between a saved intent and the end of a removal.
pub open spec fn removing(phase: Phase) -> bool {
    match phase {
        Phase::Unchanged
        | Phase::Current
        | Phase::Ancestry
        | Phase::Owned
        | Phase::Worktree
        | Phase::WorktreeSaved
        | Phase::Branch => true,
        _ => false,
    }
}

/// One pass over a repository: its policy, what set it off, and whether it only previews.
pub struct Engine {
    pub repository: Repository,
    pub policy: Policy,
    pub trigger: String,
    pub preview: bool,
}

impl PassView {
    /// The pass before its first candidate.
    pub open spec fn begins(
        self,
        engine: Engine,
        history: Seq<RecordView>,
        integration: Result<(Seq<char>, Seq<char>), Seq<char>>,
        candidates: Seq<CandidateView>,
        now: u64,
    ) -> bool {
        &&& self.repository == engine.repository.root@
        &&& self.policy == engine.policy@
        &&& self.trigger == engine.trigger@
        &&& self.preview == engine.preview
        &&& self.history == history
        &&& self.integration == integration
        &&& self.candidates == candidates
        &&& self.records.len() == 0
        &&& self.at == 0
        &&& self.looked == 0
        &&& self.phase == Phase::Ended
        &&& self.current == blank_record(engine.repository.root@, engine.trigger@, now)
    }
}

/// A record of no candidate.
pub open spec fn blank_record(repository: Seq<u8>, trigger: Seq<char>, now: u64) -> RecordView {
    RecordView {
        repository,
        candidate: CandidateView {
            path: None,
            branch: None,
            commit: Seq::empty(),
            git_dir: None,
            identity: None,
            primary: false,
            locked: false,
            unavailable: false,
        },
        evidence: None,
        trigger,
        timestamp: now,
        attempts: 0,
        state: State::Pending,
        reason: Seq::empty(),
        worktree_removed: false,
        branch_removed: false,
    }
}

/// The records once one was saved: it takes the place of the first one, from `i` on, of the
/// same candidate, or else comes last.
pub open spec fn with_record(records: Seq<RecordView>, record: RecordView, i: nat) -> Seq<
    RecordView,
>
    decreases records.len() - i,
{
    if i >= records.len() {
        records.push(record)
    } else if records[i as int].candidate.same_as(record.candidate) {
        records.update(i as int, record)
    } else {
        with_record(records, record, i + 1)
    }
}

/// Whether something that a candidate stands for is among others.
pub open spec fn shares_resource(candidate: CandidateView, other: CandidateView) -> bool {
    ||| candidate.path is Some && place(other.path) == place(candidate.path)
    ||| candidate.branch is Some && other.branch == candidate.branch
}

pub open spec fn any_shares(candidate: CandidateView, others: Seq<CandidateView>) -> bool {
    exists|i: int| 0 <= i < others.len() && shares_resource(candidate, #[trigger] others[i])
}

impl Engine {
    /// Where the records of earlier passes are kept.
    pub fn history(&self) -> (r: Vec<u8>)
        ensures
            r@ == joined(
                joined(self.repository.common@, encode_utf8("herdr-cleanup"@)),
                encode_utf8("records.json"@),
            ),
    {
        join(&self.repository.state_dir(), "records.json".as_bytes())
    }

    /// Why the pass is not made, if it is not: the settings no longer name its repository,
    /// or its policy has changed.
    pub open spec fn stale(self, settings: Option<SettingsView>) -> Option<Seq<char>> {
        match settings {
            None => None,
            Some(settings) => match settings.policy_of(self.repository.root@) {
                None => Some("repository registration changed"@),
                Some(policy) => if policy.same_as(self.policy@) {
                    None
                } else {
                    Some("cleanup policy changed; reconciliation deferred"@)
                },
            },
        }
    }

    /// Hold the pass against the settings that hold now, where it was set off by settings.
    /// This needs nothing but them, and comes before any other work for the pass.
    pub fn still_current(&self, settings: &Option<Settings>) -> (r: Result<(), String>)
        ensures
            match self.stale(
                match *settings {
                    Some(settings) => Some(settings@),
                    None => None,
                },
            ) {
                Some(message) => r matches Err(text) && text@ == message,
                None => r matches Ok(_),
            },
    {
        if let Some(settings) = settings {
            match settings.position(&self.repository.root) {
                None => {
                    return Err("repository registration changed".to_owned());
                },
                Some(i) => {
                    assert(settings@.repositories[i as int] == settings.repositories@[i as int]@);
                    let current = match &settings.repositories[i].policy {
                        Some(policy) => policy,
                        None => &settings.policy,
                    };
                    if !current.equals(&self.policy) {
                        return Err("cleanup policy changed; reconciliation deferred".to_owned());
                    }
                },
            }
        }
        Ok(())
    }

    /// Begin the pass. `settings` are those that hold now, where the pass was set off by
    /// settings; `history` holds the records of earlier passes, `integration` the branch and
    /// commit to look for merges in, and `candidates` what was discovered.
    pub fn reconcile(
        self,
        settings: &Option<Settings>,
        history: Vec<Record>,
        integration: Result<(String, String), String>,
        candidates: Vec<Candidate>,
        now: u64,
    ) -> (r: Result<(Reconciliation, Step), String>)
        ensures
            match self.stale(
                match *settings {
                    Some(settings) => Some(settings@),
                    None => None,
                },
            ) {
                Some(message) => r matches Err(text) && text@ == message,
                None => r matches Ok(begun) && begun.0.wf() && exists|start: PassView|
                    #[trigger] start.begins(
                        self,
                        record_views(history@),
                        integration_view(integration),
                        candidate_views(candidates@),
                        now,
                    ) && (begun.0@, begun.1@) == start.next_candidate(now),
            },
    {
        if let Err(message) = self.still_current(settings) {
            return Err(message);
        }
        let blank = Record {
            repository: copy_bytes(&self.repository.root),
            candidate: Candidate {
                path: None,
                branch: None,
                commit: String::new(),
                git_dir: None,
                identity: None,
                primary: false,
                locked: false,
                unavailable: false,
            },
            evidence: None,
            trigger: self.trigger.clone(),
            timestamp: now,
            attempts: 0,
            state: State::Pending,
            reason: String::new(),
            worktree_removed: false,
            branch_removed: false,
        };
        let ghost engine = self;
        let ghost known = record_views(history@);
        let ghost found = integration_view(integration);
        let ghost all = candidate_views(candidates@);
        let mut pass = Reconciliation {
            repository: copy_bytes(&self.repository.root),
            policy: self.policy,
            trigger: self.trigger,
            preview: self.preview,
            history,
            integration,
            candidates,
            records: Vec::new(),
            at: 0,
            looked: 0,
            phase: Phase::Ended,
            current: blank,
        };
        let ghost start = pass@;
        assert(start.current =~= blank_record(engine.repository.root@, engine.trigger@, now));
        assert(start.begins(engine, known, found, all, now));
        let step = pass.go_to_candidate(now);
        Ok((pass, step))
    }

    /// Why sessions or processes keep a candidate, if they do. `sessions` is what the
    /// sessions' records say of its worktree, and `processes` what is known of processes.
    pub fn ownership_reason(
        candidate: &Candidate,
        sessions: Result<Option<String>, String>,
        processes: &CleanupProcessUse,
    ) -> (r: Result<Option<String>, String>)
        ensures
            reason_view(r) == (if candidate@.path is None {
                Ok(None)
            } else {
                match sessions {
                    Err(message) => Err(message@),
                    Ok(Some(reason)) => Ok(Some(reason@)),
                    Ok(None) => match processes {
                        CleanupProcessUse::Clear => Ok(None),
                        CleanupProcessUse::Active(pid) => Ok(
                            Some("worktree in use by process "@ + decimal(*pid as nat)),
                        ),
                        CleanupProcessUse::Unknown(reason) => Ok(
                            Some("process ownership uncertain: "@ + reason@),
                        ),
                    },
                }
            }),
    {
        if candidate.path.is_none() {
            return Ok(None);
        }
        match sessions {
            Err(message) => {
                return Err(message);
            },
            Ok(Some(reason)) => {
                return Ok(Some(reason));
            },
            Ok(None) => {},
        }
        match processes {
            CleanupProcessUse::Clear => Ok(None),
            CleanupProcessUse::Active(pid) => Ok(
                Some(
                    "worktree in use by process ".to_owned().concat(
                        decimal_text(*pid as u64).as_str(),
                    ),
                ),
            ),
            CleanupProcessUse::Unknown(reason) => Ok(
                Some("process ownership uncertain: ".to_owned().concat(reason.as_str())),
            ),
        }
    }

    /// Whether what an interrupted record stands for is gone. `on_disk` says whether its
    /// worktree exists, and `current` what is discovered now.
    pub fn resources_absent(
        candidate: &Candidate,
        on_disk: Result<bool, String>,
        current: &Result<Vec<Candidate>, String>,
    ) -> (r: Result<bool, String>)
        ensures
            candidate@.path is Some && on_disk is Err ==> r == Err::<bool, String>(
                on_disk->Err_0,
            ),
            candidate@.path is Some && on_disk == Ok::<bool, String>(true) ==> r == Ok::<
                bool,
                String,
            >(false),
            candidate@.path is None || on_disk == Ok::<bool, String>(false) ==> (match current {
                Err(message) => r matches Err(text) && text@ == message@,
                Ok(found) => r == Ok::<bool, String>(
                    !any_shares(candidate@, candidate_views(found@)),
                ),
            }),
    {
        if candidate.path.is_some() {
            match on_disk {
                Err(message) => {
                    return Err(message);
                },
                Ok(present) => {
                    if present {
                        return Ok(false);
                    }
                },
            }
        }
        let found = match current {
            Ok(found) => found,
            Err(message) => {
                return Err(message.clone());
            },
        };
        let ghost views = candidate_views(found@);
        let mut i: usize = 0;
        while i < found.len()
            invariant
                i <= found@.len(),
                *current == Ok::<Vec<Candidate>, String>(*found),
                candidate@.path is None || on_disk == Ok::<bool, String>(false),
                views == candidate_views(found@),
                forall|j: int| 0 <= j < i ==> !shares_resource(candidate@, #[trigger] views[j]),
            decreases found@.len() - i,
        {
            assert(views[i as int] == found@[i as int]@);
            let other = &found[i];
            if (candidate.path.is_some() && super::policy::same_place(&other.path, &candidate.path))
                || (candidate.branch.is_some() && super::policy::same_text(
                &other.branch,
                &candidate.branch,
            )) {
                assert(shares_resource(candidate@, views[i as int]));
                return Ok(false);
            }
            i = i + 1;
        }
        Ok(true)
    }

    /// The records once one was saved.
    pub fn record(records: Vec<Record>, record: &Record) -> (r: Vec<Record>)
        ensures
            record_views(r@) == with_record(record_views(records@), record@, 0),
    {
        let mut kept = records;
        let ghost views = record_views(kept@);
        let mut i: usize = 0;
        while i < kept.len()
            invariant
                i <= kept@.len(),
                views == record_views(kept@),
                views == record_views(records@),
                with_record(views, record@, 0) == with_record(views, record@, i as nat),
            decreases kept@.len() - i,
        {
            assert(views[i as int] == kept@[i as int]@);
            if kept[i].candidate.equals(&record.candidate) {
                kept.set(i, record.clone());
                assert(record_views(kept@) =~= views.update(i as int, record@));
                return kept;
            }
            i = i + 1;
        }
        kept.push(record.clone());
        assert(record_views(kept@) =~= views.push(record@));
        kept
    }
}

/// A pass never stands between the intent to remove and its end without every clearance
/// that does not change by itself.
pub open spec fn cleared(pass: PassView) -> bool {
    removing(pass.phase) || pass.phase == Phase::Intent ==> {
        &&& !pass.preview
        &&& pass.integration is Ok
        &&& pass.current.state == State::Removing
        &&& retention(
            pass.policy,
            pass.candidate(),
            pass.branch(),
            pass.current.evidence is Some,
            None,
            None,
        ) is None
    }
}

/// A pass keeps the clearance of what it removes, whatever it is told.
pub proof fn clearance_is_kept(pass: PassView, event: EventView, now: u64)
    requires
        cleared(pass),
        pass.awaits(event),
        pass.phase == Phase::Second ==> pass.integration is Ok,
    ensures
        cleared(pass.told(event, now).0),
{
}

/// A pass that begins has nothing to remove yet.
pub proof fn fresh_pass_removes_nothing(pass: PassView, now: u64)
    requires
        !removing(pass.phase) && pass.phase != Phase::Intent,
    ensures
        cleared(pass.next_candidate(now).0),
        !(pass.next_candidate(now).1 is RemoveWorktree),
        !(pass.next_candidate(now).1 is RemoveBranch),
{
}

/// What a pass removes is the candidate in hand. It was merged and is owned by nobody, its
/// intent was saved, it is no primary checkout and no protected branch, and no preview
/// removes it.
pub proof fn only_cleared_candidates_are_removed(pass: PassView, event: EventView, now: u64)
    requires
        cleared(pass),
        pass.awaits(event),
        pass.told(event, now).1 is RemoveWorktree || pass.told(event, now).1 is RemoveBranch,
    ensures
        !pass.preview,
        pass.policy.enabled,
        pass.current.state == State::Removing,
        pass.current.evidence is Some,
        !pass.candidate().primary,
        !pass.candidate().locked,
        !pass.candidate().unavailable,
        pass.phase == Phase::Owned ==> event == EventView::Owned(Ok(None)),
        pass.told(event, now).1 matches StepView::RemoveWorktree(removed) ==> removed
            == pass.candidate() && pass.phase == Phase::Owned,
        pass.told(event, now).1 matches StepView::RemoveBranch(branch, commit) ==> Some(branch)
            == pass.candidate().branch && commit == pass.candidate().commit,
{
}

/// A pass enters a removal only once its intent was saved.
pub proof fn intent_is_saved_before_removal(pass: PassView, event: EventView, now: u64)
    requires
        pass.awaits(event),
        !removing(pass.phase),
        removing(pass.told(event, now).0.phase),
    ensures
        pass.phase == Phase::Intent,
        event matches EventView::Settled(Ok(_)),
        pass.current.state == State::Removing ==> pass.told(event, now).0.current == pass.current,
{
}

/// The intent to remove needs a second look, under the lease, that finds no owner and no
/// local work.
pub proof fn intent_needs_a_clear_second_look(pass: PassView, event: EventView, now: u64)
    requires
        pass.awaits(event),
        pass.phase != Phase::Intent,
        pass.told(event, now).0.phase == Phase::Intent,
    ensures
        pass.phase == Phase::Second,
        event == EventView::Inspected(Ok(None), Ok(None)),
        !pass.preview,
{
}

/// Two records say the same but for what set off their passes, when they were made, and how
/// many attempts there were.
pub open spec fn same_decision(a: RecordView, b: RecordView) -> bool {
    a == (RecordView {
        trigger: a.trigger,
        timestamp: a.timestamp,
        attempts: a.attempts,
        ..b
    })
}

pub open spec fn same_decisions(a: Seq<RecordView>, b: Seq<RecordView>) -> bool {
    a.len() == b.len() && forall|i: int|
        0 <= i < a.len() ==> same_decision(#[trigger] a[i], b[i])
}

pub open spec fn same_attempts(a: Seq<RecordView>, b: Seq<RecordView>) -> bool {
    a.len() == b.len() && forall|i: int|
        0 <= i < a.len() ==> (#[trigger] a[i]).attempts == b[i].attempts
}

/// The interrupted records of a history, from `i` on.
pub open spec fn unfinished(history: Seq<RecordView>, i: int) -> Seq<RecordView>
    decreases history.len() - i,
{
    if i < 0 || i >= history.len() {
        Seq::empty()
    } else if interrupted(history[i]) {
        seq![history[i]] + unfinished(history, i + 1)
    } else {
        unfinished(history, i + 1)
    }
}

proof fn lemma_next_unfinished(history: Seq<RecordView>, i: int)
    requires
        0 <= i <= history.len(),
    ensures
        i <= next_interrupted(history, i) <= history.len(),
        unfinished(history, next_interrupted(history, i)) == unfinished(history, i),
        next_interrupted(history, i) < history.len() ==> interrupted(
            history[next_interrupted(history, i)],
        ),
        (next_interrupted(history, i) >= history.len()) == (unfinished(history, i).len() == 0),
    decreases history.len() - i,
{
    if i < history.len() && !interrupted(history[i]) {
        lemma_next_unfinished(history, i + 1);
    }
}

/// The pass looks at an interrupted record of the history.
pub open spec fn at_interrupted(pass: PassView) -> bool {
    pass.looked < pass.history.len() && interrupted(pass.history[pass.looked])
}

/// Two passes have decided alike and have the same interrupted records before them.
pub open spec fn same_progress(a: PassView, b: PassView) -> bool {
    &&& a == (PassView {
        trigger: a.trigger,
        records: a.records,
        current: a.current,
        history: a.history,
        looked: a.looked,
        ..b
    })
    &&& 0 <= a.looked <= a.history.len()
    &&& 0 <= b.looked <= b.history.len()
    &&& same_decision(a.current, b.current)
    &&& same_decisions(a.records, b.records)
    &&& same_decisions(unfinished(a.history, a.looked), unfinished(b.history, b.looked))
    &&& a.history == b.history ==> {
        &&& a.looked == b.looked
        &&& a.current.attempts == b.current.attempts
        &&& same_attempts(a.records, b.records)
    }
}

/// Two passes stand alike but for what set them off, for the times and the numbers of attempts
/// in their records, and for what their histories hold besides interrupted records.
pub open spec fn same_pass(a: PassView, b: PassView) -> bool {
    &&& same_progress(a, b)
    &&& a.phase == Phase::Absent || a.phase == Phase::Recovered ==> at_interrupted(a)
        && at_interrupted(b)
}

/// Two steps do the same, but for what set off the passes of the records they carry, and
/// the times and numbers of attempts in them.
pub open spec fn same_step(a: StepView, b: StepView) -> bool {
    match a {
        StepView::Save(record) => b matches StepView::Save(other) && same_decision(record, other),
        StepView::Finished(records) => b matches StepView::Finished(others) && same_decisions(
            records,
            others,
        ),
        _ => a == b,
    }
}

proof fn lemma_same_record(a: PassView, b: PassView)
    requires
        same_progress(a, b),
    ensures
        same_pass(a.next_record().0, b.next_record().0),
        same_step(a.next_record().1, b.next_record().1),
{
    lemma_next_unfinished(a.history, a.looked);
    lemma_next_unfinished(b.history, b.looked);
    let mine = unfinished(a.history, a.looked);
    let others = unfinished(b.history, b.looked);
    let i = next_interrupted(a.history, a.looked);
    let j = next_interrupted(b.history, b.looked);
    if i < a.history.len() {
        assert(mine[0] == a.history[i]);
        assert(others[0] == b.history[j]);
        assert(same_decision(mine[0], others[0]));
    }
}

/// Past an interrupted record, two passes still have the same ones before them.
proof fn lemma_same_rest(a: PassView, b: PassView)
    requires
        same_pass(a, b),
        a.phase == Phase::Absent || a.phase == Phase::Recovered,
    ensures
        same_decision(a.history[a.looked], b.history[b.looked]),
        same_decisions(
            unfinished(a.history, a.looked + 1),
            unfinished(b.history, b.looked + 1),
        ),
{
    let mine = unfinished(a.history, a.looked);
    let others = unfinished(b.history, b.looked);
    let rest = unfinished(a.history, a.looked + 1);
    let other_rest = unfinished(b.history, b.looked + 1);
    assert(mine[0] == a.history[a.looked] && others[0] == b.history[b.looked]);
    assert(same_decision(mine[0], others[0]));
    assert forall|i: int| 0 <= i < rest.len() implies same_decision(
        #[trigger] rest[i],
        other_rest[i],
    ) by {
        assert(mine[i + 1] == rest[i] && others[i + 1] == other_rest[i]);
        assert(same_decision(mine[i + 1], others[i + 1]));
    }
}

pub(super) proof fn lemma_same_candidate(a: PassView, b: PassView, now: u64, other: u64)
    requires
        same_progress(a, b),
        a.phase != Phase::Absent && a.phase != Phase::Recovered,
    ensures
        same_pass(a.next_candidate(now).0, b.next_candidate(other).0),
        same_step(a.next_candidate(now).1, b.next_candidate(other).1),
{
    if a.at >= a.candidates.len() {
        lemma_same_record(a, b);
    }
}

proof fn lemma_same_look(a: PassView, b: PassView, event: EventView)
    requires
        same_pass(a, b),
        a.awaits(event),
        a.phase == Phase::Evidence || a.phase == Phase::First || a.phase == Phase::Lease
            || a.phase == Phase::Second,
    ensures
        same_pass(a.decides(event).0, b.decides(event).0),
        same_step(a.decides(event).1, b.decides(event).1),
{
    if a.phase == Phase::First || a.phase == Phase::Second {
        assert(a.kept_by(event->Inspected_0, event->Inspected_1) == b.kept_by(
            event->Inspected_0,
            event->Inspected_1,
        ));
    }
}

/// Two passes stay alike where both come to the same phase and change their current records
/// alike.
proof fn lemma_same_change(a: PassView, b: PassView, x: PassView, y: PassView)
    requires
        same_progress(a, b),
        x == (PassView { current: x.current, phase: x.phase, ..a }),
        y == (PassView { current: y.current, phase: x.phase, ..b }),
        x.phase != Phase::Absent && x.phase != Phase::Recovered,
        same_decision(x.current, y.current),
        x.current.attempts == a.current.attempts,
        y.current.attempts == b.current.attempts,
    ensures
        same_pass(x, y),
{
}

proof fn lemma_same_removal(a: PassView, b: PassView, event: EventView)
    requires
        same_pass(a, b),
        a.awaits(event),
        removing(a.phase) || a.phase == Phase::Intent,
    ensures
        same_pass(a.removes(event).0, b.removes(event).0),
        same_step(a.removes(event).1, b.removes(event).1),
{
    let x = a.removes(event).0;
    let y = b.removes(event).0;
    assert(a.candidate() == b.candidate() && a.branch() == b.branch());
    assert(x == (PassView { current: x.current, phase: x.phase, ..a }));
    assert(y == (PassView { current: y.current, phase: y.phase, ..b }));
    assert(x.phase == y.phase);
    assert(same_decision(x.current, y.current));
    lemma_same_change(a, b, x, y);
}

proof fn lemma_same_recovery(a: PassView, b: PassView, event: EventView, now: u64, other: u64)
    requires
        same_pass(a, b),
        a.awaits(event),
        a.phase == Phase::Absent || a.phase == Phase::Recovered,
    ensures
        same_pass(a.recovers(event, now).0, b.recovers(event, other).0),
        same_step(a.recovers(event, now).1, b.recovers(event, other).1),
{
    lemma_same_rest(a, b);
    if a.phase == Phase::Absent {
        lemma_same_record(
            PassView { looked: a.looked + 1, ..a },
            PassView { looked: b.looked + 1, ..b },
        );
    } else {
        lemma_same_record(
            PassView { records: a.records.push(a.current), looked: a.looked + 1, ..a },
            PassView { records: b.records.push(b.current), looked: b.looked + 1, ..b },
        );
    }
}

/// Neither what sets off a pass nor the clock nor what earlier passes have settled has a part
/// in what it decides: told the same, at whatever times, two passes that differ in these alone
/// take the same steps.
pub proof fn decisions_depend_on_neither_trigger_nor_clock(
    a: PassView,
    b: PassView,
    event: EventView,
    now: u64,
    other: u64,
)
    requires
        same_pass(a, b),
        a.awaits(event),
    ensures
        same_pass(a.told(event, now).0, b.told(event, other).0),
        same_step(a.told(event, now).1, b.told(event, other).1),
{
    match a.phase {
        Phase::Saving => {
            lemma_same_candidate(
                PassView { records: a.records.push(a.current), at: a.at + 1, ..a },
                PassView { records: b.records.push(b.current), at: b.at + 1, ..b },
                now,
                other,
            );
        },
        Phase::Evidence | Phase::First | Phase::Lease | Phase::Second => {
            lemma_same_look(a, b, event);
        },
        Phase::Absent | Phase::Recovered => {
            lemma_same_recovery(a, b, event, now, other);
        },
        _ => {
            lemma_same_removal(a, b, event);
        },
    }
}

/// A record is deferred for a reason and otherwise stays as it was, and it is saved.
pub open spec fn put_off(pass: PassView, after: PassView, step: StepView, reason: Seq<char>) -> bool {
    &&& after.phase == Phase::Saving
    &&& step == StepView::Save(after.current)
    &&& after.current.state == State::Deferred
    &&& after.current.reason == reason
    &&& after.current.candidate == pass.current.candidate
    &&& after.current.evidence == pass.current.evidence
    &&& after.current.repository == pass.current.repository
    &&& after.current.trigger == pass.current.trigger
    &&& after.current.timestamp == pass.current.timestamp
    &&& after.current.attempts == pass.current.attempts
    &&& after.current.worktree_removed == pass.current.worktree_removed
    &&& after.current.branch_removed == pass.current.branch_removed
    &&& after.records == pass.records
    &&& after.at == pass.at
}

/// Whatever goes wrong with a candidate in hand, the candidate is put off with what went
/// wrong as the reason: nothing more is removed.
pub proof fn trouble_puts_a_candidate_off(pass: PassView, now: u64, message: Seq<char>)
    ensures
        pass.phase == Phase::Lease || pass.phase == Phase::Intent || pass.phase == Phase::Unchanged
            || pass.phase == Phase::Worktree || pass.phase == Phase::WorktreeSaved || pass.phase
            == Phase::Branch ==> {
            let next = pass.told(EventView::Settled(Err(message)), now);
            put_off(pass, next.0, next.1, message)
        },
        pass.phase == Phase::Current ==> {
            let next = pass.told(EventView::Printed(Err(message)), now);
            put_off(pass, next.0, next.1, message)
        },
        pass.phase == Phase::Owned ==> {
            let next = pass.told(EventView::Owned(Err(message)), now);
            put_off(pass, next.0, next.1, message)
        },
        pass.phase == Phase::Owned ==> {
            let next = pass.told(EventView::Owned(Ok(Some(message))), now);
            put_off(pass, next.0, next.1, message)
        },
        pass.phase == Phase::Ancestry ==> {
            let next = pass.told(EventView::Answered(false), now);
            put_off(pass, next.0, next.1, "merge evidence changed"@)
        },
{
}

/// Owners and local work are both asked about, twice, and either answer, or one that is
/// missing, puts the candidate off.
pub proof fn owners_and_local_work_put_a_candidate_off(
    pass: PassView,
    now: u64,
    owned: Result<Option<Seq<char>>, Seq<char>>,
    local: Result<Option<Seq<char>>, Seq<char>>,
)
    requires
        pass.phase == Phase::First || pass.phase == Phase::Second,
        pass.integration is Ok,
    ensures
        owned matches Err(message) ==> {
            let next = pass.told(EventView::Inspected(owned, local), now);
            put_off(pass, next.0, next.1, message)
        },
        owned is Ok ==> (local matches Err(message) ==> {
            let next = pass.told(EventView::Inspected(owned, local), now);
            put_off(pass, next.0, next.1, message)
        }),
        owned is Err || local is Err || owned->Ok_0 is Some || local->Ok_0 is Some
            || pass.current.evidence is None || !pass.policy.enabled || pass.candidate().primary
            || pass.candidate().locked || pass.candidate().unavailable ==> {
            let next = pass.told(EventView::Inspected(owned, local), now);
            put_off(pass, next.0, next.1, next.0.current.reason)
        },
{
}

/// A candidate goes through its steps in order: evidence, a first look, the lease of its
/// worktree, a second look, the intent, and then every check once more before its worktree
/// and then its branch are removed.
pub proof fn candidates_go_through_every_step(pass: PassView, now: u64, evidence: Option<EvidenceView>)
    requires
        pass.integration is Ok,
    ensures
        pass.phase == Phase::Evidence ==> {
            let next = pass.told(EventView::Evidence(evidence), now);
            &&& next.0.phase == Phase::First
            &&& next.1 == StepView::Inspect(pass.current.candidate)
            &&& next.0.current.evidence == evidence
            &&& next.0.current.candidate == pass.current.candidate
        },
        pass.phase == Phase::Lease ==> {
            let next = pass.told(EventView::Settled(Ok(())), now);
            &&& next.0.phase == Phase::Second
            &&& next.1 == StepView::Inspect(pass.current.candidate)
        },
        pass.phase == Phase::Intent ==> {
            let next = pass.told(EventView::Settled(Ok(())), now);
            &&& next.0.phase == Phase::Unchanged
            &&& next.1 == StepView::Verify(pass.current.candidate)
        },
        pass.phase == Phase::Unchanged && pass.current.evidence is Some ==> {
            let next = pass.told(EventView::Settled(Ok(())), now);
            &&& next.0.phase == Phase::Current
            &&& next.1 == StepView::Resolve(
                "refs/remotes/"@ + pass.policy.remote + "/"@ + (pass.integration->Ok_0).0,
            )
        },
        pass.phase == Phase::Ancestry ==> {
            let next = pass.told(EventView::Answered(true), now);
            &&& next.0.phase == Phase::Owned
            &&& next.1 == StepView::CheckOwner(pass.current.candidate)
        },
        pass.phase == Phase::Owned && pass.current.candidate.path is Some ==> {
            let next = pass.told(EventView::Owned(Ok(None)), now);
            &&& next.0.phase == Phase::Worktree
            &&& next.1 == StepView::RemoveWorktree(pass.current.candidate)
        },
        pass.phase == Phase::Worktree ==> {
            let next = pass.told(EventView::Settled(Ok(())), now);
            &&& next.0.phase == Phase::WorktreeSaved
            &&& next.0.current.worktree_removed
            &&& next.0.current.branch_removed == pass.current.branch_removed
            &&& next.0.current.state == pass.current.state
            &&& next.1 == StepView::Save(next.0.current)
        },
        pass.phase == Phase::WorktreeSaved || (pass.phase == Phase::Owned
            && pass.current.candidate.path is None) ==> {
            let event = if pass.phase == Phase::Owned {
                EventView::Owned(Ok(None))
            } else {
                EventView::Settled(Ok(()))
            };
            let next = pass.told(event, now);
            match pass.current.candidate.branch {
                Some(branch) => next.0.phase == Phase::Branch && next.1 == StepView::RemoveBranch(
                    branch,
                    pass.current.candidate.commit,
                ),
                None => next.0.phase == Phase::Saving && next.0.current.state == State::Removed
                    && next.1 == StepView::Save(next.0.current),
            }
        },
        pass.phase == Phase::Branch ==> {
            let next = pass.told(EventView::Settled(Ok(())), now);
            &&& next.0.phase == Phase::Saving
            &&& next.0.current.branch_removed
            &&& next.0.current.worktree_removed == pass.current.worktree_removed
            &&& next.0.current.state == State::Removed
            &&& next.0.current.reason == "verified merged resources removed"@
            &&& next.1 == StepView::Save(next.0.current)
        },
{
}

/// A candidate that nothing keeps goes on: a worktree to its lease, a branch to its second
/// look; and after the second look a preview says so and stops, and any other pass saves its
/// intent.
pub proof fn free_candidates_go_on(pass: PassView, now: u64)
    requires
        pass.integration is Ok,
        retention(
            pass.policy,
            pass.current.candidate,
            (pass.integration->Ok_0).0,
            pass.current.evidence is Some,
            None,
            None,
        ) is None,
    ensures
        pass.phase == Phase::First ==> {
            let next = pass.told(EventView::Inspected(Ok(None), Ok(None)), now);
            match pass.current.candidate.path {
                Some(path) => next.0.phase == Phase::Lease && next.1 == StepView::Lease(path),
                None => next.0.phase == Phase::Second && next.1 == StepView::Inspect(
                    pass.current.candidate,
                ),
            }
        },
        pass.phase == Phase::Second && pass.preview ==> {
            let next = pass.told(EventView::Inspected(Ok(None), Ok(None)), now);
            &&& next.0.phase == Phase::Saving
            &&& next.0.current.state == pass.current.state
            &&& next.0.current.reason == "eligible; preview made no changes"@
            &&& next.0.current.candidate == pass.current.candidate
            &&& next.0.current.worktree_removed == pass.current.worktree_removed
            &&& next.0.current.branch_removed == pass.current.branch_removed
            &&& next.1 == StepView::Save(next.0.current)
        },
        pass.phase == Phase::Second && !pass.preview ==> {
            let next = pass.told(EventView::Inspected(Ok(None), Ok(None)), now);
            &&& next.0.phase == Phase::Intent
            &&& next.0.current.state == State::Removing
            &&& next.0.current.candidate == pass.current.candidate
            &&& next.0.current.evidence == pass.current.evidence
            &&& next.1 == StepView::Save(next.0.current)
        },
{
}

/// The evidence is held against the integration reference as it stands: where the reference
/// moved, or the pull request took another source, the candidate is put off; otherwise the
/// very commit that the evidence speaks of is asked about.
pub proof fn evidence_is_checked_again(pass: PassView, now: u64, printed: Seq<char>)
    requires
        pass.phase == Phase::Current,
        pass.current.evidence is Some,
    ensures
        ({
            let next = pass.told(EventView::Printed(Ok(printed)), now);
            match pass.current.evidence->0 {
                EvidenceView::Ancestor { integration } => if trimmed(printed) != integration {
                    put_off(pass, next.0, next.1, "integration reference changed"@)
                } else {
                    next.1 == StepView::Ancestor(pass.current.candidate.commit, integration)
                        && next.0.phase == Phase::Ancestry
                },
                EvidenceView::Github { integration, source, merge, .. } => if trimmed(printed)
                    != integration {
                    put_off(pass, next.0, next.1, "integration reference changed"@)
                } else if source != pass.current.candidate.commit {
                    put_off(pass, next.0, next.1, "merge source changed"@)
                } else {
                    next.1 == StepView::Ancestor(merge, integration) && next.0.phase
                        == Phase::Ancestry
                },
            }
        }),
{
}

/// A decision that was saved is one of the records of the pass, and the pass goes on to the
/// next candidate; a decision that could not be saved ends it.
pub proof fn saved_decisions_are_kept(pass: PassView, now: u64, message: Seq<char>)
    requires
        pass.phase == Phase::Saving,
        0 <= pass.at < pass.candidates.len(),
    ensures
        pass.told(EventView::Settled(Ok(())), now).0.records == pass.records.push(pass.current),
        pass.told(EventView::Settled(Ok(())), now).0.at == pass.at + 1,
        pass.at + 1 < pass.candidates.len() ==> pass.told(
            EventView::Settled(Ok(())),
            now,
        ).0.current.candidate == pass.candidates[pass.at + 1],
        pass.told(EventView::Settled(Err(message)), now).1 == StepView::Failed(message),
        pass.told(EventView::Settled(Err(message)), now).0.phase == Phase::Ended,
{
}

/// A candidate begins with a record of its own: nothing is known, nothing was removed, and
/// where the integration is not known, or the policy keeps the candidate in any case, it is
/// put off at once.
pub proof fn candidates_begin_afresh(pass: PassView, now: u64)
    requires
        0 <= pass.at < pass.candidates.len(),
    ensures
        ({
            let next = pass.next_candidate(now);
            let record = next.0.current;
            &&& record.candidate == pass.candidates[pass.at]
            &&& record.repository == pass.repository
            &&& record.trigger == pass.trigger
            &&& record.timestamp == now
            &&& record.evidence is None
            &&& !record.worktree_removed
            &&& !record.branch_removed
            &&& (pass.integration matches Err(reason)) ==> next.1 == StepView::Save(record)
                && record.state == State::Deferred && record.reason == "integration unavailable: "@
                + pass.integration->Err_0
            &&& pass.integration is Ok && (!pass.policy.enabled || pass.candidates[pass.at].primary
                || pass.candidates[pass.at].locked || pass.candidates[pass.at].unavailable)
                ==> next.1 == StepView::Save(record) && record.state == State::Deferred
            &&& next.1 is Save || next.1 == StepView::FindEvidence(
                pass.candidates[pass.at],
                (pass.integration->Ok_0).0,
                (pass.integration->Ok_0).1,
            )
            &&& next.1 is FindEvidence ==> record.state == State::Pending && next.0.phase
                == Phase::Evidence
            &&& next.1 is Save ==> record.state == State::Deferred && next.0.phase == Phase::Saving
        }),
        pass.integration is Ok && retention(
            pass.policy,
            pass.candidates[pass.at],
            (pass.integration->Ok_0).0,
            true,
            None,
            None,
        ) is None ==> pass.next_candidate(now).1 is FindEvidence,
{
    let candidate = pass.candidates[pass.at];
    let branch = (pass.integration->Ok_0).0;
    reveal_strlit("merge not verified at current commit");
    reveal_strlit("automatic cleanup disabled");
    reveal_strlit("primary checkout");
    reveal_strlit("worktree identity unavailable");
    reveal_strlit("worktree locked");
    assert("merge not verified at current commit"@.len() == 36);
    assert("automatic cleanup disabled"@.len() == 26);
    assert("primary checkout"@.len() == 16);
    assert("worktree identity unavailable"@.len() == 29);
    assert("worktree locked"@.len() == 15);
}

proof fn lemma_attempts(history: Seq<RecordView>, candidate: CandidateView, n: nat)
    requires
        n <= history.len(),
    ensures
        (forall|k: int| 0 <= k < n ==> !(#[trigger] history[k]).candidate.same_as(candidate))
            ==> attempt_number(history, candidate, n) == 1,
        forall|k: int|
            0 <= k < n && (#[trigger] history[k]).candidate.same_as(candidate) && (forall|j: int|
                k < j < n ==> !(#[trigger] history[j]).candidate.same_as(candidate))
                ==> attempt_number(history, candidate, n) == (if history[k].attempts < u32::MAX {
                history[k].attempts + 1
            } else {
                u32::MAX as int
            }),
    decreases n,
{
    if n > 0 {
        lemma_attempts(history, candidate, (n - 1) as nat);
    }
}

/// Attempts are counted: the first for a candidate is number one, and each later one is one
/// more than the last on record.
pub proof fn attempts_are_counted(history: Seq<RecordView>, candidate: CandidateView, k: int)
    ensures
        (forall|j: int|
            0 <= j < history.len() ==> !(#[trigger] history[j]).candidate.same_as(candidate))
            ==> attempt_number(history, candidate, history.len()) == 1,
        0 <= k < history.len() && history[k].candidate.same_as(candidate) && (forall|j: int|
            k < j < history.len() ==> !(#[trigger] history[j]).candidate.same_as(candidate))
            && history[k].attempts < u32::MAX ==> attempt_number(
            history,
            candidate,
            history.len(),
        ) == history[k].attempts + 1,
{
    lemma_attempts(history, candidate, history.len());
}

proof fn lemma_next_interrupted(history: Seq<RecordView>, i: int)
    requires
        0 <= i <= history.len(),
    ensures
        i <= next_interrupted(history, i) <= history.len(),
        next_interrupted(history, i) < history.len() ==> interrupted(
            history[next_interrupted(history, i)],
        ),
        forall|k: int|
            i <= k < next_interrupted(history, i) ==> !interrupted(#[trigger] history[k]),
    decreases history.len() - i,
{
    if i < history.len() && !interrupted(history[i]) {
        lemma_next_interrupted(history, i + 1);
    }
}

/// Once every candidate was decided on, each removal that was interrupted is looked at: one
/// whose intent was saved, and one whose worktree is gone and whose branch is not. None is
/// passed over, and then the pass ends with its records.
pub proof fn interrupted_removals_are_looked_at(pass: PassView, now: u64, k: int)
    requires
        pass.at >= pass.candidates.len(),
        0 <= pass.looked <= pass.history.len(),
    ensures
        ({
            let next = pass.next_candidate(now);
            &&& pass.looked <= k < pass.history.len() && (pass.history[k].state == State::Removing
                || (pass.history[k].worktree_removed && !pass.history[k].branch_removed
                && pass.history[k].candidate.branch is Some)) ==> next.0.looked <= k
                && next.0.phase == Phase::Absent && next.1 == StepView::CheckAbsent(
                pass.history[next.0.looked].candidate,
            )
            &&& next.1 is CheckAbsent || next.1 == StepView::Finished(pass.records)
            &&& next.1 is CheckAbsent ==> pass.looked <= next.0.looked < pass.history.len() && (
            pass.history[next.0.looked].state == State::Removing || (
            pass.history[next.0.looked].worktree_removed
                && !pass.history[next.0.looked].branch_removed))
        }),
{
    lemma_next_interrupted(pass.history, pass.looked);
}

/// An interrupted removal whose resources are gone is recorded as finished, now, with what it
/// had; one whose resources are still there is left as it is.
pub proof fn interrupted_removals_are_finished(pass: PassView, now: u64, message: Seq<char>)
    requires
        pass.phase == Phase::Absent,
        0 <= pass.looked < pass.history.len(),
    ensures
        ({
            let next = pass.told(EventView::Absent(Ok(true)), now);
            let before = pass.history[pass.looked];
            let record = next.0.current;
            &&& next.1 == StepView::Save(record)
            &&& next.0.phase == Phase::Recovered
            &&& record.state == State::Removed
            &&& record.reason == "reconciled removal after interrupted operation"@
            &&& record.candidate == before.candidate
            &&& record.repository == before.repository
            &&& record.evidence == before.evidence
            &&& record.attempts == before.attempts
            &&& record.timestamp == now
            &&& record.trigger == pass.trigger
            &&& record.worktree_removed <==> before.candidate.path is Some
            &&& record.branch_removed <==> before.candidate.branch is Some
        }),
        ({
            let next = pass.told(EventView::Absent(Ok(false)), now);
            &&& next.0.records == pass.records
            &&& next.0.looked > pass.looked
            &&& next.1 is CheckAbsent || next.1 == StepView::Finished(pass.records)
        }),
        pass.told(EventView::Absent(Err(message)), now).1 == StepView::Failed(message),
        ({
            let recovered = PassView { phase: Phase::Recovered, ..pass };
            let next = recovered.told(EventView::Settled(Ok(())), now);
            &&& next.0.records == pass.records.push(pass.current)
            &&& next.0.looked > pass.looked
            &&& recovered.told(EventView::Settled(Err(message)), now).1 == StepView::Failed(message)
        }),
{
    lemma_next_interrupted(pass.history, pass.looked + 1);
}

proof fn lemma_with_record(records: Seq<RecordView>, record: RecordView, i: nat, k: int)
    requires
        i <= records.len(),
        0 <= k < records.len(),
    ensures
        with_record(records, record, i).contains(record),
        records.len() <= with_record(records, record, i).len() <= records.len() + 1,
        !records[k].candidate.same_as(record.candidate) ==> with_record(records, record, i)[k]
            == records[k],
        with_record(records, record, i).len() == records.len() + 1 <==> forall|j: int|
            i <= j < records.len() ==> !(#[trigger] records[j]).candidate.same_as(record.candidate),
    decreases records.len() - i,
{
    let after = with_record(records, record, i);
    if i >= records.len() {
        assert(after.last() == record);
    } else if records[i as int].candidate.same_as(record.candidate) {
        assert(after[i as int] == record);
    } else {
        lemma_with_record(records, record, i + 1, k);
    }
}

/// The history holds the newest record of each candidate: a new one takes the place of the
/// one before, stands last where there was none, and no other record changes.
pub proof fn newest_records_are_kept(records: Seq<RecordView>, record: RecordView, k: int)
    requires
        0 <= k < records.len(),
    ensures
        with_record(records, record, 0).contains(record),
        !records[k].candidate.same_as(record.candidate) ==> with_record(records, record, 0)[k]
            == records[k],
        records[k].candidate.same_as(record.candidate) ==> with_record(records, record, 0).len()
            == records.len(),
        (forall|j: int|
            0 <= j < records.len() ==> !(#[trigger] records[j]).candidate.same_as(record.candidate))
            ==> with_record(records, record, 0) == records.push(record),
{
    lemma_with_record(records, record, 0, k);
    let after = with_record(records, record, 0);
    if forall|j: int|
        0 <= j < records.len() ==> !(#[trigger] records[j]).candidate.same_as(record.candidate) {
        assert forall|j: int| 0 <= j < records.len() implies #[trigger] after[j] == records[j] by {
            assert(!records[j].candidate.same_as(record.candidate));
            lemma_with_record(records, record, 0, j);
        }
        let at = choose|at: int| 0 <= at < after.len() && after[at] == record;
        if at < records.len() {
            assert(!records[at].candidate.same_as(record.candidate));
            assert(record.candidate.same_as(record.candidate));
        }
        assert(after =~= records.push(record));
    }
}

/// The resources of a candidate are still there while another candidate has its path or its
/// branch.
pub proof fn resources_are_shared_by_path_or_branch(
    candidate: CandidateView,
    others: Seq<CandidateView>,
    i: int,
)
    requires
        0 <= i < others.len(),
    ensures
        candidate.path matches Some(path) && others[i].path == Some(path) ==> any_shares(
            candidate,
            others,
        ),
        candidate.branch matches Some(branch) && others[i].branch == Some(branch) ==> any_shares(
            candidate,
            others,
        ),
        candidate.path is None && candidate.branch is None ==> !any_shares(candidate, others),
        (forall|k: int|
            0 <= k < others.len() ==> (#[trigger] others[k]).path is None && others[k].branch
                != candidate.branch) ==> !any_shares(candidate, others),
{
    if shares_resource(candidate, others[i]) {
        assert(any_shares(candidate, others));
    }
}

/// A pass is begun only for a repository that is still registered and whose policy did not
/// change, and one without settings is begun in any case.
pub proof fn passes_begin_under_the_current_policy(engine: Engine, settings: SettingsView)
    ensures
        engine.stale(None) is None,
        settings.policy_of(engine.repository.root@) is None ==> engine.stale(Some(settings))
            == Some("repository registration changed"@),
        settings.policy_of(engine.repository.root@) == Some(engine.policy@) ==> engine.stale(
            Some(settings),
        ) is None,
        settings.policy_of(engine.repository.root@) matches Some(policy) ==> (policy.enabled
            != engine.policy@.enabled || policy.remote != engine.policy@.remote
            || policy.integration_branch != engine.policy@.integration_branch
            || policy.protected_branches != engine.policy@.protected_branches
            || policy.retained_branches != engine.policy@.retained_branches
            || policy.github_merge_evidence != engine.policy@.github_merge_evidence
            || policy.retained_worktrees.len() != engine.policy@.retained_worktrees.len()
            ==> engine.stale(Some(settings)) == Some(
            "cleanup policy changed; reconciliation deferred"@,
        )),
{
    if settings.policy_of(engine.repository.root@) is Some {
        let policy = settings.policy_of(engine.repository.root@)->0;
        assert(crate::path::all_components(policy.retained_worktrees).len()
            == policy.retained_worktrees.len());
        assert(crate::path::all_components(engine.policy@.retained_worktrees).len()
            == engine.policy@.retained_worktrees.len());
    }
}

/// A pass removes while it checks once more, removes a worktree, saves that, or removes a
/// branch, and at no other time.
pub proof fn removal_has_its_phases(phase: Phase)
    ensures
        removing(phase) <==> phase is Unchanged || phase is Current || phase is Ancestry || phase
            is Owned || phase is Worktree || phase is WorktreeSaved || phase is Branch,
{
}

/// A pass begins as its engine says, with nothing decided.
pub proof fn passes_begin_as_the_engine_says(
    pass: PassView,
    engine: Engine,
    history: Seq<RecordView>,
    integration: Result<(Seq<char>, Seq<char>), Seq<char>>,
    candidates: Seq<CandidateView>,
    now: u64,
)
    requires
        pass.begins(engine, history, integration, candidates, now),
    ensures
        pass.repository == engine.repository.root@,
        pass.policy == engine.policy@,
        pass.trigger == engine.trigger@,
        pass.preview == engine.preview,
        pass.history == history,
        pass.integration == integration,
        pass.candidates == candidates,
        pass.records.len() == 0,
        pass.at == 0,
        pass.looked == 0,
        !removing(pass.phase),
        pass.current.state == State::Pending,
        pass.current.evidence is None,
        !pass.current.worktree_removed,
        !pass.current.branch_removed,
{
}

/// Each phase awaits its own kind of answer, and a pass that has ended awaits none.
pub proof fn phases_await_their_own_answer(pass: PassView, event: EventView)
    ensures
        pass.phase is Ended ==> !pass.awaits(event),
        pass.phase is Evidence ==> (pass.awaits(event) <==> event is Evidence),
        pass.phase is First || pass.phase is Second ==> (pass.awaits(event) <==> event
            is Inspected),
        pass.phase is Current ==> (pass.awaits(event) <==> event is Printed),
        pass.phase is Ancestry ==> (pass.awaits(event) <==> event is Answered),
        pass.phase is Owned ==> (pass.awaits(event) <==> event is Owned),
        pass.phase is Absent ==> (pass.awaits(event) <==> event is Absent),
        pass.phase is Saving || pass.phase is Lease || pass.phase is Intent || pass.phase
            is Unchanged || pass.phase is Worktree || pass.phase is WorktreeSaved || pass.phase
            is Branch || pass.phase is Recovered ==> (pass.awaits(event) <==> event is Settled),
{
}

} // verus!
