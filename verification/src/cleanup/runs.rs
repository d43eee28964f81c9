//! What holds of a pass as a whole, from its first step to its last.
use vstd::prelude::*;

use super::engine::{
    both_known, cleared, interrupted, lemma_same_candidate, next_interrupted, removing,
    same_attempts, same_decision, same_decisions, same_pass, same_step, unfinished, with_record,
    decisions_depend_on_neither_trigger_nor_clock, Engine, EventView, PassView, Phase, StepView,
};
use super::git::remote_ref;
use super::policy::{retention, CandidateView, EvidenceView, PolicyView, RecordView, State};
use crate::lines::trimmed;

verus! {

/// A pass as it goes: where it stands and what it does at each point, what it is told there,
/// and when.
pub ghost struct Run {
    pub states: Seq<(PassView, StepView)>,
    pub events: Seq<EventView>,
    pub times: Seq<u64>,
}

impl Run {
    pub open spec fn pass(self, i: int) -> PassView {
        self.states[i].0
    }

    pub open spec fn step(self, i: int) -> StepView {
        self.states[i].1
    }

    /// What the pass is told at a point is what it waits for, and leads to the next one.
    pub open spec fn goes_on(self, i: int) -> bool {
        &&& self.pass(i).awaits(self.events[i])
        &&& self.states[i + 1] == self.pass(i).told(self.events[i], self.times[i])
    }

    /// This is how a pass goes that begins with `start`.
    pub open spec fn follows(self, start: PassView, now: u64) -> bool {
        &&& self.states.len() == self.events.len() + 1
        &&& self.times.len() == self.events.len()
        &&& self.states[0] == start.next_candidate(now)
        &&& forall|i: int| 0 <= i < self.events.len() ==> #[trigger] self.goes_on(i)
    }

    /// What the pass came to, where it was finished.
    pub open spec fn finished(self) -> Option<Seq<RecordView>> {
        match self.step(self.events.len() as int) {
            StepView::Finished(records) => Some(records),
            _ => None,
        }
    }
}

pub open spec fn removal(step: StepView) -> bool {
    step is RemoveWorktree || step is RemoveBranch
}

proof fn lemma_same_runs(
    a: Run,
    b: Run,
    start: PassView,
    other: PassView,
    now: u64,
    other_now: u64,
    i: int,
)
    requires
        a.follows(start, now),
        b.follows(other, other_now),
        same_pass(start, other),
        a.events == b.events,
        start.preview,
        start.phase == Phase::Ended,
        0 <= i <= a.events.len(),
    ensures
        same_pass(a.pass(i), b.pass(i)),
        same_step(a.step(i), b.step(i)),
        a.step(i) matches StepView::Finished(records) ==> records == a.pass(i).records,
        b.step(i) matches StepView::Finished(records) ==> records == b.pass(i).records,
        a.pass(i).history == start.history && b.pass(i).history == other.history,
        a.pass(i).preview,
        !removing(a.pass(i).phase) && a.pass(i).phase != Phase::Intent,
        !removal(a.step(i)),
    decreases i,
{
    if i == 0 {
        lemma_same_candidate(start, other, now, other_now);
    } else {
        lemma_same_runs(a, b, start, other, now, other_now, i - 1);
        assert(a.goes_on(i - 1));
        assert(b.goes_on(i - 1));
        decisions_depend_on_neither_trigger_nor_clock(
            a.pass(i - 1),
            b.pass(i - 1),
            a.events[i - 1],
            a.times[i - 1],
            b.times[i - 1],
        );
    }
}

/// Two previews that differ in nothing but what set them off and when, and that are told the
/// same, come to the same, whatever the clock says in either of them: record by record
/// everything is equal but the trigger, the time, and the number of attempts that the history
/// knows of. Of the histories only the interrupted records need to agree; where both are the
/// same, so are the attempts. Neither preview removes a worktree or a branch.
pub proof fn previews_agree_whatever_set_them_off(
    engine: Engine,
    other: Engine,
    history: Seq<RecordView>,
    other_history: Seq<RecordView>,
    integration: Result<(Seq<char>, Seq<char>), Seq<char>>,
    candidates: Seq<CandidateView>,
    now: u64,
    other_now: u64,
    start: PassView,
    other_start: PassView,
    a: Run,
    b: Run,
)
    requires
        other == (Engine { trigger: other.trigger, ..engine }),
        engine.preview,
        same_decisions(unfinished(history, 0), unfinished(other_history, 0)),
        start.begins(engine, history, integration, candidates, now),
        other_start.begins(other, other_history, integration, candidates, other_now),
        a.follows(start, now),
        b.follows(other_start, other_now),
        a.events == b.events,
    ensures
        forall|i: int|
            0 <= i <= a.events.len() ==> !removal(#[trigger] a.step(i)) && !removal(b.step(i)),
        a.finished() is Some <==> b.finished() is Some,
        a.finished() matches Some(records) ==> {
            let others = b.finished()->0;
            &&& others.len() == records.len()
            &&& forall|i: int|
                0 <= i < records.len() ==> (#[trigger] records[i]) == (RecordView {
                    trigger: records[i].trigger,
                    timestamp: records[i].timestamp,
                    attempts: records[i].attempts,
                    ..others[i]
                })
            &&& history == other_history ==> same_attempts(records, others)
        },
{
    assert(same_pass(start, other_start)) by {
        assert(same_decisions(start.records, other_start.records));
        assert(start.records =~= other_start.records);
    }
    assert forall|i: int| 0 <= i <= a.events.len() implies !removal(#[trigger] a.step(i))
        && !removal(b.step(i)) by {
        lemma_same_runs(a, b, start, other_start, now, other_now, i);
    }
    let n = a.events.len() as int;
    lemma_same_runs(a, b, start, other_start, now, other_now, n);
    if let Some(records) = a.finished() {
        let others = b.finished()->0;
        assert forall|i: int| 0 <= i < records.len() implies (#[trigger] records[i]) == (
        RecordView {
            trigger: records[i].trigger,
            timestamp: records[i].timestamp,
            attempts: records[i].attempts,
            ..others[i]
        }) by {
            assert(same_decision(records[i], others[i]));
        }
    }
}

/// The pass decides on a candidate.
pub open spec fn deciding(phase: Phase) -> bool {
    !(phase == Phase::Absent || phase == Phase::Recovered || phase == Phase::Ended)
}

/// The pass looks at a candidate, and has not yet decided on it.
pub open spec fn looking(phase: Phase) -> bool {
    phase == Phase::Evidence || phase == Phase::First || phase == Phase::Lease || phase
        == Phase::Second
}

/// The pass stands before the first candidate.
pub open spec fn untouched(start: PassView) -> bool {
    &&& start.phase == Phase::Ended
    &&& start.at == 0
    &&& start.looked == 0
    &&& start.records.len() == 0
}

/// Every pass over a repository begins so.
pub proof fn passes_begin_untouched(
    engine: Engine,
    history: Seq<RecordView>,
    integration: Result<(Seq<char>, Seq<char>), Seq<char>>,
    candidates: Seq<CandidateView>,
    now: u64,
    start: PassView,
)
    requires
        start.begins(engine, history, integration, candidates, now),
    ensures
        untouched(start),
        start.policy == engine.policy@,
        start.preview == engine.preview,
        start.candidates == candidates,
        start.history == history,
{
}

/// Where a pass that began with `start` can stand, and what it does there.
pub open spec fn stands(start: PassView, pass: PassView, step: StepView) -> bool {
    &&& pass == (PassView {
        records: pass.records,
        at: pass.at,
        looked: pass.looked,
        phase: pass.phase,
        current: pass.current,
        ..start
    })
    &&& 0 <= pass.at <= pass.candidates.len()
    &&& 0 <= pass.looked <= pass.history.len()
    &&& cleared(pass)
    &&& pass.records.len() >= pass.at
    &&& forall|j: int|
        0 <= j < pass.at ==> (#[trigger] pass.records[j]).candidate == pass.candidates[j]
    &&& deciding(pass.phase) ==> {
        &&& pass.at < pass.candidates.len()
        &&& pass.records.len() == pass.at
        &&& pass.candidate() == pass.candidates[pass.at]
        &&& pass.looked == 0
        &&& pass.phase != Phase::Saving ==> pass.integration is Ok
    }
    &&& looking(pass.phase) ==> pass.current.state == State::Pending
        && !pass.current.worktree_removed && !pass.current.branch_removed
    &&& pass.phase == Phase::Absent || pass.phase == Phase::Recovered ==> {
        &&& pass.at == pass.candidates.len()
        &&& pass.looked < pass.history.len()
        &&& interrupted(pass.history[pass.looked])
    }
    &&& pass.phase == Phase::Recovered ==> {
        &&& pass.candidate() == pass.history[pass.looked].candidate
        &&& !interrupted(pass.current)
    }
    &&& step matches StepView::Finished(records) ==> pass.phase == Phase::Ended && records
        == pass.records && pass.at == pass.candidates.len() && pass.looked == pass.history.len()
    &&& does(pass, step)
}

/// What the pass does in each phase.
pub open spec fn does(pass: PassView, step: StepView) -> bool {
    let candidate = pass.candidate();
    match pass.phase {
        Phase::Evidence => step == StepView::FindEvidence(
            candidate,
            pass.branch(),
            (pass.integration->Ok_0).1,
        ),
        Phase::First | Phase::Second => step == StepView::Inspect(candidate),
        Phase::Lease => candidate.path is Some && step == StepView::Lease(candidate.path->0),
        Phase::Unchanged => step == StepView::Verify(candidate),
        Phase::Current => step == StepView::Resolve(remote_ref(pass.policy.remote, pass.branch()))
            && pass.current.evidence is Some,
        Phase::Ancestry => pass.current.evidence is Some && match pass.current.evidence->0 {
            EvidenceView::Ancestor { integration } => step == StepView::Ancestor(
                candidate.commit,
                integration,
            ),
            EvidenceView::Github { integration, source, merge, .. } => source == candidate.commit
                && step == StepView::Ancestor(merge, integration),
        },
        Phase::Owned => step == StepView::CheckOwner(candidate),
        Phase::Worktree => candidate.path is Some && step == StepView::RemoveWorktree(candidate),
        Phase::Branch => candidate.branch is Some && step == StepView::RemoveBranch(
            candidate.branch->0,
            candidate.commit,
        ),
        Phase::Saving | Phase::Intent | Phase::WorktreeSaved | Phase::Recovered => step
            == StepView::Save(pass.current),
        Phase::Absent => step == StepView::CheckAbsent(pass.history[pass.looked].candidate),
        Phase::Ended => step is Finished || step is Failed,
    }
}

proof fn lemma_next_interrupted(history: Seq<RecordView>, i: int)
    requires
        0 <= i <= history.len(),
    ensures
        i <= next_interrupted(history, i) <= history.len(),
        next_interrupted(history, i) < history.len() ==> interrupted(
            history[next_interrupted(history, i)],
        ),
        forall|k: int|
            i <= k < next_interrupted(history, i) ==> !interrupted(#[trigger] history[k]),
    decreases history.len() - i,
{
    if i < history.len() && !interrupted(history[i]) {
        lemma_next_interrupted(history, i + 1);
    }
}

/// Between two candidates, or between the last one and the interrupted records.
spec fn between(start: PassView, pass: PassView) -> bool {
    &&& pass == (PassView {
        records: pass.records,
        at: pass.at,
        looked: pass.looked,
        phase: pass.phase,
        current: pass.current,
        ..start
    })
    &&& 0 <= pass.at <= pass.candidates.len()
    &&& 0 <= pass.looked <= pass.history.len()
    &&& pass.records.len() >= pass.at
    &&& forall|j: int|
        0 <= j < pass.at ==> (#[trigger] pass.records[j]).candidate == pass.candidates[j]
    &&& pass.at < pass.candidates.len() ==> pass.looked == 0 && pass.records.len() == pass.at
}

proof fn lemma_record_stands(start: PassView, pass: PassView)
    requires
        between(start, pass),
        pass.at == pass.candidates.len(),
    ensures
        stands(start, pass.next_record().0, pass.next_record().1),
{
    lemma_next_interrupted(pass.history, pass.looked);
}

proof fn lemma_candidate_stands(start: PassView, pass: PassView, now: u64)
    requires
        between(start, pass),
    ensures
        stands(start, pass.next_candidate(now).0, pass.next_candidate(now).1),
{
    if pass.at >= pass.candidates.len() {
        lemma_record_stands(start, pass);
    }
}

proof fn lemma_stands(start: PassView, pass: PassView, step: StepView, event: EventView, now: u64)
    requires
        stands(start, pass, step),
        pass.awaits(event),
    ensures
        stands(start, pass.told(event, now).0, pass.told(event, now).1),
{
    match pass.phase {
        Phase::Saving => {
            let saved = PassView {
                records: pass.records.push(pass.current),
                at: pass.at + 1,
                ..pass
            };
            if event->Settled_0 is Ok {
                lemma_candidate_stands(start, saved, now);
            }
        },
        Phase::Absent => {
            if event->Absent_0 == Ok::<bool, Seq<char>>(false) {
                lemma_record_stands(start, PassView { looked: pass.looked + 1, ..pass });
            }
        },
        Phase::Recovered => {
            let saved = PassView {
                records: pass.records.push(pass.current),
                looked: pass.looked + 1,
                ..pass
            };
            if event->Settled_0 is Ok {
                lemma_record_stands(start, saved);
            }
        },
        _ => {},
    }
}

proof fn lemma_run_stands(run: Run, start: PassView, now: u64, i: int)
    requires
        run.follows(start, now),
        untouched(start),
        0 <= i <= run.events.len(),
    ensures
        stands(start, run.pass(i), run.step(i)),
    decreases i,
{
    if i == 0 {
        lemma_candidate_stands(start, start, now);
    } else {
        lemma_run_stands(run, start, now, i - 1);
        assert(run.goes_on(i - 1));
        lemma_stands(start, run.pass(i - 1), run.step(i - 1), run.events[i - 1], run.times[i - 1]);
    }
}

impl Run {
    /// Before the `i`-th point, the owners and the local work of the `j`-th candidate were
    /// looked at under its lease, and nothing keeps it.
    pub open spec fn found_clear(self, i: int, j: int) -> bool {
        exists|k: int|
            0 <= k < i && self.pass(k).phase == Phase::Second && self.pass(k).at == j
                && #[trigger] self.events[k] == EventView::Inspected(Ok(None), Ok(None))
    }

    /// Before the `i`-th point, the owners of the `j`-th candidate were asked for once more,
    /// and there is none.
    pub open spec fn found_unowned(self, i: int, j: int) -> bool {
        exists|k: int|
            0 <= k < i && self.pass(k).phase == Phase::Owned && self.pass(k).at == j
                && #[trigger] self.events[k] == EventView::Owned(Ok(None))
    }

    /// Before the `i`-th point, the `j`-th candidate was found to be what was discovered.
    pub open spec fn found_unchanged(self, i: int, j: int) -> bool {
        exists|k: int|
            0 <= k < i && self.pass(k).phase == Phase::Unchanged && self.pass(k).at == j
                && #[trigger] self.events[k] == EventView::Settled(Ok(()))
    }

    /// Before the `i`-th point, the merge evidence of the `j`-th candidate was found to stand:
    /// what it names is an ancestor of the commit that the integration branch is at.
    pub open spec fn found_merged(self, i: int, j: int) -> bool {
        exists|k: int|
            0 <= k < i && self.pass(k).phase == Phase::Ancestry && self.pass(k).at == j
                && #[trigger] self.events[k] == EventView::Answered(true)
    }

    /// At or before the `i`-th point, `step` was taken for the `j`-th candidate.
    pub open spec fn took(self, i: int, j: int, step: StepView) -> bool {
        exists|k: int| 0 <= k <= i && self.pass(k).at == j && #[trigger] self.step(k) == step
    }

    /// All that a candidate stands for was removed.
    pub open spec fn removed_all(self, i: int, j: int, candidate: CandidateView) -> bool {
        &&& candidate.path is Some ==> self.took(i, j, StepView::RemoveWorktree(candidate))
        &&& candidate.branch matches Some(branch) ==> self.took(
            i,
            j,
            StepView::RemoveBranch(branch, candidate.commit),
        )
    }

    /// Every record could be saved, and everything that was to be removed was removed.
    pub open spec fn unhindered(self) -> bool {
        forall|i: int|
            0 <= i < self.events.len() && (removal(self.step(i)) || self.step(i) is Save)
                ==> #[trigger] self.events[i] == EventView::Settled(Ok(()))
    }

    /// What led to where the pass stands at the `i`-th point.
    spec fn led_here(self, i: int) -> bool {
        let pass = self.pass(i);
        &&& removing(pass.phase) || pass.phase == Phase::Intent ==> self.found_clear(i, pass.at)
        &&& level(pass.phase) > 4 ==> self.found_unchanged(i, pass.at)
        &&& level(pass.phase) > 6 ==> self.found_merged(i, pass.at)
        &&& late(pass.phase) ==> self.found_unowned(i, pass.at)
    }
}

/// The phases in which something of a candidate may already be removed.
spec fn late(phase: Phase) -> bool {
    phase == Phase::Worktree || phase == Phase::WorktreeSaved || phase == Phase::Branch
}

proof fn lemma_led_here(run: Run, start: PassView, now: u64, i: int)
    requires
        run.follows(start, now),
        untouched(start),
        0 <= i <= run.events.len(),
    ensures
        run.led_here(i),
    decreases i,
{
    lemma_run_stands(run, start, now, i);
    if i > 0 {
        let k = i - 1;
        lemma_led_here(run, start, now, k);
        lemma_run_stands(run, start, now, k);
        assert(run.goes_on(k));
        let before = run.pass(k);
        let pass = run.pass(i);
        let event = run.events[k];
        if removing(pass.phase) || pass.phase == Phase::Intent {
            assert(pass.at == before.at);
            if before.phase == Phase::Second {
                assert(event == EventView::Inspected(Ok(None), Ok(None)));
                assert(run.found_clear(i, pass.at));
            } else {
                let m = choose|m: int|
                    0 <= m < k && run.pass(m).phase == Phase::Second && run.pass(m).at == before.at
                        && #[trigger] run.events[m] == EventView::Inspected(Ok(None), Ok(None));
                assert(run.events[m] == EventView::Inspected(Ok(None), Ok(None)));
            }
        }
        if level(pass.phase) > 4 {
            if before.phase == Phase::Unchanged {
                assert(event->Settled_0->Ok_0 == ());
                assert(event == EventView::Settled(Ok(())));
            } else {
                let m = choose|m: int|
                    0 <= m < k && run.pass(m).phase == Phase::Unchanged && run.pass(m).at
                        == before.at && #[trigger] run.events[m] == EventView::Settled(Ok(()));
                assert(run.events[m] == EventView::Settled(Ok(())));
            }
        }
        if level(pass.phase) > 6 {
            if before.phase == Phase::Ancestry {
                assert(event == EventView::Answered(true));
            } else {
                let m = choose|m: int|
                    0 <= m < k && run.pass(m).phase == Phase::Ancestry && run.pass(m).at
                        == before.at && #[trigger] run.events[m] == EventView::Answered(true);
                assert(run.events[m] == EventView::Answered(true));
            }
        }
        if late(pass.phase) {
            if before.phase == Phase::Owned {
                assert(event == EventView::Owned(Ok(None)));
            } else {
                let m = choose|m: int|
                    0 <= m < k && run.pass(m).phase == Phase::Owned && run.pass(m).at == before.at
                        && #[trigger] run.events[m] == EventView::Owned(Ok(None));
                assert(run.events[m] == EventView::Owned(Ok(None)));
            }
        }
    }
}

impl Run {
    /// Removals so far, and what the records say of them.
    spec fn accounts(self, i: int) -> bool {
        let pass = self.pass(i);
        let removed = pass.phase == Phase::Saving && pass.current.state == State::Removed;
        &&& forall|k: int|
            0 <= k <= i && removal(#[trigger] self.step(k)) ==> {
                ||| self.pass(k).at == pass.at && deciding(pass.phase) && (late(pass.phase)
                    || removed)
                ||| 0 <= self.pass(k).at < pass.at && pass.records[self.pass(k).at].state
                    == State::Removed
            }
        &&& forall|j: int|
            0 <= j < pass.at && (#[trigger] pass.records[j]).state == State::Removed
                ==> self.removed_all(i, j, pass.candidates[j])
        &&& removed ==> self.removed_all(i, pass.at, pass.candidate())
        &&& pass.phase == Phase::WorktreeSaved || (pass.phase == Phase::Branch
            && pass.candidate().path is Some) ==> self.took(
            i,
            pass.at,
            StepView::RemoveWorktree(pass.candidate()),
        )
    }
}

proof fn lemma_took_on(run: Run, i: int, next: int, j: int, step: StepView)
    requires
        run.took(i, j, step),
        i <= next,
    ensures
        run.took(next, j, step),
{
    let k = choose|k: int| 0 <= k <= i && run.pass(k).at == j && #[trigger] run.step(k) == step;
    assert(run.step(k) == step);
}

proof fn lemma_removed_on(run: Run, i: int, next: int, j: int, candidate: CandidateView)
    requires
        run.removed_all(i, j, candidate),
        i <= next,
    ensures
        run.removed_all(next, j, candidate),
{
    if candidate.path is Some {
        lemma_took_on(run, i, next, j, StepView::RemoveWorktree(candidate));
    }
    if let Some(branch) = candidate.branch {
        lemma_took_on(run, i, next, j, StepView::RemoveBranch(branch, candidate.commit));
    }
}

#[verifier::rlimit(40)]
proof fn lemma_accounts(run: Run, start: PassView, now: u64, i: int)
    requires
        run.follows(start, now),
        untouched(start),
        run.unhindered(),
        0 <= i <= run.events.len(),
    ensures
        run.accounts(i),
    decreases i,
{
    lemma_run_stands(run, start, now, i);
    if i > 0 {
        let m = i - 1;
        lemma_accounts(run, start, now, m);
        lemma_run_stands(run, start, now, m);
        assert(run.goes_on(m));
        let before = run.pass(m);
        let pass = run.pass(i);
        let event = run.events[m];
        assert(removal(run.step(m)) || run.step(m) is Save ==> event == EventView::Settled(Ok(())));
        let candidate = before.candidate();
        // What was taken before is still taken.
        if before.phase == Phase::WorktreeSaved || (before.phase == Phase::Branch
            && candidate.path is Some) {
            lemma_took_on(run, m, i, before.at, StepView::RemoveWorktree(candidate));
        }
        if before.phase == Phase::Saving && before.current.state == State::Removed {
            lemma_removed_on(run, m, i, before.at, candidate);
        }
        if before.phase == Phase::Worktree {
            assert(run.step(m) == StepView::RemoveWorktree(candidate));
            assert(run.took(i, before.at, StepView::RemoveWorktree(candidate)));
        }
        if before.phase == Phase::Branch {
            assert(run.step(m) == StepView::RemoveBranch(candidate.branch->0, candidate.commit));
            assert(run.took(
                i,
                before.at,
                StepView::RemoveBranch(candidate.branch->0, candidate.commit),
            ));
        }
        lemma_records_kept(start, before, run.step(m), event, run.times[m]);
        let removed = pass.phase == Phase::Saving && pass.current.state == State::Removed;
        assert(removed ==> before.phase == Phase::Owned || before.phase == Phase::WorktreeSaved
            || before.phase == Phase::Branch);
        assert(removed ==> pass.at == before.at && pass.candidate() == candidate);
        assert(removed ==> run.removed_all(i, pass.at, pass.candidate()));
        assert forall|k: int| 0 <= k <= i && removal(#[trigger] run.step(k)) implies {
            ||| run.pass(k).at == pass.at && deciding(pass.phase) && (late(pass.phase) || (
            pass.phase == Phase::Saving && pass.current.state == State::Removed))
            ||| 0 <= run.pass(k).at < pass.at && pass.records[run.pass(k).at].state
                == State::Removed
        } by {
            if k < i {
                assert(removal(run.step(k)));
            }
        }
        assert forall|j: int|
            0 <= j < pass.at && (#[trigger] pass.records[j]).state
                == State::Removed implies run.removed_all(i, j, pass.candidates[j]) by {
            if j < before.at {
                assert(before.records[j] == pass.records[j]);
                lemma_removed_on(run, m, i, j, pass.candidates[j]);
            }
        }
    }
}

/// What a pass has recorded stays, and a decision that was saved is recorded next.
proof fn lemma_records_kept(
    start: PassView,
    pass: PassView,
    step: StepView,
    event: EventView,
    now: u64,
)
    requires
        stands(start, pass, step),
        pass.awaits(event),
    ensures
        ({
            let next = pass.told(event, now).0;
            &&& next.at == pass.at || (pass.phase == Phase::Saving && next.at == pass.at + 1
                && event == EventView::Settled(Ok(())) && next.records[pass.at] == pass.current)
            &&& pass.records.len() <= next.records.len()
            &&& forall|j: int|
                0 <= j < pass.records.len() ==> (#[trigger] next.records[j]) == pass.records[j]
        }),
{
    let next = pass.told(event, now).0;
    if pass.phase == Phase::Saving {
        if event->Settled_0 is Ok {
            assert(event->Settled_0->Ok_0 == ());
            assert(next.records == pass.records.push(pass.current));
            assert(next.at == pass.at + 1);
        } else {
            assert(next.records == pass.records);
        }
    } else if pass.phase == Phase::Recovered {
        assert(next.at == pass.at);
        if event->Settled_0 is Ok {
            assert(next.records == pass.records.push(pass.current));
        } else {
            assert(next.records == pass.records);
        }
    } else {
        assert(next.records == pass.records);
        assert(next.at == pass.at);
    }
}

/// A pass that could save and remove all that it set out to: what it removes is its
/// candidate's own, and the candidate was cleared for it. It was still what was discovered
/// and its merge evidence still stood, it is no primary checkout, it is neither locked nor protected nor retained, and nobody owns it, uses it or
/// has work in it. In the end exactly the candidates of which something was removed are
/// recorded as removed, and those have lost all that they stand for. Of the others nothing
/// was removed.
pub proof fn removals_are_cleared_and_recorded(run: Run, start: PassView, now: u64)
    requires
        run.follows(start, now),
        untouched(start),
        run.unhindered(),
        run.finished() is Some,
    ensures
        forall|i: int|
            0 <= i <= run.events.len() && removal(#[trigger] run.step(i)) ==> {
                let j = run.pass(i).at;
                let candidate = start.candidates[j];
                &&& 0 <= j < start.candidates.len()
                &&& run.step(i) == StepView::RemoveWorktree(candidate) || (candidate.branch matches
                    Some(branch) && run.step(i) == StepView::RemoveBranch(
                    branch,
                    candidate.commit,
                ))
                &&& !start.preview
                &&& run.pass(i).current.evidence is Some
                &&& start.integration is Ok
                &&& retention(start.policy, candidate, start.branch(), true, None, None) is None
                &&& run.found_clear(i, j)
                &&& run.found_unchanged(i, j)
                &&& run.found_merged(i, j)
                &&& run.found_unowned(i, j)
                &&& run.finished()->0[j].state == State::Removed
            },
        run.finished()->0.len() >= start.candidates.len(),
        forall|j: int|
            0 <= j < start.candidates.len() ==> {
                let record = #[trigger] run.finished()->0[j];
                &&& record.candidate == start.candidates[j]
                &&& record.state == State::Removed ==> run.removed_all(
                    run.events.len() as int,
                    j,
                    start.candidates[j],
                )
            },
{
    let n = run.events.len() as int;
    lemma_run_stands(run, start, now, n);
    lemma_accounts(run, start, now, n);
    let records = run.finished()->0;
    assert forall|i: int| 0 <= i <= n && removal(#[trigger] run.step(i)) implies {
        let j = run.pass(i).at;
        let candidate = start.candidates[j];
        &&& 0 <= j < start.candidates.len()
        &&& run.step(i) == StepView::RemoveWorktree(candidate) || (candidate.branch matches Some(
            branch,
        ) && run.step(i) == StepView::RemoveBranch(branch, candidate.commit))
        &&& !start.preview
        &&& run.pass(i).current.evidence is Some
        &&& start.integration is Ok
        &&& retention(start.policy, candidate, start.branch(), true, None, None) is None
        &&& run.found_clear(i, j)
        &&& run.found_unchanged(i, j)
        &&& run.found_merged(i, j)
        &&& run.found_unowned(i, j)
        &&& records[j].state == State::Removed
    } by {
        lemma_run_stands(run, start, now, i);
        lemma_led_here(run, start, now, i);
    }
    assert forall|j: int| 0 <= j < start.candidates.len() implies {
        let record = #[trigger] records[j];
        &&& record.candidate == start.candidates[j]
        &&& record.state == State::Removed ==> run.removed_all(n, j, start.candidates[j])
    } by {
        let last = run.pass(n);
        assert(last.records[j] == records[j]);
    }
}

impl Run {
    /// What the pass is told is what the world says in each phase to what is done there.
    pub open spec fn driven_by(self, world: spec_fn(Phase, StepView) -> EventView) -> bool {
        forall|i: int|
            0 <= i < self.events.len() ==> #[trigger] self.events[i] == world(
                self.pass(i).phase,
                self.step(i),
            )
    }

    /// The records that are kept once everything before the `n`-th point was saved.
    pub open spec fn saved(self, n: int) -> Seq<RecordView>
        decreases n,
    {
        if n <= 0 {
            self.pass(0).history
        } else {
            match self.step(n - 1) {
                StepView::Save(record) => with_record(self.saved(n - 1), record, 0),
                _ => self.saved(n - 1),
            }
        }
    }
}

/// Every record can be saved, and everything that is to be removed can be removed.
pub open spec fn obliging(world: spec_fn(Phase, StepView) -> EventView) -> bool {
    forall|phase: Phase, step: StepView|
        removal(step) || step is Save ==> #[trigger] world(phase, step) == EventView::Settled(
            Ok(()),
        )
}

/// Why a candidate is kept, given what a look at it shows.
pub open spec fn kept_by_look(
    policy: PolicyView,
    candidate: CandidateView,
    branch: Seq<char>,
    merged: bool,
    seen: EventView,
) -> Option<Seq<char>> {
    match both_known(seen->Inspected_0, seen->Inspected_1) {
        Err(message) => Some(message),
        Ok((owned, local)) => retention(policy, candidate, branch, merged, owned, local),
    }
}

/// The merge evidence that the world has of a candidate.
pub open spec fn evidence_of(
    world: spec_fn(Phase, StepView) -> EventView,
    integration: Result<(Seq<char>, Seq<char>), Seq<char>>,
    candidate: CandidateView,
) -> Option<EvidenceView> {
    let (branch, commit) = integration->Ok_0;
    world(Phase::Evidence, StepView::FindEvidence(candidate, branch, commit))->Evidence_0
}

/// The first `n` of the conditions on which a candidate is removed hold in the world: that no
/// cheap exclusion applies, that nothing keeps it at the first look, that its lease can be
/// had, that nothing keeps it at the second look, that it is still what was discovered, that
/// its evidence is still current, that the evidence still stands, and that nobody owns it.
pub open spec fn clears(
    world: spec_fn(Phase, StepView) -> EventView,
    policy: PolicyView,
    integration: Result<(Seq<char>, Seq<char>), Seq<char>>,
    candidate: CandidateView,
    n: int,
) -> bool {
    let branch = (integration->Ok_0).0;
    let evidence = evidence_of(world, integration, candidate);
    &&& n > 0 ==> integration is Ok && retention(policy, candidate, branch, false, None, None)
        == Some("merge not verified at current commit"@)
    &&& n > 1 ==> kept_by_look(
        policy,
        candidate,
        branch,
        evidence is Some,
        world(Phase::First, StepView::Inspect(candidate)),
    ) is None
    &&& n > 2 ==> (candidate.path matches Some(path) ==> world(Phase::Lease, StepView::Lease(path))
        == EventView::Settled(Ok(())))
    &&& n > 3 ==> kept_by_look(
        policy,
        candidate,
        branch,
        evidence is Some,
        world(Phase::Second, StepView::Inspect(candidate)),
    ) is None
    &&& n > 4 ==> world(Phase::Unchanged, StepView::Verify(candidate)) == EventView::Settled(
        Ok(()),
    )
    &&& n > 5 ==> evidence is Some && (world(
        Phase::Current,
        StepView::Resolve(remote_ref(policy.remote, branch)),
    ) matches EventView::Printed(Ok(text)) && trimmed(text) == evidence->0.at()) && (
    evidence->0 matches EvidenceView::Github { source, .. } ==> source == candidate.commit)
    &&& n > 6 ==> (match evidence->0 {
        EvidenceView::Ancestor { integration } => world(
            Phase::Ancestry,
            StepView::Ancestor(candidate.commit, integration),
        ),
        EvidenceView::Github { integration, merge, .. } => world(
            Phase::Ancestry,
            StepView::Ancestor(merge, integration),
        ),
    }) == EventView::Answered(true)
    &&& n > 7 ==> world(Phase::Owned, StepView::CheckOwner(candidate)) == EventView::Owned(
        Ok(None),
    )
}

/// How many of the conditions were met by a candidate that is in a phase.
pub open spec fn level(phase: Phase) -> int {
    match phase {
        Phase::Evidence | Phase::First => 1,
        Phase::Lease => 2,
        Phase::Second => 3,
        Phase::Intent | Phase::Unchanged => 4,
        Phase::Current => 5,
        Phase::Ancestry => 6,
        Phase::Owned => 7,
        Phase::Worktree | Phase::WorktreeSaved | Phase::Branch => 8,
        _ => 0,
    }
}

/// The decision on a candidate is the one that the world calls for.
spec fn decided(
    world: spec_fn(Phase, StepView) -> EventView,
    start: PassView,
    record: RecordView,
    candidate: CandidateView,
) -> bool {
    &&& record.state == State::Removed <==> clears(
        world,
        start.policy,
        start.integration,
        candidate,
        8,
    )
    &&& !interrupted(record)
}

spec fn progresses(
    world: spec_fn(Phase, StepView) -> EventView,
    start: PassView,
    pass: PassView,
) -> bool {
    &&& deciding(pass.phase) && pass.phase != Phase::Saving ==> {
        &&& clears(world, pass.policy, pass.integration, pass.candidate(), level(pass.phase))
        &&& pass.phase != Phase::Evidence ==> pass.current.evidence == evidence_of(
            world,
            pass.integration,
            pass.candidate(),
        )
        &&& !pass.current.branch_removed
        &&& !(pass.phase == Phase::WorktreeSaved || pass.phase == Phase::Branch)
            ==> !pass.current.worktree_removed
    }
    &&& pass.phase == Phase::Saving ==> decided(world, start, pass.current, pass.candidate())
    &&& forall|j: int|
        0 <= j < pass.at ==> decided(
            world,
            start,
            #[trigger] pass.records[j],
            pass.candidates[j],
        )
}

proof fn lemma_candidate_progresses(
    world: spec_fn(Phase, StepView) -> EventView,
    start: PassView,
    pass: PassView,
    now: u64,
)
    requires
        between(start, pass),
        forall|j: int|
            0 <= j < pass.at ==> decided(
                world,
                start,
                #[trigger] pass.records[j],
                pass.candidates[j],
            ),
    ensures
        progresses(world, start, pass.next_candidate(now).0),
{
}

#[verifier::rlimit(60)]
proof fn lemma_progresses(
    world: spec_fn(Phase, StepView) -> EventView,
    start: PassView,
    pass: PassView,
    step: StepView,
    now: u64,
)
    requires
        stands(start, pass, step),
        !start.preview,
        obliging(world),
        pass.awaits(world(pass.phase, step)),
        progresses(world, start, pass),
    ensures
        progresses(world, start, pass.told(world(pass.phase, step), now).0),
{
    let event = world(pass.phase, step);
    let next = pass.told(event, now).0;
    lemma_records_kept(start, pass, step, event, now);
    assert(removal(step) || step is Save ==> event == EventView::Settled(Ok(())));
    match pass.phase {
        Phase::Saving => {
            let saved = PassView {
                records: pass.records.push(pass.current),
                at: pass.at + 1,
                ..pass
            };
            assert forall|j: int| 0 <= j < saved.at implies decided(
                world,
                start,
                #[trigger] saved.records[j],
                saved.candidates[j],
            ) by {
                if j < pass.at {
                    assert(saved.records[j] == pass.records[j]);
                }
            }
            lemma_candidate_progresses(world, start, saved, now);
            assert(event->Settled_0 is Ok);
            assert(pass.told(event, now) == saved.next_candidate(now));
        },
        Phase::First | Phase::Second => {
            assert(pass.kept_by(event->Inspected_0, event->Inspected_1) == kept_by_look(
                pass.policy,
                pass.candidate(),
                pass.branch(),
                pass.current.evidence is Some,
                event,
            ));
            assert(progresses(world, start, next));
        },
        Phase::Absent | Phase::Recovered => {
            assert(next.records.len() >= pass.records.len());
            assert forall|j: int| 0 <= j < next.at implies decided(
                world,
                start,
                #[trigger] next.records[j],
                next.candidates[j],
            ) by {
                assert(next.records[j] == pass.records[j]);
            }
        },
        _ => {
            assert(next.records == pass.records && next.at == pass.at);
            assert(next.candidate() == pass.candidate());
            if event is Settled && event->Settled_0 is Ok {
                assert(event->Settled_0->Ok_0 == ());
            }
        },
    }
}

proof fn lemma_run_progresses(
    world: spec_fn(Phase, StepView) -> EventView,
    run: Run,
    start: PassView,
    now: u64,
    i: int,
)
    requires
        run.follows(start, now),
        untouched(start),
        !start.preview,
        obliging(world),
        run.driven_by(world),
        0 <= i <= run.events.len(),
    ensures
        progresses(world, start, run.pass(i)),
    decreases i,
{
    if i == 0 {
        lemma_candidate_progresses(world, start, start, now);
    } else {
        lemma_run_progresses(world, run, start, now, i - 1);
        lemma_run_stands(run, start, now, i - 1);
        assert(run.goes_on(i - 1));
        assert(run.events[i - 1] == world(run.pass(i - 1).phase, run.step(i - 1)));
        lemma_progresses(world, start, run.pass(i - 1), run.step(i - 1), run.times[i - 1]);
    }
}

/// No two records are of one candidate.
pub open spec fn told_apart(records: Seq<RecordView>) -> bool {
    forall|i: int, j: int|
        #![trigger records[i], records[j]]
        0 <= i < j < records.len() ==> !records[i].candidate.same_as(records[j].candidate)
}

/// A record that is saved takes its place, and the others stay.
proof fn lemma_with_record(records: Seq<RecordView>, record: RecordView, i: nat) -> (place: int)
    requires
        told_apart(records),
        i <= records.len(),
        forall|k: int|
            0 <= k < i ==> !(#[trigger] records[k]).candidate.same_as(record.candidate),
    ensures
        ({
            let after = with_record(records, record, i);
            &&& after.len() >= records.len()
            &&& 0 <= place < after.len()
            &&& after[place] == record
            &&& forall|k: int|
                0 <= k < after.len() && k != place ==> k < records.len() && #[trigger] after[k]
                    == records[k] && !after[k].candidate.same_as(record.candidate)
            &&& told_apart(after)
        }),
    decreases records.len() - i,
{
    let after = with_record(records, record, i);
    if i >= records.len() {
        let place = records.len() as int;
        assert(after == records.push(record));
        assert forall|a: int, b: int|
            #![trigger after[a], after[b]]
            0 <= a < b < after.len() implies !after[a].candidate.same_as(after[b].candidate) by {
            assert(after[a] == records[a]);
        }
        place
    } else if records[i as int].candidate.same_as(record.candidate) {
        let place = i as int;
        assert(after == records.update(place, record));
        assert forall|k: int| 0 <= k < after.len() && k != place implies k < records.len()
            && #[trigger] after[k] == records[k] && !after[k].candidate.same_as(
            record.candidate,
        ) by {
            assert(after[k] == records[k]);
            if k > place {
                assert(!records[place].candidate.same_as(records[k].candidate));
            }
        }
        assert forall|a: int, b: int|
            #![trigger after[a], after[b]]
            0 <= a < b < after.len() implies !after[a].candidate.same_as(after[b].candidate) by {
            if a != place && b != place {
                assert(after[a] == records[a] && after[b] == records[b]);
            }
        }
        place
    } else {
        lemma_with_record(records, record, i + 1)
    }
}

/// What a record stands for is still there.
pub open spec fn still_present(
    world: spec_fn(Phase, StepView) -> EventView,
    record: RecordView,
) -> bool {
    world(Phase::Absent, StepView::CheckAbsent(record.candidate)) == EventView::Absent(Ok(false))
}

/// What the records that are kept say at a point of the pass: an operation that was
/// interrupted is that of the candidate in hand, or one of an earlier pass that was not yet
/// looked at, or that stands for something still there.
spec fn kept_well(
    world: spec_fn(Phase, StepView) -> EventView,
    start: PassView,
    pass: PassView,
    kept: Seq<RecordView>,
) -> bool {
    &&& told_apart(kept)
    &&& kept.len() >= start.history.len()
    &&& forall|k: int|
        0 <= k < start.history.len() ==> (#[trigger] kept[k]).candidate.same_as(
            start.history[k].candidate,
        )
    &&& forall|k: int|
        0 <= k < kept.len() && interrupted(#[trigger] kept[k]) ==> {
            ||| deciding(pass.phase) && kept[k].candidate.same_as(pass.candidate())
            ||| k < start.history.len() && kept[k] == start.history[k] && (k < pass.looked
                ==> still_present(world, kept[k]))
        }
}

proof fn lemma_kept_to_record(
    world: spec_fn(Phase, StepView) -> EventView,
    start: PassView,
    pass: PassView,
    kept: Seq<RecordView>,
)
    requires
        between(start, pass),
        kept_well(world, start, PassView { phase: Phase::Ended, ..pass }, kept),
    ensures
        kept_well(world, start, pass.next_record().0, kept),
{
    lemma_next_interrupted(pass.history, pass.looked);
    let next = pass.next_record().0;
    assert forall|k: int| 0 <= k < kept.len() && interrupted(#[trigger] kept[k]) implies {
        ||| deciding(next.phase) && kept[k].candidate.same_as(next.candidate())
        ||| k < start.history.len() && kept[k] == start.history[k] && (k < next.looked
            ==> still_present(world, kept[k]))
    } by {
        if pass.looked <= k < next.looked {
            assert(!interrupted(pass.history[k]));
        }
    }
}

#[verifier::rlimit(60)]
proof fn lemma_kept_well(
    world: spec_fn(Phase, StepView) -> EventView,
    start: PassView,
    pass: PassView,
    step: StepView,
    now: u64,
    kept: Seq<RecordView>,
    after: Seq<RecordView>,
)
    requires
        stands(start, pass, step),
        !start.preview,
        obliging(world),
        pass.awaits(world(pass.phase, step)),
        progresses(world, start, pass),
        kept_well(world, start, pass, kept),
        after == (match step {
            StepView::Save(record) => with_record(kept, record, 0),
            _ => kept,
        }),
    ensures
        kept_well(world, start, pass.told(world(pass.phase, step), now).0, after),
{
    let event = world(pass.phase, step);
    let next = pass.told(event, now).0;
    assert(removal(step) || step is Save ==> event == EventView::Settled(Ok(())));
    if let StepView::Save(record) = step {
        assert(record == pass.current);
        let place = lemma_with_record(kept, record, 0);
        assert forall|k: int| 0 <= k < start.history.len() implies (
        #[trigger] after[k]).candidate.same_as(start.history[k].candidate) by {
            assert(kept[k].candidate.same_as(start.history[k].candidate));
            if k == place {
                assert(kept[k].candidate.same_as(record.candidate)) by {
                    lemma_first_of(kept, record, 0, place);
                }
            }
        }
        match pass.phase {
            Phase::Saving => {
                let saved = PassView {
                    records: pass.records.push(pass.current),
                    at: pass.at + 1,
                    phase: Phase::Ended,
                    ..pass
                };
                assert(kept_well(world, start, saved, after)) by {
                    assert forall|k: int|
                        0 <= k < after.len() && interrupted(#[trigger] after[k]) implies {
                        ||| deciding(saved.phase) && after[k].candidate.same_as(saved.candidate())
                        ||| k < start.history.len() && after[k] == start.history[k] && (k
                            < saved.looked ==> still_present(world, after[k]))
                    } by {
                        assert(k != place);
                        assert(after[k] == kept[k]);
                    }
                }
                let begun = PassView { phase: pass.phase, ..saved };
                if begun.at >= begun.candidates.len() {
                    lemma_kept_to_record(world, start, begun, after);
                } else {
                    assert(next.looked == 0);
                }
            },
            Phase::Recovered => {
                let saved = PassView {
                    records: pass.records.push(pass.current),
                    looked: pass.looked + 1,
                    phase: Phase::Ended,
                    ..pass
                };
                assert(place == pass.looked) by {
                    assert(kept[pass.looked].candidate.same_as(
                        start.history[pass.looked].candidate,
                    ));
                    if place != pass.looked {
                        assert(after[pass.looked] == kept[pass.looked]);
                    }
                }
                assert(!interrupted(record));
                assert(kept_well(world, start, saved, after)) by {
                    assert forall|k: int|
                        0 <= k < after.len() && interrupted(#[trigger] after[k]) implies {
                        ||| deciding(saved.phase) && after[k].candidate.same_as(saved.candidate())
                        ||| k < start.history.len() && after[k] == start.history[k] && (k
                            < saved.looked ==> still_present(world, after[k]))
                    } by {
                        assert(k != place);
                        assert(after[k] == kept[k]);
                    }
                }
                lemma_kept_to_record(
                    world,
                    start,
                    PassView { phase: pass.phase, ..saved },
                    after,
                );
            },
            _ => {
                assert forall|k: int|
                    0 <= k < after.len() && interrupted(#[trigger] after[k]) implies {
                    ||| deciding(next.phase) && after[k].candidate.same_as(next.candidate())
                    ||| k < start.history.len() && after[k] == start.history[k] && (k < next.looked
                        ==> still_present(world, after[k]))
                } by {
                    if k != place {
                        assert(after[k] == kept[k]);
                    }
                }
            },
        }
    } else if pass.phase == Phase::Absent && event == EventView::Absent(Ok(false)) {
        let passed = PassView { looked: pass.looked + 1, phase: Phase::Ended, ..pass };
        assert(kept_well(world, start, passed, kept)) by {
            assert forall|k: int| 0 <= k < kept.len() && interrupted(#[trigger] kept[k]) implies {
                ||| deciding(passed.phase) && kept[k].candidate.same_as(passed.candidate())
                ||| k < start.history.len() && kept[k] == start.history[k] && (k < passed.looked
                    ==> still_present(world, kept[k]))
            } by {
                if k == pass.looked {
                    assert(step == StepView::CheckAbsent(pass.history[k].candidate));
                }
            }
        }
        lemma_kept_to_record(world, start, PassView { phase: pass.phase, ..passed }, kept);
    } else {
        assert(pass.phase != Phase::Saving);
        assert(next.looked == pass.looked);
        if deciding(pass.phase) {
            assert(deciding(next.phase) && next.candidate() == pass.candidate());
        }
    }
}

/// A record that takes the place of another is of the same candidate.
proof fn lemma_first_of(kept: Seq<RecordView>, record: RecordView, i: nat, place: int)
    requires
        0 <= place < kept.len(),
        i <= kept.len(),
        forall|k: int|
            0 <= k < with_record(kept, record, i).len() && k != place ==> !(#[trigger] with_record(
                kept,
                record,
                i,
            )[k]).candidate.same_as(record.candidate),
    ensures
        kept[place].candidate.same_as(record.candidate),
    decreases kept.len() - i,
{
    let after = with_record(kept, record, i);
    if i >= kept.len() {
        assert(after[kept.len() as int] == record);
    } else if kept[i as int].candidate.same_as(record.candidate) {
        assert(after[i as int] == record);
    } else {
        lemma_first_of(kept, record, i + 1, place);
    }
}

proof fn lemma_run_kept(
    world: spec_fn(Phase, StepView) -> EventView,
    run: Run,
    start: PassView,
    now: u64,
    i: int,
)
    requires
        run.follows(start, now),
        untouched(start),
        !start.preview,
        obliging(world),
        run.driven_by(world),
        told_apart(start.history),
        0 <= i <= run.events.len(),
    ensures
        kept_well(world, start, run.pass(i), run.saved(i)),
    decreases i,
{
    lemma_run_stands(run, start, now, i);
    if i == 0 {
        assert(run.saved(0) == start.history);
        assert(kept_well(world, start, start, start.history));
        if start.candidates.len() == 0 {
            lemma_kept_to_record(world, start, start, start.history);
        }
    } else {
        lemma_run_kept(world, run, start, now, i - 1);
        lemma_run_stands(run, start, now, i - 1);
        lemma_run_progresses(world, run, start, now, i - 1);
        assert(run.goes_on(i - 1));
        assert(run.events[i - 1] == world(run.pass(i - 1).phase, run.step(i - 1)));
        lemma_kept_well(
            world,
            start,
            run.pass(i - 1),
            run.step(i - 1),
            run.times[i - 1],
            run.saved(i - 1),
            run.saved(i),
        );
    }
}

proof fn lemma_nothing_recovered(
    world: spec_fn(Phase, StepView) -> EventView,
    run: Run,
    start: PassView,
    now: u64,
    i: int,
)
    requires
        run.follows(start, now),
        untouched(start),
        run.driven_by(world),
        forall|k: int|
            0 <= k < start.history.len() && interrupted(#[trigger] start.history[k])
                ==> still_present(world, start.history[k]),
        0 <= i <= run.events.len(),
    ensures
        run.pass(i).phase != Phase::Recovered,
        run.pass(i).records.len() == run.pass(i).at,
    decreases i,
{
    lemma_run_stands(run, start, now, i);
    if i > 0 {
        let before = run.pass(i - 1);
        lemma_nothing_recovered(world, run, start, now, i - 1);
        lemma_run_stands(run, start, now, i - 1);
        assert(run.goes_on(i - 1));
        assert(run.events[i - 1] == world(before.phase, run.step(i - 1)));
        lemma_records_kept(start, before, run.step(i - 1), run.events[i - 1], run.times[i - 1]);
        if before.phase == Phase::Absent {
            assert(still_present(world, start.history[before.looked]));
        }
    }
}

/// A pass that follows at once on another one removes nothing: it meets the candidates that
/// the other has left, and the records that the other has saved, in a world that says the
/// same as before. This holds where records can be saved and removals succeed, and where the
/// records of earlier passes hold each candidate once.
pub proof fn second_pass_removes_nothing(
    world: spec_fn(Phase, StepView) -> EventView,
    first: Run,
    start: PassView,
    now: u64,
    second: Run,
    restart: PassView,
    later: u64,
)
    requires
        first.follows(start, now),
        untouched(start),
        !start.preview,
        obliging(world),
        first.driven_by(world),
        told_apart(start.history),
        first.finished() is Some,
        second.follows(restart, later),
        untouched(restart),
        second.driven_by(world),
        restart.preview == start.preview,
        restart.policy == start.policy,
        restart.integration == start.integration,
        restart.history == first.saved(first.events.len() as int),
        forall|j: int|
            0 <= j < restart.candidates.len() ==> exists|k: int|
                0 <= k < start.candidates.len() && #[trigger] start.candidates[k]
                    == #[trigger] restart.candidates[j] && first.finished()->0[k].state
                    != State::Removed,
    ensures
        forall|i: int| 0 <= i <= second.events.len() ==> !removal(#[trigger] second.step(i)),
        second.finished() matches Some(records) ==> forall|j: int|
            0 <= j < records.len() ==> (#[trigger] records[j]).state != State::Removed,
{
    let n = first.events.len() as int;
    lemma_run_stands(first, start, now, n);
    lemma_run_progresses(world, first, start, now, n);
    lemma_run_kept(world, first, start, now, n);
    let done = first.pass(n);
    assert forall|k: int|
        0 <= k < restart.history.len() && interrupted(
            #[trigger] restart.history[k],
        ) implies still_present(world, restart.history[k]) by {
        assert(first.saved(n)[k] == restart.history[k]);
    }
    assert forall|j: int| 0 <= j < restart.candidates.len() implies !clears(
        world,
        start.policy,
        start.integration,
        #[trigger] restart.candidates[j],
        8,
    ) by {
        let k = choose|k: int|
            0 <= k < start.candidates.len() && #[trigger] start.candidates[k]
                == restart.candidates[j] && first.finished()->0[k].state != State::Removed;
        assert(decided(world, start, done.records[k], done.candidates[k]));
    }
    assert forall|i: int| 0 <= i <= second.events.len() implies !removal(
        #[trigger] second.step(i),
    ) by {
        lemma_run_stands(second, restart, later, i);
        lemma_run_progresses(world, second, restart, later, i);
        let pass = second.pass(i);
        if removal(second.step(i)) {
            assert(clears(world, start.policy, start.integration, restart.candidates[pass.at], 8));
        }
    }
    let m = second.events.len() as int;
    lemma_run_stands(second, restart, later, m);
    lemma_run_progresses(world, second, restart, later, m);
    lemma_nothing_recovered(world, second, restart, later, m);
    if let Some(records) = second.finished() {
        assert forall|j: int| 0 <= j < records.len() implies (#[trigger] records[j]).state
            != State::Removed by {
            assert(decided(
                world,
                restart,
                second.pass(m).records[j],
                second.pass(m).candidates[j],
            ));
            assert(!clears(world, start.policy, start.integration, restart.candidates[j], 8));
        }
    }
}

} // verus!
