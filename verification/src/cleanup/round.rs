//! One round over the registered repositories: which of them are looked at, what a look
//! leaves behind, and what is saved and published at the end.
use vstd::prelude::*;

use super::engine::Engine;
use super::git::Repository;
use super::policy::{record_views, PolicyView, Record, RecordView};
use super::service::{
    any_offline, fingerprint_of, joined_texts, look_trigger, merge_schedule, pause, rescheduled,
    round_result, Prepared, Worker,
};
use super::store::{registered, registration_views, RegistrationView, Settings, SettingsView};
use crate::path::components;
use crate::runtime_provider::copy_bytes;
use crate::text::{lossy, lossy_text, texts};

verus! {

#[derive(Clone, Copy, Debug, PartialEq, Eq, Structural)]
pub enum RoundPhase {
    /// A repository is being opened.
    Opening,
    /// A repository is being looked at.
    Looking,
    /// The settings are being read again.
    Rereading,
    Saving,
    Ended,
}

/// A round, as it stands.
pub struct Round {
    pub settings: Settings,
    pub preview: bool,
    pub selected: Option<Vec<u8>>,
    pub trigger: String,
    pub force: bool,
    /// Which registration the round is at.
    pub at: usize,
    /// When it came to that registration.
    pub started: u64,
    pub phase: RoundPhase,
    pub records: Vec<Record>,
    pub diagnostics: Vec<String>,
}

#[verifier::ext_equal]
pub struct RoundView {
    pub settings: SettingsView,
    pub preview: bool,
    pub selected: Option<Seq<u8>>,
    pub trigger: Seq<char>,
    pub force: bool,
    pub at: int,
    pub started: u64,
    pub phase: RoundPhase,
    pub records: Seq<RecordView>,
    pub diagnostics: Seq<Seq<char>>,
}

pub open spec fn bytes_of(value: Option<Vec<u8>>) -> Option<Seq<u8>> {
    match value {
        Some(bytes) => Some(bytes@),
        None => None,
    }
}

impl View for Round {
    type V = RoundView;

    open spec fn view(&self) -> RoundView {
        RoundView {
            settings: self.settings@,
            preview: self.preview,
            selected: bytes_of(self.selected),
            trigger: self.trigger@,
            force: self.force,
            at: self.at as int,
            started: self.started,
            phase: self.phase,
            records: record_views(self.records@),
            diagnostics: texts(self.diagnostics@),
        }
    }
}

/// What came of the last step.
pub enum RoundEvent {
    /// The repository and its references, or why it could not be opened.
    Opened(Result<(Repository, String), String>),
    Reconciled(Result<Vec<Record>, String>),
    Reread(Result<Settings, String>),
    Saved(Result<(), String>),
}

/// What has to be done next.
pub enum RoundStep {
    /// Open the repository at a path, and list its references.
    Open(Vec<u8>),
    Reconcile(Engine),
    /// Read the settings again, under their exclusive lock.
    Reread,
    /// Save the settings, still under that lock.
    Save(Settings),
    /// Publish the settings and the records. The round comes to the result given.
    Done(Settings, Vec<Record>, Result<(), String>),
    Failed(String),
}

#[verifier::ext_equal]
pub struct EngineView {
    pub root: Seq<u8>,
    pub common: Seq<u8>,
    pub policy: PolicyView,
    pub trigger: Seq<char>,
    pub preview: bool,
}

impl View for Engine {
    type V = EngineView;

    open spec fn view(&self) -> EngineView {
        EngineView {
            root: self.repository.root@,
            common: self.repository.common@,
            policy: self.policy@,
            trigger: self.trigger@,
            preview: self.preview,
        }
    }
}

#[verifier::ext_equal]
pub enum RoundStepView {
    Open(Seq<u8>),
    Reconcile(EngineView),
    Reread,
    Save(SettingsView),
    Done(SettingsView, Seq<RecordView>, Result<(), Seq<char>>),
    Failed(Seq<char>),
}

pub open spec fn outcome_view(value: Result<(), String>) -> Result<(), Seq<char>> {
    match value {
        Ok(_) => Ok(()),
        Err(message) => Err(message@),
    }
}

impl View for RoundStep {
    type V = RoundStepView;

    open spec fn view(&self) -> RoundStepView {
        match self {
            RoundStep::Open(path) => RoundStepView::Open(path@),
            RoundStep::Reconcile(engine) => RoundStepView::Reconcile(engine@),
            RoundStep::Reread => RoundStepView::Reread,
            RoundStep::Save(settings) => RoundStepView::Save(settings@),
            RoundStep::Done(settings, records, result) => RoundStepView::Done(
                settings@,
                record_views(records@),
                outcome_view(*result),
            ),
            RoundStep::Failed(message) => RoundStepView::Failed(message@),
        }
    }
}

impl SettingsView {
    /// The policy that holds for the registration at `i`.
    pub open spec fn policy_at(self, i: int) -> PolicyView {
        match self.repositories[i].policy {
            Some(policy) => policy,
            None => self.policy,
        }
    }
}

impl RegistrationView {
    /// This registration once the repository was looked at.
    pub open spec fn looked_at(self, failed: bool, started: u64) -> Self {
        let failures: u32 = if !failed {
            0
        } else if self.failures == u32::MAX {
            u32::MAX
        } else {
            (self.failures + 1) as u32
        };
        RegistrationView {
            failures,
            next_attempt: if started + pause(failures) > u64::MAX {
                u64::MAX
            } else {
                (started + pause(failures)) as u64
            },
            ..self
        }
    }
}

impl RoundView {
    /// Whether the registration at `i` takes part: it is the one that was asked for, and
    /// cleanup is enabled for it or only previewed.
    pub open spec fn part(self, i: int) -> bool {
        &&& self.selected matches Some(root) ==> components(root) == components(
            self.settings.repositories[i].repository,
        )
        &&& self.preview || self.settings.policy_at(i).enabled
    }

    /// The first registration, from `i` on, that takes part, or else their number.
    pub open spec fn next_part(self, i: nat) -> nat
        decreases self.settings.repositories.len() - i,
    {
        if i >= self.settings.repositories.len() {
            self.settings.repositories.len()
        } else if self.part(i as int) {
            i
        } else {
            self.next_part(i + 1)
        }
    }

    /// The round goes on with the registrations from `i` on.
    pub open spec fn goes_on(self, i: nat, now: u64) -> (Self, RoundStepView) {
        let at = self.next_part(i);
        if at < self.settings.repositories.len() {
            (
                RoundView { at: at as int, started: now, phase: RoundPhase::Opening, ..self },
                RoundStepView::Open(self.settings.repositories[at as int].repository),
            )
        } else {
            (
                RoundView { at: at as int, started: now, phase: RoundPhase::Rereading, ..self },
                RoundStepView::Reread,
            )
        }
    }

    /// The round once the repository it is at was looked at.
    pub open spec fn looked(self, outcome: Result<Seq<RecordView>, Seq<char>>) -> Self {
        let failed = match outcome {
            Ok(records) => any_offline(records),
            Err(_) => true,
        };
        let registration = self.settings.repositories[self.at];
        RoundView {
            settings: SettingsView {
                repositories: self.settings.repositories.update(
                    self.at,
                    registration.looked_at(failed, self.started),
                ),
                ..self.settings
            },
            records: match outcome {
                Ok(records) => self.records + records,
                Err(_) => self.records,
            },
            diagnostics: match outcome {
                Ok(_) => self.diagnostics,
                Err(message) => self.diagnostics.push(
                    lossy(registration.repository) + ": "@ + message,
                ),
            },
            ..self
        }
    }

    /// Whether the repository that the round is at is looked at now.
    pub open spec fn due(self, changed: bool) -> bool {
        let registration = self.settings.repositories[self.at];
        self.force || registration.next_attempt <= self.started || (changed
            && registration.failures == 0)
    }

    /// The round and its next step, once it was told what came of the last one. `changed`
    /// says whether the references of an opened repository have changed since it was last
    /// looked at.
    pub open spec fn told(self, event: RoundEvent, changed: bool, now: u64) -> (
        Self,
        RoundStepView,
    ) {
        match event {
            RoundEvent::Opened(Err(message)) => self.looked(Err(message@)).goes_on(
                (self.at + 1) as nat,
                now,
            ),
            RoundEvent::Opened(Ok(opened)) => if self.due(changed) {
                (
                    RoundView { phase: RoundPhase::Looking, ..self },
                    RoundStepView::Reconcile(
                        EngineView {
                            root: opened.0.root@,
                            common: opened.0.common@,
                            policy: self.settings.policy_at(self.at),
                            trigger: if changed {
                                "git_references_changed"@
                            } else {
                                self.trigger
                            },
                            preview: self.preview,
                        },
                    ),
                )
            } else {
                self.goes_on((self.at + 1) as nat, now)
            },
            RoundEvent::Reconciled(outcome) => self.looked(
                match outcome {
                    Ok(records) => Ok(record_views(records@)),
                    Err(message) => Err(message@),
                },
            ).goes_on((self.at + 1) as nat, now),
            RoundEvent::Reread(Err(message)) => (
                RoundView { phase: RoundPhase::Ended, ..self },
                RoundStepView::Failed(message@),
            ),
            RoundEvent::Reread(Ok(fresh)) => {
                let merged = SettingsView {
                    repositories: rescheduled(
                        fresh@.repositories,
                        self.settings.repositories,
                        self.settings.repositories.len(),
                    ),
                    ..fresh@
                };
                (
                    RoundView { settings: merged, phase: RoundPhase::Saving, ..self },
                    RoundStepView::Save(merged),
                )
            },
            RoundEvent::Saved(Err(message)) => (
                RoundView { phase: RoundPhase::Ended, ..self },
                RoundStepView::Failed(message@),
            ),
            RoundEvent::Saved(Ok(_)) => (
                RoundView { phase: RoundPhase::Ended, ..self },
                RoundStepView::Done(
                    self.settings,
                    self.records,
                    if self.diagnostics.len() == 0 {
                        Ok(())
                    } else {
                        Err(joined_texts(self.diagnostics, self.diagnostics.len()))
                    },
                ),
            ),
        }
    }
}

impl Round {
    pub open spec fn wf(self) -> bool {
        self.phase == RoundPhase::Opening || self.phase == RoundPhase::Looking ==> self.at
            < self.settings.repositories@.len()
    }

    /// Whether the round waits for an event of this sort.
    pub open spec fn awaits(self, event: RoundEvent) -> bool {
        match event {
            RoundEvent::Opened(_) => self.phase == RoundPhase::Opening,
            RoundEvent::Reconciled(_) => self.phase == RoundPhase::Looking,
            RoundEvent::Reread(_) => self.phase == RoundPhase::Rereading,
            RoundEvent::Saved(_) => self.phase == RoundPhase::Saving,
        }
    }

    fn go_on(&mut self, from: usize, now: u64) -> (r: RoundStep)
        requires
            from <= old(self).settings.repositories@.len(),
        ensures
            final(self).wf(),
            (final(self)@, r@) == old(self)@.goes_on(from as nat, now),
    {
        let ghost before = self@;
        let mut i: usize = from;
        while i < self.settings.repositories.len()
            invariant
                i <= self.settings.repositories@.len(),
                *self == *old(self),
                before == self@,
                before.next_part(from as nat) == before.next_part(i as nat),
            decreases self.settings.repositories@.len() - i,
        {
            let registration = &self.settings.repositories[i];
            assert(before.settings.repositories[i as int] == registration@);
            if Worker::takes_part(&self.settings, registration, &self.selected, self.preview) {
                assert(before.part(i as int));
                let path = copy_bytes(&registration.repository);
                self.at = i;
                self.started = now;
                self.phase = RoundPhase::Opening;
                return RoundStep::Open(path);
            }
            assert(!before.part(i as int));
            i = i + 1;
        }
        self.at = self.settings.repositories.len();
        self.started = now;
        self.phase = RoundPhase::Rereading;
        RoundStep::Reread
    }

    fn go_past(&mut self, now: u64) -> (r: RoundStep)
        requires
            old(self).at < old(self).settings.repositories@.len(),
        ensures
            final(self).wf(),
            (final(self)@, r@) == old(self)@.goes_on((old(self).at + 1) as nat, now),
    {
        let count: usize = self.settings.repositories.len();
        let from: usize = if self.at < count {
            self.at + 1
        } else {
            count
        };
        self.go_on(from, now)
    }

    fn take_outcome(&mut self, outcome: Result<Vec<Record>, String>)
        requires
            old(self).at < old(self).settings.repositories@.len(),
        ensures
            final(self)@ == old(self)@.looked(
                match outcome {
                    Ok(records) => Ok(record_views(records@)),
                    Err(message) => Err(message@),
                },
            ),
            final(self).settings.repositories@.len() == old(self).settings.repositories@.len(),
            final(self).at == old(self).at,
    {
        let ghost before = self@;
        let ghost all = self.settings.repositories@;
        let at: usize = self.at;
        assert(before.settings.repositories[at as int] == all[at as int]@);
        let started: u64 = self.started;
        self.settings.repositories[at].settle(&outcome, started);
        proof {
            let after = self.settings.repositories@;
            assert(registration_views(after) =~= registration_views(all).update(
                at as int,
                after[at as int]@,
            ));
        }
        match outcome {
            Ok(records) => {
                let mut more = records;
                let ghost given = record_views(more@);
                let ghost kept = self.records@;
                self.records.append(&mut more);
                assert(record_views(self.records@) =~= record_views(kept) + given);
            },
            Err(message) => {
                let name = lossy_text(self.settings.repositories[at].repository.as_slice());
                let ghost kept = self.diagnostics@;
                let text = name.concat(": ").concat(message.as_str());
                let ghost added = text@;
                self.diagnostics.push(text);
                assert(texts(self.diagnostics@) =~= texts(kept).push(added));
            },
        }
    }

    /// Begin a round, where sessions have published what they own and the repository that
    /// was asked for, if one was, is registered. `selected` is its primary checkout, or why
    /// it could not be opened.
    pub fn begin(
        worker: &Worker,
        prepared: Prepared,
        selected: Option<Result<Vec<u8>, String>>,
        now: u64,
    ) -> (r: Result<(Round, RoundStep), String>)
        ensures
            r matches Ok(begun) ==> begun.0.wf(),
            if !worker.ready {
                r matches Err(message) && message@ == "waiting for authoritative session ownership"@
            } else {
                match selected {
                    Some(Err(error)) => r matches Err(message) && message@ == error@,
                    _ => if selected matches Some(Ok(root)) && registered(
                        prepared.settings@.repositories,
                        root@,
                        0,
                    ) is None {
                        r matches Err(message) && message@ == "repository is not registered"@
                    } else {
                        r matches Ok(begun) && (begun.0@, begun.1@) == (RoundView {
                            settings: prepared.settings@,
                            preview: prepared.preview,
                            selected: match selected {
                                Some(Ok(root)) => Some(root@),
                                _ => None,
                            },
                            trigger: prepared.trigger@,
                            force: prepared.force,
                            at: 0,
                            started: now,
                            phase: RoundPhase::Ended,
                            records: Seq::empty(),
                            diagnostics: Seq::empty(),
                        }).goes_on(0, now)
                    },
                }
            },
    {
        if !worker.ready {
            return Err("waiting for authoritative session ownership".to_owned());
        }
        let root: Option<Vec<u8>> = match selected {
            Some(Ok(root)) => Some(root),
            Some(Err(error)) => {
                return Err(error);
            },
            None => None,
        };
        if let Err(message) = worker.admitted(&prepared.settings, &root) {
            return Err(message);
        }
        let mut round = Round {
            settings: prepared.settings,
            preview: prepared.preview,
            selected: root,
            trigger: prepared.trigger,
            force: prepared.force,
            at: 0,
            started: now,
            phase: RoundPhase::Ended,
            records: Vec::new(),
            diagnostics: Vec::new(),
        };
        assert(record_views(round.records@) =~= Seq::empty());
        assert(texts(round.diagnostics@) =~= Seq::empty());
        let step = round.go_on(0, now);
        Ok((round, step))
    }

    /// Go on with what came of the last step. The references of each repository that is
    /// opened are remembered, whether or not it is looked at.
    pub fn next(&mut self, worker: &mut Worker, event: RoundEvent, now: u64) -> (r: RoundStep)
        requires
            old(self).wf(),
            old(self).awaits(event),
        ensures
            final(self).wf(),
            (final(self)@, r@) == old(self)@.told(
                event,
                event matches RoundEvent::Opened(Ok(opened)) && fingerprint_of(
                    old(worker).fingerprints@,
                    opened.0.common@,
                    0,
                ) != Some(opened.1@),
                now,
            ),
            final(worker).ready == old(worker).ready,
            final(worker).owned_paths == old(worker).owned_paths,
            forall|common: Seq<u8>| #[trigger]
                fingerprint_of(final(worker).fingerprints@, common, 0) == (match event {
                    RoundEvent::Opened(Ok(opened)) if components(opened.0.common@) == components(
                        common,
                    ) => Some(
                        opened.1@,
                    ),
                    _ => fingerprint_of(old(worker).fingerprints@, common, 0),
                }),
    {
        match event {
            RoundEvent::Opened(Err(message)) => {
                self.take_outcome(Err(message));
                self.go_past(now)
            },
            RoundEvent::Opened(Ok(opened)) => {
                let (repository, fingerprint) = opened;
                let changed: bool = worker.note_fingerprint(
                    &repository.common,
                    fingerprint.as_str(),
                );
                let registration = &self.settings.repositories[self.at];
                assert(self@.settings.repositories[self.at as int] == registration@);
                if !Worker::is_due(self.force, changed, registration, self.started) {
                    return self.go_past(now);
                }
                let policy = match &registration.policy {
                    Some(policy) => policy.clone(),
                    None => self.settings.policy.clone(),
                };
                let trigger = look_trigger(changed, self.trigger.as_str());
                self.phase = RoundPhase::Looking;
                RoundStep::Reconcile(Engine { repository, policy, trigger, preview: self.preview })
            },
            RoundEvent::Reconciled(outcome) => {
                self.take_outcome(outcome);
                self.go_past(now)
            },
            RoundEvent::Reread(Err(message)) => {
                self.phase = RoundPhase::Ended;
                RoundStep::Failed(message)
            },
            RoundEvent::Reread(Ok(fresh)) => {
                let merged = merge_schedule(fresh, &self.settings.repositories);
                self.phase = RoundPhase::Saving;
                let saved = merged.clone();
                self.settings = merged;
                RoundStep::Save(saved)
            },
            RoundEvent::Saved(Err(message)) => {
                self.phase = RoundPhase::Ended;
                RoundStep::Failed(message)
            },
            RoundEvent::Saved(Ok(_)) => {
                self.phase = RoundPhase::Ended;
                let result = round_result(&self.diagnostics);
                let settings = self.settings.clone();
                let records = super::engine::copy_records(&self.records);
                RoundStep::Done(settings, records, result)
            },
        }
    }
}

proof fn lemma_next_part(round: RoundView, i: nat)
    ensures
        i <= round.settings.repositories.len() ==> i <= round.next_part(i)
            <= round.settings.repositories.len(),
        round.next_part(i) < round.settings.repositories.len() ==> round.part(
            round.next_part(i) as int,
        ),
    decreases round.settings.repositories.len() - i,
{
    if i < round.settings.repositories.len() && !round.part(i as int) {
        lemma_next_part(round, i + 1);
    }
}

/// A round opens only a repository that takes part in it: one for which cleanup is enabled,
/// unless it is only previewed, and the one that was asked for, where one was.
pub proof fn only_what_takes_part_is_opened(round: RoundView, i: nat, now: u64)
    ensures
        round.goes_on(i, now).1 matches RoundStepView::Open(path) ==> {
            let at = round.goes_on(i, now).0.at;
            &&& 0 <= at < round.settings.repositories.len()
            &&& path == round.settings.repositories[at].repository
            &&& round.preview || round.settings.policy_at(at).enabled
            &&& round.selected matches Some(root) ==> components(path) == components(root)
        },
{
    lemma_next_part(round, i);
}

/// A round that previews looks at a repository only to preview, and a round never changes
/// whether it does.
pub proof fn preview_rounds_only_preview(
    round: RoundView,
    event: RoundEvent,
    changed: bool,
    now: u64,
)
    ensures
        round.told(event, changed, now).0.preview == round.preview,
        round.told(event, changed, now).1 matches RoundStepView::Reconcile(engine)
            ==> engine.preview == round.preview,
{
}

/// A repository that fails is left alone until its time has come, whatever happens to its
/// references, unless it is asked for.
pub proof fn failing_repository_waits(round: RoundView, event: RoundEvent, changed: bool, now: u64)
    requires
        event is Opened,
        !round.force,
        0 <= round.at < round.settings.repositories.len(),
        round.settings.repositories[round.at].failures > 0,
        round.started < round.settings.repositories[round.at].next_attempt,
    ensures
        !(round.told(event, changed, now).1 is Reconcile),
{
}

/// A repository takes part in a round where its policy is enabled or the round previews, and
/// where it is the one that was selected or none was.
pub proof fn selected_repositories_take_part(round: RoundView, i: int)
    requires
        0 <= i < round.settings.repositories.len(),
    ensures
        ({
            let registration = round.settings.repositories[i];
            let enabled = match registration.policy {
                Some(policy) => policy.enabled,
                None => round.settings.policy.enabled,
            };
            &&& !enabled && !round.preview ==> !round.part(i)
            &&& (enabled || round.preview) && round.selected is None ==> round.part(i)
            &&& (enabled || round.preview) && round.selected == Some(registration.repository)
                ==> round.part(i)
            &&& (round.selected matches Some(root) && components(root) != components(
                registration.repository,
            )) ==> !round.part(i)
        }),
{
}

/// A round passes no repository over that takes part: it goes to the next one, and reads the
/// settings again only where none is left.
pub proof fn no_repository_is_passed_over(round: RoundView, i: nat, k: int, now: u64)
    requires
        i <= k < round.settings.repositories.len(),
        round.part(k),
    ensures
        round.goes_on(i, now).0.phase == RoundPhase::Opening,
        i <= round.goes_on(i, now).0.at <= k,
        round.goes_on(i, now).0.started == now,
        round.goes_on(i, now).1 == RoundStepView::Open(
            round.settings.repositories[round.goes_on(i, now).0.at].repository,
        ),
        round.part(round.goes_on(i, now).0.at),
    decreases round.settings.repositories.len() - i,
{
    if !round.part(i as int) {
        no_repository_is_passed_over(round, i + 1, k, now);
        assert(round.next_part(i) == round.next_part(i + 1));
    }
}

/// Where no repository is left, the settings are read again.
pub proof fn rounds_end_with_the_settings(round: RoundView, i: nat, now: u64)
    requires
        forall|k: int| i <= k < round.settings.repositories.len() ==> !#[trigger] round.part(k),
    ensures
        round.goes_on(i, now).0.phase == RoundPhase::Rereading,
        round.goes_on(i, now).1 == RoundStepView::Reread,
    decreases round.settings.repositories.len() - i,
{
    if i < round.settings.repositories.len() {
        assert(!round.part(i as int));
        rounds_end_with_the_settings(round, i + 1, now);
        assert(round.next_part(i) == round.next_part(i + 1));
    }
}

/// A repository is looked at where the round was asked for, where its time has come, or where
/// its references changed and it did not fail last time; and not otherwise.
pub proof fn repositories_are_looked_at_when_due(
    round: RoundView,
    opened: (Repository, String),
    changed: bool,
    now: u64,
)
    requires
        round.phase == RoundPhase::Opening,
        0 <= round.at < round.settings.repositories.len(),
    ensures
        ({
            let registration = round.settings.repositories[round.at];
            let next = round.told(RoundEvent::Opened(Ok(opened)), changed, now);
            let asked = next.1 == RoundStepView::Reconcile(
                EngineView {
                    root: opened.0.root@,
                    common: opened.0.common@,
                    policy: match registration.policy {
                        Some(policy) => policy,
                        None => round.settings.policy,
                    },
                    trigger: if changed {
                        "git_references_changed"@
                    } else {
                        round.trigger
                    },
                    preview: round.preview,
                },
            ) && next.0.phase == RoundPhase::Looking && next.0.at == round.at;
            &&& round.force ==> asked
            &&& registration.next_attempt <= round.started ==> asked
            &&& changed && registration.failures == 0 ==> asked
            &&& !round.force && registration.next_attempt > round.started && (!changed
                || registration.failures > 0) ==> !(next.1 is Reconcile)
        }),
{
}

/// A look at a repository sets when it is looked at again: failures are counted and put the
/// next look off, and a look that found everything forgets them.
pub proof fn looks_set_the_next_attempt(
    registration: RegistrationView,
    failed: bool,
    started: u64,
)
    requires
        started <= u64::MAX - 3600,
    ensures
        registration.looked_at(failed, started).repository == registration.repository,
        registration.looked_at(failed, started).policy == registration.policy,
        !failed ==> registration.looked_at(failed, started).failures == 0,
        !failed ==> registration.looked_at(failed, started).next_attempt == started + 300,
        failed && registration.failures < u32::MAX ==> registration.looked_at(
            failed,
            started,
        ).failures == registration.failures + 1,
        failed && registration.failures == 0 ==> registration.looked_at(failed, started).next_attempt
            == started + 60,
        failed && 1 <= registration.failures < 6 ==> registration.looked_at(
            failed,
            started,
        ).next_attempt - started == 2 * pause(registration.failures),
        failed && registration.failures >= 6 ==> registration.looked_at(failed, started).next_attempt
            == started + 3600,
{
}

/// What a look found is added to what the round found before; a look that failed is told of,
/// with the repository's name, and only the repository that was looked at is put off.
pub proof fn looks_are_told_of(
    round: RoundView,
    records: Seq<RecordView>,
    message: Seq<char>,
    other: int,
)
    requires
        0 <= round.at < round.settings.repositories.len(),
        0 <= other < round.settings.repositories.len(),
        other != round.at,
    ensures
        round.looked(Ok(records)).records == round.records + records,
        round.looked(Ok(records)).diagnostics == round.diagnostics,
        round.looked(Ok(records)).settings.repositories[round.at].repository
            == round.settings.repositories[round.at].repository,
        round.looked(Ok(records)).settings.repositories[round.at].failures == 0 <==> !any_offline(
            records,
        ),
        round.looked(Err(message)).records == round.records,
        round.looked(Err(message)).diagnostics == round.diagnostics.push(
            lossy(round.settings.repositories[round.at].repository) + ": "@ + message,
        ),
        round.looked(Err(message)).settings.repositories[round.at].failures > 0,
        round.looked(Ok(records)).settings.repositories[other]
            == round.settings.repositories[other],
        round.looked(Err(message)).settings.repositories[other]
            == round.settings.repositories[other],
        round.looked(Err(message)).settings.policy == round.settings.policy,
        round.looked(Ok(records)).settings.policy == round.settings.policy,
{
}

/// A round ends with what it found and with what went wrong, and where the settings can
/// neither be read nor saved it fails with the reason.
pub proof fn rounds_come_to_what_they_found(
    round: RoundView,
    message: String,
    fresh: Settings,
    changed: bool,
    now: u64,
)
    ensures
        round.told(RoundEvent::Reread(Err(message)), changed, now).1 == RoundStepView::Failed(
            message@,
        ),
        round.told(RoundEvent::Saved(Err(message)), changed, now).1 == RoundStepView::Failed(
            message@,
        ),
        round.told(RoundEvent::Reread(Ok(fresh)), changed, now).1 matches RoundStepView::Save(saved)
            && saved.policy == fresh@.policy && round.told(
            RoundEvent::Reread(Ok(fresh)),
            changed,
            now,
        ).0.settings == saved,
        round.diagnostics.len() == 0 ==> round.told(RoundEvent::Saved(Ok(())), changed, now).1
            == RoundStepView::Done(round.settings, round.records, Ok(())),
        round.diagnostics.len() == 1 ==> round.told(RoundEvent::Saved(Ok(())), changed, now).1
            == RoundStepView::Done(round.settings, round.records, Err(round.diagnostics[0])),
        round.diagnostics.len() == 2 ==> round.told(RoundEvent::Saved(Ok(())), changed, now).1
            == RoundStepView::Done(
            round.settings,
            round.records,
            Err(round.diagnostics[0] + "; "@ + round.diagnostics[1]),
        ),
{
    reveal_with_fuel(joined_texts, 3);
}

/// A round awaits the answer to what it asked for last, and one that has ended awaits none.
pub proof fn rounds_await_their_own_answer(round: Round, event: RoundEvent)
    ensures
        round.phase is Opening ==> (round.awaits(event) <==> event is Opened),
        round.phase is Looking ==> (round.awaits(event) <==> event is Reconciled),
        round.phase is Rereading ==> (round.awaits(event) <==> event is Reread),
        round.phase is Saving ==> (round.awaits(event) <==> event is Saved),
        round.phase is Ended ==> !round.awaits(event),
{
}

} // verus!
