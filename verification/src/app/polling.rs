//! One pass over everything that a server reads from its providers: the operations that
//! have not completed, and the attachments.
use vstd::prelude::*;

use super::attachments::ProviderHost;
use super::operations::{retain_operations, ContinuationUpdate, OperationState, OperationStep};
use super::provider_api::{operations_distinct, RuntimeProviders};
use super::runtime_providers::{drained, ExternalTerminal, PollReport, PollState};
use crate::coven::ContractError;
use crate::runtime_provider::actor::ProviderRuntimeHandle;
use crate::runtime_provider::{
    find_operation, ContractLimits, OperationTicket, ProviderCommand, ProviderConnection,
    ProviderOperation, ProviderOperationResult, ProviderUpdate, SubmitError,
};
use crate::terminal::table::distinct_keys;
use crate::text::same;

verus! {

/// What one look at an attachment has to go by: the operation that was found settled, the
/// terminal model that came with a new stream, the daemon client's verdict on a transcript
/// reply, and whether its contract takes the next command.
pub struct Look<S> {
    pub settled: Option<ProviderOperation>,
    pub session: Option<S>,
    pub verdict: Result<(), ContractError>,
    pub contract_ok: bool,
}

impl<S> Look<S> {
    /// A reply that the daemon client accepts has as many chunks as its contract can count.
    pub open spec fn wf(self) -> bool {
        countable(self.settled, self.verdict)
    }

    /// The operation that `poll` waits for, where this look settles it.
    pub open spec fn answer_to(self, poll: PollState) -> Option<ProviderOperation> {
        match self.settled {
            Some(operation) => if poll.pending == Some(operation.ticket) {
                Some(operation)
            } else {
                None
            },
            None => None,
        }
    }
}

pub open spec fn held<T>(table: Map<Seq<char>, T>, id: Seq<char>) -> Option<T> {
    if table.dom().contains(id) {
        Some(table[id])
    } else {
        None
    }
}

/// What a host holds for one terminal id.
pub struct Place<S> {
    pub terminal: Option<ExternalTerminal>,
    pub runtime: Option<ProviderRuntimeHandle>,
    pub session: Option<S>,
    pub native: bool,
}

impl<S> Place<S> {
    /// Whether there is something to read: a provider, and a terminal bound to an execution.
    pub open spec fn readable(self) -> bool {
        &&& self.runtime is Some
        &&& self.terminal matches Some(terminal)
        &&& terminal.external_binding is Some
    }

    /// Whether the model of a new stream is put in place.
    pub open spec fn takes(self, answer: Option<ProviderOperation>, session: Option<S>) -> bool {
        &&& answer matches Some(operation)
        &&& operation.result is CheckpointAttached
        &&& session is Some
        &&& !self.native
        &&& self.session is None
    }
}

impl<R, S> ProviderHost<R, S> {
    pub open spec fn place(self, id: Seq<char>) -> Place<S> {
        Place {
            terminal: held(self.terminals@, id),
            runtime: held(self.runtimes.external@, id),
            session: held(self.runtimes.external_sessions@, id),
            native: self.runtimes.native(id),
        }
    }

    /// `after` holds the same as this host for every terminal but the one with the given id.
    pub open spec fn same_beside(self, id: Seq<char>, after: Self) -> bool {
        &&& forall|other: Seq<char>| other != id ==> #[trigger] after.place(other) == self.place(
            other,
        )
        &&& self.same_workers(after)
    }

    pub open spec fn same_workers(self, after: Self) -> bool {
        &&& after.runtimes.runtimes == self.runtimes.runtimes
        &&& after.slots == self.slots
        &&& after.generations == self.generations
        &&& after.retention == self.retention
    }
}

pub open spec fn quiet() -> PollReport {
    PollReport { changed: false, persist: false, render: false }
}

impl PollState {
    /// An answer, if there is one, is settled.
    pub open spec fn takes_answer(
        self,
        before: ExternalTerminal,
        runtime: ProviderRuntimeHandle,
        answer: Option<ProviderOperation>,
        in_place: bool,
        verdict: Result<(), ContractError>,
        now: u64,
        poll: PollState,
        shown: ExternalTerminal,
        report: PollReport,
    ) -> bool {
        match answer {
            Some(operation) => self.reports(
                before,
                *runtime.snapshot,
                operation.result,
                in_place,
                verdict,
                now,
                poll,
                shown,
                report,
            ),
            None => poll == self && shown == before && report == quiet(),
        }
    }

    /// `command` is submitted, and what comes of it is recorded.
    pub open spec fn submits(
        self,
        id: Seq<char>,
        before: ExternalTerminal,
        runtime: ProviderRuntimeHandle,
        limits: ContractLimits,
        contract_ok: bool,
        now: u64,
        command: ProviderCommand,
        submitted: Result<OperationTicket, SubmitError>,
        poll: PollState,
        shown: ExternalTerminal,
        after: ProviderRuntimeHandle,
        changed: bool,
    ) -> bool {
        &&& self.next_command(id, before, command)
        &&& runtime.answers(command, limits, contract_ok, submitted, after)
        &&& self.records(before, submitted, *after.snapshot, now, poll, shown, changed)
    }

    /// The next command is submitted, where one is due.
    pub open spec fn reads_on(
        self,
        id: Seq<char>,
        before: ExternalTerminal,
        runtime: ProviderRuntimeHandle,
        limits: ContractLimits,
        contract_ok: bool,
        now: u64,
        poll: PollState,
        shown: ExternalTerminal,
        after: ProviderRuntimeHandle,
        changed: bool,
    ) -> bool {
        if self.reads_now(now) {
            exists|command: ProviderCommand, submitted: Result<OperationTicket, SubmitError>|
                #[trigger] self.submits(
                    id,
                    before,
                    runtime,
                    limits,
                    contract_ok,
                    now,
                    command,
                    submitted,
                    poll,
                    shown,
                    after,
                    changed,
                )
        } else {
            poll == self && shown == before && after == runtime && !changed
        }
    }

    /// An attachment that can be read is looked at: its answer is settled, and the next
    /// command goes out.
    pub open spec fn looked_at<S>(
        self,
        id: Seq<char>,
        before: Place<S>,
        look: Look<S>,
        limits: ContractLimits,
        now: u64,
        poll: PollState,
        after: Place<S>,
        report: PollReport,
    ) -> bool {
        let answer = look.answer_to(self);
        let in_place = before.takes(answer, look.session);
        &&& after.readable()
        &&& after.native == before.native
        &&& after.session == (if in_place {
            look.session
        } else {
            before.session
        })
        &&& exists|
            settled: PollState,
            shown: ExternalTerminal,
            told: PollReport,
            changed: bool,
        |
            #[trigger] self.takes_answer(
                before.terminal->0,
                before.runtime->0,
                answer,
                in_place,
                look.verdict,
                now,
                settled,
                shown,
                told,
            ) && #[trigger] settled.reads_on(
                id,
                shown,
                before.runtime->0,
                limits,
                look.contract_ok,
                now,
                poll,
                after.terminal->0,
                after.runtime->0,
                changed,
            ) && report == (PollReport { changed: told.changed || changed, ..told })
    }

    /// One look at an attachment. What has stopped is left alone, and what can no longer be
    /// read stops.
    pub open spec fn visited<S>(
        self,
        id: Seq<char>,
        before: Place<S>,
        look: Look<S>,
        limits: ContractLimits,
        now: u64,
        poll: PollState,
        after: Place<S>,
        report: PollReport,
    ) -> bool {
        if self.stopped {
            poll == self && after == before && report == quiet()
        } else if !before.readable() {
            poll == (PollState { stopped: true, ..self }) && after == before && report == quiet()
        } else {
            self.looked_at(id, before, look, limits, now, poll, after, report)
        }
    }
}

impl<S> Look<S> {
    fn take_answer(&mut self, pending: Option<OperationTicket>) -> (r: Option<ProviderOperation>)
        ensures
            forall|poll: PollState|
                poll.pending == pending ==> r == #[trigger] old(self).answer_to(poll),
            *final(self) == (Look { settled: final(self).settled, ..*old(self) }),
    {
        let ticket = match pending {
            Some(ticket) => ticket,
            None => {
                return None;
            },
        };
        match self.settled.take() {
            Some(operation) => if operation.ticket == ticket {
                Some(operation)
            } else {
                None
            },
            None => None,
        }
    }
}

impl<R, S> ProviderHost<R, S> {
    /// Put the model of a new stream in place, where an answer brings one.
    fn take_model(
        &mut self,
        terminal_id: &str,
        answer: &Option<ProviderOperation>,
        session: Option<S>,
    ) -> (r: bool)
        requires
            old(self).wf(),
        ensures
            final(self).wf(),
            r == old(self).place(terminal_id@).takes(*answer, session),
            old(self).same_beside(terminal_id@, *final(self)),
            final(self).terminals == old(self).terminals,
            final(self).place(terminal_id@) == (Place {
                session: if r {
                    session
                } else {
                    old(self).place(terminal_id@).session
                },
                ..old(self).place(terminal_id@)
            }),
    {
        let attached: bool = match answer {
            Some(operation) => match &operation.result {
                ProviderOperationResult::CheckpointAttached(_) => true,
                _ => false,
            },
            None => false,
        };
        if !attached {
            return false;
        }
        match session {
            Some(session) => self.runtimes.attach_external_session(
                terminal_id.to_owned(),
                session,
            ).is_ok(),
            None => false,
        }
    }

    fn is_readable(&self, terminal_id: &str) -> (r: bool)
        requires
            self.wf(),
        ensures
            r == self.place(terminal_id@).readable(),
    {
        let bound: bool = match self.terminals.get(terminal_id) {
            Some(terminal) => terminal.external_binding.is_some(),
            None => false,
        };
        bound && self.runtimes.external.contains(terminal_id)
    }
}

impl PollState {
    /// Settle the answer that an attachment waited for, if it has come, and submit the next
    /// command, if it is due.
    fn look_at<R, S>(
        &mut self,
        terminal_id: &str,
        host: &mut ProviderHost<R, S>,
        look: Look<S>,
        limits: ContractLimits,
        now: u64,
    ) -> (r: PollReport)
        requires
            old(host).wf(),
            old(host).place(terminal_id@).readable(),
            look.wf(),
        ensures
            final(host).wf(),
            old(self).looked_at(
                terminal_id@,
                old(host).place(terminal_id@),
                look,
                limits,
                now,
                *final(self),
                final(host).place(terminal_id@),
                r,
            ),
            old(host).same_beside(terminal_id@, *final(host)),
    {
        let mut look = look;
        let ghost given = look;
        let answer = look.take_answer(self.pending);
        let Look { settled: _, session, verdict, contract_ok } = look;
        assert(answer == given.answer_to(*old(self)));
        let in_place: bool = host.take_model(terminal_id, &answer, session);
        let ghost placed = *host;
        let mut terminal = match host.terminals.remove(terminal_id) {
            Some(terminal) => terminal,
            None => {
                return PollReport { changed: false, persist: false, render: false };
            },
        };
        let ghost before = terminal;
        let mut report = PollReport { changed: false, persist: false, render: false };
        if let Some(operation) = &answer {
            let snapshot = match host.runtimes.external(terminal_id) {
                Some(runtime) => runtime.snapshot.clone(),
                None => {
                    return report;
                },
            };
            report = self.settle(&mut terminal, &*snapshot, operation, in_place, verdict, now);
        }
        let ghost settled = *self;
        let ghost shown = terminal;
        let ghost told = report;
        assert(old(self).takes_answer(
            before,
            placed.runtimes.external@[terminal_id@],
            answer,
            in_place,
            verdict,
            now,
            settled,
            shown,
            told,
        ));
        let mut changed: bool = false;
        if let Some(command) = self.due_command(terminal_id, &terminal, now) {
            let ghost sent = command;
            let submitted = host.runtimes.submit(terminal_id, command, limits, contract_ok);
            let snapshot = match host.runtimes.external(terminal_id) {
                Some(runtime) => runtime.snapshot.clone(),
                None => {
                    return report;
                },
            };
            changed = self.record_submission(&mut terminal, submitted, &*snapshot, now);
            assert(settled.submits(
                terminal_id@,
                shown,
                placed.runtimes.external@[terminal_id@],
                limits,
                contract_ok,
                now,
                sent,
                submitted,
                *self,
                terminal,
                host.runtimes.external@[terminal_id@],
                changed,
            ));
        }
        assert(settled.reads_on(
            terminal_id@,
            shown,
            placed.runtimes.external@[terminal_id@],
            limits,
            contract_ok,
            now,
            *self,
            terminal,
            host.runtimes.external@[terminal_id@],
            changed,
        ));
        let ghost last = terminal;
        host.terminals.insert(terminal_id.to_owned(), terminal);
        proof {
            let id = terminal_id@;
            assert forall|other: Seq<char>| other != id implies #[trigger] host.place(other)
                == old(host).place(other) by {
                assert(placed.place(other) == old(host).place(other));
                assert(held(host.terminals@, other) == held(placed.terminals@, other));
                assert(held(host.runtimes.external@, other) == held(
                    placed.runtimes.external@,
                    other,
                ));
            }
            assert(host.place(id).terminal == Some(last));
            assert(host.place(id).runtime == Some(host.runtimes.external@[id]));
            assert(host.place(id).session == placed.place(id).session);
            assert(host.place(id).native == placed.place(id).native);
            assert(old(host).place(id).terminal == Some(before));
            assert(old(host).place(id).runtime == Some(placed.runtimes.external@[id])) by {
                assert(old(host).place(id).runtime == placed.place(id).runtime);
            }
            assert(host.place(id).readable());
            assert(in_place == old(host).place(id).takes(given.answer_to(*old(self)), given.session));
            assert(host.place(id).session == (if in_place { given.session } else { old(host).place(id).session }));
            assert(host.place(id).native == old(host).place(id).native);
            assert(given.verdict == verdict && given.contract_ok == contract_ok);
            assert(old(self).takes_answer(
                old(host).place(id).terminal->0,
                old(host).place(id).runtime->0,
                given.answer_to(*old(self)),
                in_place,
                given.verdict,
                now,
                settled,
                shown,
                told,
            ));
            assert(settled.reads_on(
                id,
                shown,
                old(host).place(id).runtime->0,
                limits,
                given.contract_ok,
                now,
                *self,
                host.place(id).terminal->0,
                host.place(id).runtime->0,
                changed,
            ));
        }
        PollReport { changed: report.changed || changed, persist: report.persist, render: report.render }
    }
}

impl PollState {
    /// One look at an attachment.
    pub fn visit<R, S>(
        &mut self,
        terminal_id: &str,
        host: &mut ProviderHost<R, S>,
        look: Look<S>,
        limits: ContractLimits,
        now: u64,
    ) -> (r: PollReport)
        requires
            old(host).wf(),
            look.wf(),
        ensures
            final(host).wf(),
            old(self).visited(
                terminal_id@,
                old(host).place(terminal_id@),
                look,
                limits,
                now,
                *final(self),
                final(host).place(terminal_id@),
                r,
            ),
            old(host).same_beside(terminal_id@, *final(host)),
    {
        if self.stopped {
            return PollReport { changed: false, persist: false, render: false };
        }
        if !host.is_readable(terminal_id) {
            self.stopped = true;
            return PollReport { changed: false, persist: false, render: false };
        }
        self.look_at(terminal_id, host, look, limits, now)
    }
}

impl PollState {
    /// The notifications of a provider are taken, and `settled` is the operation that this
    /// attachment waited for, if it is among what is known.
    pub open spec fn collected<S>(
        self,
        before: Place<S>,
        after: Place<S>,
        settled: Option<ProviderOperation>,
    ) -> bool {
        if self.stopped || !before.readable() {
            after == before && settled is None
        } else {
            let runtime = before.runtime->0;
            &&& after.terminal == before.terminal
            &&& after.session == before.session
            &&& after.native == before.native
            &&& after.runtime matches Some(taken)
            &&& taken == (ProviderRuntimeHandle { updates: taken.updates, ..runtime })
            &&& taken.updates@ == runtime.updates@.skip(drained(runtime.updates@))
            &&& settled == self.settled_in(
                runtime.updates@.take(drained(runtime.updates@)),
                *runtime.snapshot,
            )
        }
    }

    fn collect<R, S>(&self, terminal_id: &str, host: &mut ProviderHost<R, S>) -> (r: Option<
        ProviderOperation,
    >)
        requires
            old(host).wf(),
        ensures
            final(host).wf(),
            self.collected(
                old(host).place(terminal_id@),
                final(host).place(terminal_id@),
                r,
            ),
            old(host).same_beside(terminal_id@, *final(host)),
    {
        if self.stopped || !host.is_readable(terminal_id) {
            return None;
        }
        match host.runtimes.external.remove(terminal_id) {
            Some(runtime) => {
                let mut runtime = runtime;
                let settled = self.take_settled(&mut runtime);
                let ghost taken = runtime;
                host.runtimes.external.insert(terminal_id.to_owned(), runtime);
                proof {
                    let id = terminal_id@;
                    let external = old(host).runtimes.external@;
                    assert(host.runtimes.external@ =~= external.insert(id, taken));
                    assert(host.runtimes.external@.dom() =~= external.dom());
                    assert forall|other: Seq<char>|
                        #![trigger host.runtimes.native(other)]
                        host.runtimes.native(other) implies !host.runtimes.provided(other)
                        && !host.runtimes.modelled(other) by {
                        assert(old(host).runtimes.native(other));
                    }
                    assert(host.place(id).runtime == Some(taken));
                    assert forall|other: Seq<char>| other != id implies #[trigger] host.place(
                        other,
                    ) == old(host).place(other) by {
                        assert(held(host.runtimes.external@, other) == held(external, other));
                    }
                }
                settled
            },
            None => None,
        }
    }
}

/// The notifications for the polls of `entries` are taken, one by one.
pub open spec fn all_collected<R, S>(
    entries: Seq<(String, PollState)>,
    host: ProviderHost<R, S>,
    after: ProviderHost<R, S>,
    settled: Seq<Option<ProviderOperation>>,
) -> bool {
    &&& settled.len() == entries.len()
    &&& forall|i: int|
        0 <= i < entries.len() ==> (#[trigger] entries[i]).1.collected(
            host.place(entries[i].0@),
            after.place(entries[i].0@),
            settled[i],
        )
    &&& forall|id: Seq<char>|
        (forall|i: int| 0 <= i < entries.len() ==> (#[trigger] entries[i]).0@ != id)
            ==> #[trigger] after.place(id) == host.place(id)
    &&& host.same_workers(after)
}

impl RuntimeProviders {
    /// Take the notifications of every provider that is read, which keeps their queues
    /// bounded, and find the operation that each attachment waits for.
    pub fn collect_settled<R, S>(&self, host: &mut ProviderHost<R, S>) -> (r: Vec<
        Option<ProviderOperation>,
    >)
        requires
            self.wf(),
            old(host).wf(),
        ensures
            final(host).wf(),
            all_collected(self.polls.entries@, *old(host), *final(host), r@),
    {
        let mut settled: Vec<Option<ProviderOperation>> = Vec::new();
        let ghost entries = self.polls.entries@;
        let mut i: usize = 0;
        while i < self.polls.entries.len()
            invariant
                i <= entries.len(),
                entries == self.polls.entries@,
                distinct_keys(entries),
                settled@.len() == i,
                host.wf(),
                old(host).same_workers(*host),
                forall|j: int|
                    0 <= j < i ==> (#[trigger] entries[j]).1.collected(
                        old(host).place(entries[j].0@),
                        host.place(entries[j].0@),
                        settled@[j],
                    ),
                forall|id: Seq<char>|
                    (forall|j: int| 0 <= j < i ==> (#[trigger] entries[j]).0@ != id)
                        ==> #[trigger] host.place(id) == old(host).place(id),
            decreases entries.len() - i,
        {
            let ghost before = *host;
            let ghost earlier = settled@;
            let entry = &self.polls.entries[i];
            let found = entry.1.collect(entry.0.as_str(), host);
            settled.push(found);
            proof {
                let id = entries[i as int].0@;
                assert forall|j: int| 0 <= j < i implies (#[trigger] entries[j]).0@ != id by {
                    assert(entries[i as int].0@ != entries[j].0@);
                }
                assert(before.place(id) == old(host).place(id));
                assert forall|j: int| 0 <= j < i + 1 implies (
                #[trigger] entries[j]).1.collected(
                    old(host).place(entries[j].0@),
                    host.place(entries[j].0@),
                    settled@[j],
                ) by {
                    if j < i {
                        assert(host.place(entries[j].0@) == before.place(entries[j].0@));
                        assert(settled@[j] == earlier[j]);
                    }
                }
                assert forall|k: Seq<char>|
                    (forall|j: int| 0 <= j < i + 1 ==> (#[trigger] entries[j]).0@ != k) implies
                    #[trigger] host.place(k) == old(host).place(k) by {
                    assert(entries[i as int].0@ != k);
                    assert(host.place(k) == before.place(k));
                }
            }
            i = i + 1;
        }
        settled
    }
}

/// The polls of `entries`, each with its look, lead to `after`, one by one.
pub open spec fn all_visited<R, S>(
    entries: Seq<(String, PollState)>,
    host: ProviderHost<R, S>,
    looks: Seq<Look<S>>,
    limits: ContractLimits,
    now: u64,
    after: Seq<(String, PollState)>,
    host_after: ProviderHost<R, S>,
    reports: Seq<PollReport>,
) -> bool {
    &&& after.len() == entries.len()
    &&& reports.len() == entries.len()
    &&& forall|i: int|
        0 <= i < entries.len() ==> (#[trigger] after[i]).0 == entries[i].0 && entries[i].1.visited(
            entries[i].0@,
            host.place(entries[i].0@),
            looks[i],
            limits,
            now,
            after[i].1,
            host_after.place(entries[i].0@),
            reports[i],
        )
    &&& forall|id: Seq<char>|
        (forall|i: int| 0 <= i < entries.len() ==> (#[trigger] entries[i]).0@ != id)
            ==> #[trigger] host_after.place(id) == host.place(id)
    &&& host.same_workers(host_after)
}

/// What a whole pass calls for, given what each look of it calls for.
pub open spec fn joined(reports: Seq<PollReport>, report: PollReport) -> bool {
    &&& report.changed <==> exists|i: int| 0 <= i < reports.len() && (#[trigger] reports[i]).changed
    &&& report.persist <==> exists|i: int| 0 <= i < reports.len() && (#[trigger] reports[i]).persist
    &&& report.render <==> exists|i: int| 0 <= i < reports.len() && (#[trigger] reports[i]).render
}

impl RuntimeProviders {
    /// Look at every attachment. No attachment waits for another, and none fails because
    /// another did.
    pub fn poll_attachments<R, S>(
        &mut self,
        host: &mut ProviderHost<R, S>,
        looks: Vec<Look<S>>,
        limits: ContractLimits,
        now: u64,
    ) -> (r: PollReport)
        requires
            old(self).wf(),
            old(host).wf(),
            looks@.len() == old(self).polls.entries@.len(),
            forall|i: int| 0 <= i < looks@.len() ==> (#[trigger] looks@[i]).wf(),
        ensures
            final(self).wf(),
            final(host).wf(),
            *final(self) == (RuntimeProviders { polls: final(self).polls, ..*old(self) }),
            exists|reports: Seq<PollReport>| #[trigger]
                all_visited(
                    old(self).polls.entries@,
                    *old(host),
                    looks@,
                    limits,
                    now,
                    final(self).polls.entries@,
                    *final(host),
                    reports,
                ) && joined(reports, r),
    {
        let mut looks = looks;
        let ghost given = looks@;
        let ghost entries = self.polls.entries@;
        let ghost n = entries.len();
        let ghost mut reports: Seq<PollReport> = Seq::new(n, |j: int| quiet());
        let mut report = PollReport { changed: false, persist: false, render: false };
        let mut i: usize = self.polls.entries.len();
        while i > 0
            invariant
                i <= n,
                n == entries.len(),
                entries == old(self).polls.entries@,
                distinct_keys(entries),
                given.len() == n,
                forall|j: int| 0 <= j < n ==> (#[trigger] given[j]).wf(),
                looks@ == given.take(i as int),
                host.wf(),
                old(host).same_workers(*host),
                *self == (RuntimeProviders { polls: self.polls, ..*old(self) }),
                self.polls.entries@.len() == n,
                reports.len() == n,
                forall|j: int| 0 <= j < n ==> (#[trigger] self.polls.entries@[j]).0 == entries[j].0,
                forall|j: int| 0 <= j < i ==> (#[trigger] self.polls.entries@[j]) == entries[j],
                forall|j: int|
                    0 <= j < i ==> host.place((#[trigger] entries[j]).0@) == old(host).place(
                        entries[j].0@,
                    ),
                forall|j: int|
                    i <= j < n ==> entries[j].1.visited(
                        entries[j].0@,
                        old(host).place(entries[j].0@),
                        given[j],
                        limits,
                        now,
                        (#[trigger] self.polls.entries@[j]).1,
                        host.place(entries[j].0@),
                        reports[j],
                    ),
                forall|id: Seq<char>|
                    (forall|j: int| 0 <= j < n ==> (#[trigger] entries[j]).0@ != id)
                        ==> #[trigger] host.place(id) == old(host).place(id),
                forall|j: int| 0 <= j < i ==> (#[trigger] reports[j]) == quiet(),
                joined(reports, report),
            decreases i,
        {
            i = i - 1;
            let terminal_id = self.polls.entries[i].0.clone();
            let ghost before = *host;
            let ghost polls = self.polls.entries@;
            let look = match looks.pop() {
                Some(look) => look,
                None => {
                    assert(false);
                    return report;
                },
            };
            assert(look == given[i as int]);
            assert(looks@ =~= given.take(i as int));
            assert(self.polls.entries@[i as int] == entries[i as int]);
            let told = self.polls.entries[i].1.visit(terminal_id.as_str(), host, look, limits, now);
            let ghost so_far = report;
            report = PollReport {
                changed: report.changed || told.changed,
                persist: report.persist || told.persist,
                render: report.render || told.render,
            };
            proof {
                let id = entries[i as int].0@;
                let earlier = reports;
                reports = reports.update(i as int, told);
                assert forall|j: int| i < j < n implies entries[j].1.visited(
                    entries[j].0@,
                    old(host).place(entries[j].0@),
                    given[j],
                    limits,
                    now,
                    (#[trigger] self.polls.entries@[j]).1,
                    host.place(entries[j].0@),
                    reports[j],
                ) by {
                    assert(polls[j] == self.polls.entries@[j]);
                    assert(entries[i as int].0@ != entries[j].0@);
                    assert(host.place(entries[j].0@) == before.place(entries[j].0@));
                }
                assert forall|j: int| 0 <= j < i implies host.place((#[trigger] entries[j]).0@)
                    == old(host).place(entries[j].0@) by {
                    assert(entries[j].0@ != entries[i as int].0@);
                }
                assert forall|k: Seq<char>|
                    (forall|j: int| 0 <= j < n ==> (#[trigger] entries[j]).0@ != k) implies
                    #[trigger] host.place(k) == old(host).place(k) by {
                    assert(entries[i as int].0@ != k);
                }
                lemma_joined(earlier, so_far, i as int, told);
            }
        }
        proof {
            let after = self.polls.entries@;
            assert forall|a: int, b: int| 0 <= a < b < after.len() implies (
            #[trigger] after[a]).0@ != (#[trigger] after[b]).0@ by {
                assert(entries[a].0@ != entries[b].0@);
            }
            assert(all_visited(entries, *old(host), given, limits, now, after, *host, reports));
        }
        report
    }
}

pub open spec fn merged(report: PollReport, told: PollReport) -> PollReport {
    PollReport {
        changed: report.changed || told.changed,
        persist: report.persist || told.persist,
        render: report.render || told.render,
    }
}

proof fn lemma_joined(reports: Seq<PollReport>, report: PollReport, i: int, told: PollReport)
    requires
        0 <= i < reports.len(),
        reports[i] == quiet(),
        joined(reports, report),
    ensures
        joined(reports.update(i, told), merged(report, told)),
{
    let after = reports.update(i, told);
    assert(after[i] == told);
    assert forall|j: int| 0 <= j < after.len() && j != i implies after[j] == reports[j] by {}
    if report.changed {
        let j = choose|j: int| 0 <= j < reports.len() && (#[trigger] reports[j]).changed;
        assert(after[j].changed);
    }
    if report.persist {
        let j = choose|j: int| 0 <= j < reports.len() && (#[trigger] reports[j]).persist;
        assert(after[j].persist);
    }
    if report.render {
        let j = choose|j: int| 0 <= j < reports.len() && (#[trigger] reports[j]).render;
        assert(after[j].render);
    }
}

/// The terminal that moves because of a step, if one does.
pub open spec fn step_update(step: OperationStep) -> Option<ContinuationUpdate> {
    match step {
        OperationStep::Settled { continuation, .. } => continuation,
        _ => None,
    }
}

pub open spec fn step_updates(steps: Seq<OperationStep>) -> Seq<ContinuationUpdate>
    decreases steps.len(),
{
    if steps.len() == 0 {
        Seq::empty()
    } else {
        let rest = step_updates(steps.drop_last());
        match step_update(steps.last()) {
            Some(update) => rest.push(update),
            None => rest,
        }
    }
}

pub open spec fn any_settled(steps: Seq<OperationStep>) -> bool {
    exists|i: int| 0 <= i < steps.len() && (#[trigger] steps[i]) is Settled
}

proof fn lemma_still_distinct(operations: Seq<OperationState>, after: Seq<OperationState>)
    requires
        operations_distinct(operations),
        after.len() == operations.len(),
        forall|i: int|
            0 <= i < operations.len() ==> (#[trigger] after[i]).provider_id
                == operations[i].provider_id && after[i].request_id == operations[i].request_id,
    ensures
        operations_distinct(after),
{
    assert forall|i: int, j: int| 0 <= i < j < after.len() implies !(#[trigger] after[i]).named(
        (#[trigger] after[j]).provider_id@,
        after[j].request_id@,
    ) by {
        assert(!operations[i].named(operations[j].provider_id@, operations[j].request_id@));
    }
}

proof fn lemma_kept_distinct(operations: Seq<OperationState>, keep: spec_fn(OperationState) -> bool)
    requires
        operations_distinct(operations),
    ensures
        operations_distinct(operations.filter(keep)),
        operations.filter(keep).len() <= operations.len(),
        forall|k: int|
            0 <= k < operations.filter(keep).len() ==> exists|i: int|
                0 <= i < operations.len() && (#[trigger] operations[i]) == (
                #[trigger] operations.filter(keep)[k]),
    decreases operations.len(),
{
    reveal(Seq::filter);
    if operations.len() > 0 {
        let head = operations.drop_last();
        let last = operations.last();
        assert(operations_distinct(head)) by {
            assert forall|i: int, j: int| 0 <= i < j < head.len() implies !(
            #[trigger] head[i]).named((#[trigger] head[j]).provider_id@, head[j].request_id@) by {
                assert(head[i] == operations[i] && head[j] == operations[j]);
            }
        }
        lemma_kept_distinct(head, keep);
        let kept = operations.filter(keep);
        let before = head.filter(keep);
        assert forall|k: int| 0 <= k < kept.len() implies exists|i: int|
            0 <= i < operations.len() && (#[trigger] operations[i]) == (#[trigger] kept[k]) by {
            if k < before.len() {
                assert(kept[k] == before[k]);
                let i = choose|i: int| 0 <= i < head.len() && (#[trigger] head[i]) == before[k];
                assert(operations[i] == head[i]);
            } else {
                assert(operations[operations.len() - 1] == kept[k]);
            }
        }
        assert forall|i: int, j: int| 0 <= i < j < kept.len() implies !(#[trigger] kept[i]).named(
            (#[trigger] kept[j]).provider_id@,
            kept[j].request_id@,
        ) by {
            assert(kept[i] == before[i]);
            if j < before.len() {
                assert(kept[j] == before[j]);
            } else {
                let a = choose|a: int| 0 <= a < head.len() && (#[trigger] head[a]) == before[i];
                assert(operations[a] == head[a]);
                assert(operations[operations.len() - 1] == kept[j]);
            }
        }
    }
}

/// How many notifications are taken from the provider of an operation at a time.
pub const OPERATION_UPDATES: usize = 8;

/// The way to the worker that serves one operation and nothing else, where there is one. The
/// daemon client's contract takes a lookup where `contract_ok` says so.
pub struct Line {
    pub worker: Option<ProviderRuntimeHandle>,
    pub contract_ok: bool,
}

impl Line {
    pub open spec fn wf(self) -> bool {
        self.worker matches Some(worker) ==> worker.wf()
    }
}

pub open spec fn lines_wf(lines: Seq<Line>) -> bool {
    forall|i: int| 0 <= i < lines.len() ==> (#[trigger] lines[i]).wf()
}

/// How many of the waiting notifications are taken for an operation.
pub open spec fn taken_for_operation(updates: Seq<ProviderUpdate>) -> int {
    if updates.len() < OPERATION_UPDATES {
        updates.len() as int
    } else {
        OPERATION_UPDATES as int
    }
}

/// `read` is the state of a provider once notifications were taken for an operation.
pub open spec fn read_for_operation(
    handle: ProviderRuntimeHandle,
    read: ProviderRuntimeHandle,
) -> bool {
    &&& read == (ProviderRuntimeHandle { updates: read.updates, ..handle })
    &&& read.updates@ == handle.updates@.skip(taken_for_operation(handle.updates@))
}

impl OperationState {
    /// This operation once its lookup was submitted.
    pub open spec fn looked_up(self, answer: Result<OperationTicket, SubmitError>) -> Self {
        match answer {
            Ok(ticket) => OperationState { ticket, result: None, ..self },
            Err(_) => self,
        }
    }

    /// The provider that this operation was submitted to, as far as it is still there. A
    /// terminal may have another one since.
    pub open spec fn provider<R, S>(self, host: ProviderHost<R, S>, line: Line) -> Option<
        ProviderRuntimeHandle,
    > {
        match self.terminal_id {
            None => line.worker,
            Some(id) => if host.runtimes.provided(id@)
                && host.runtimes.external@[id@].runtime_generation == self.runtime_generation {
                Some(host.runtimes.external@[id@])
            } else {
                None
            },
        }
    }

    /// What follows on a step of this operation, at its provider: a lookup is submitted, and a
    /// worker that only served an operation which has completed is stopped.
    pub open spec fn acts_on(
        self,
        step: OperationStep,
        read: ProviderRuntimeHandle,
        limits: ContractLimits,
        contract_ok: bool,
        answer: Result<OperationTicket, SubmitError>,
        after: Self,
        left: ProviderRuntimeHandle,
        asked: bool,
    ) -> bool {
        match step {
            OperationStep::Lookup(command) => {
                &&& read.answers(command, limits, contract_ok, answer, left)
                &&& after == self.looked_up(answer)
                &&& asked == (answer is Ok)
            },
            OperationStep::Settled { stop_runtime, .. } => {
                &&& after == self && !asked
                &&& if stop_runtime {
                    read.shuts_down(left)
                } else {
                    left == read
                }
            },
            OperationStep::Wait => after == self && !asked && left == read,
        }
    }

    /// One look at this operation at its provider: notifications are taken, what the snapshot
    /// retains of the ticket decides on the step, and what follows on it is done.
    pub open spec fn pursues(
        self,
        handle: ProviderRuntimeHandle,
        limits: ContractLimits,
        contract_ok: bool,
        now: u64,
        read: ProviderRuntimeHandle,
        stepped: Self,
        answer: Result<OperationTicket, SubmitError>,
        after: Self,
        left: ProviderRuntimeHandle,
        step: OperationStep,
        asked: bool,
    ) -> bool {
        &&& read_for_operation(handle, read)
        &&& self.steps(
            find_operation(read.snapshot.retained_operations@, self.ticket, 0),
            now,
            stepped,
            step,
        )
        &&& stepped.acts_on(step, read, limits, contract_ok, answer, after, left, asked)
    }

    /// `host_after` and `line_after` hold `left` as the provider of this operation, and else
    /// what was there.
    pub open spec fn leaves<R, S>(
        self,
        host: ProviderHost<R, S>,
        line: Line,
        left: ProviderRuntimeHandle,
        host_after: ProviderHost<R, S>,
        line_after: Line,
    ) -> bool {
        match self.terminal_id {
            None => host_after == host && line_after == (Line { worker: Some(left), ..line }),
            Some(id) => {
                &&& line_after == line
                &&& host_after == (ProviderHost { runtimes: host_after.runtimes, ..host })
                &&& host_after.runtimes.runtimes == host.runtimes.runtimes
                &&& host_after.runtimes.external_sessions == host.runtimes.external_sessions
                &&& host_after.runtimes.external@ == host.runtimes.external@.insert(id@, left)
            },
        }
    }

    /// One look at this operation. One that has completed is left alone. Where its provider is
    /// gone, a lookup is called for that nobody can be asked.
    pub open spec fn pursued<R, S>(
        self,
        host: ProviderHost<R, S>,
        line: Line,
        limits: ContractLimits,
        now: u64,
        after: Self,
        host_after: ProviderHost<R, S>,
        line_after: Line,
        step: OperationStep,
        asked: bool,
    ) -> bool {
        if self.completed_at is Some {
            after == self && host_after == host && line_after == line && step is Wait && !asked
        } else {
            match self.provider(host, line) {
                None => {
                    &&& after == self && host_after == host && line_after == line && !asked
                    &&& step == OperationStep::Lookup(self.lookup())
                },
                Some(handle) => exists|
                    read: ProviderRuntimeHandle,
                    stepped: Self,
                    answer: Result<OperationTicket, SubmitError>,
                    left: ProviderRuntimeHandle,
                | #[trigger]
                    self.pursues(
                        handle,
                        limits,
                        line.contract_ok,
                        now,
                        read,
                        stepped,
                        answer,
                        after,
                        left,
                        step,
                        asked,
                    ) && self.leaves(host, line, left, host_after, line_after),
            }
        }
    }
}

/// What one look at an operation calls for.
struct Pursuit {
    settled: bool,
    asked: bool,
    continuation: Option<ContinuationUpdate>,
}

impl Pursuit {
    spec fn tells(self, step: OperationStep, asked: bool) -> bool {
        &&& self.settled == (step is Settled)
        &&& self.asked == asked
        &&& self.continuation == step_update(step)
    }
}

impl OperationState {
    fn pursue_at(
        &mut self,
        handle: &mut ProviderRuntimeHandle,
        limits: ContractLimits,
        contract_ok: bool,
        now: u64,
    ) -> (r: Pursuit)
        requires
            old(handle).wf(),
        ensures
            final(handle).wf(),
            final(handle).runtime_generation == old(handle).runtime_generation,
            exists|
                read: ProviderRuntimeHandle,
                stepped: OperationState,
                answer: Result<OperationTicket, SubmitError>,
                step: OperationStep,
            | #[trigger]
                old(self).pursues(
                    *old(handle),
                    limits,
                    contract_ok,
                    now,
                    read,
                    stepped,
                    answer,
                    *final(self),
                    *final(handle),
                    step,
                    r.asked,
                ) && r.tells(step, r.asked),
    {
        let updates = handle.try_drain_updates(OPERATION_UPDATES);
        let ghost read = *handle;
        proof {
            let all = old(handle).updates@;
            assert(read.updates@ =~= all.skip(updates@.len() as int));
        }
        let known = handle.snapshot.operation_result(self.ticket);
        let step = self.poll(known, now);
        let ghost stepped = *self;
        let ghost taken = step;
        let mut answer: Result<OperationTicket, SubmitError> = Err(SubmitError::Busy);
        let r = match step {
            OperationStep::Wait => Pursuit { settled: false, asked: false, continuation: None },
            OperationStep::Lookup(command) => {
                answer = handle.submit(command, limits, contract_ok);
                let asked: bool = self.record_lookup(answer);
                Pursuit { settled: false, asked, continuation: None }
            },
            OperationStep::Settled { stop_runtime, continuation } => {
                if stop_runtime {
                    handle.shutdown();
                }
                Pursuit { settled: true, asked: false, continuation }
            },
        };
        assert(old(self).pursues(
            *old(handle),
            limits,
            contract_ok,
            now,
            read,
            stepped,
            answer,
            *self,
            *handle,
            taken,
            r.asked,
        ) && r.tells(taken, r.asked));
        r
    }

    fn pursue<R, S>(
        &mut self,
        host: &mut ProviderHost<R, S>,
        line: &mut Line,
        limits: ContractLimits,
        now: u64,
    ) -> (r: Pursuit)
        requires
            old(host).wf(),
            old(line).wf(),
        ensures
            final(host).wf(),
            final(line).wf(),
            exists|step: OperationStep| #[trigger]
                old(self).pursued(
                    *old(host),
                    *old(line),
                    limits,
                    now,
                    *final(self),
                    *final(host),
                    *final(line),
                    step,
                    r.asked,
                ) && r.tells(step, r.asked),
    {
        if self.completed_at.is_some() {
            let r = Pursuit { settled: false, asked: false, continuation: None };
            assert(old(self).pursued(
                *old(host),
                *old(line),
                limits,
                now,
                *self,
                *host,
                *line,
                OperationStep::Wait,
                r.asked,
            ) && r.tells(OperationStep::Wait, r.asked));
            return r;
        }
        let nobody = Pursuit { settled: false, asked: false, continuation: None };
        let ghost alone = OperationStep::Lookup(old(self).lookup());
        assert(nobody.tells(alone, nobody.asked));
        let terminal_id = match &self.terminal_id {
            Some(id) => id.clone(),
            None => {
                let worker = match line.worker.take() {
                    Some(worker) => worker,
                    None => {
                        assert(old(self).pursued(
                            *old(host),
                            *old(line),
                            limits,
                            now,
                            *self,
                            *host,
                            *line,
                            alone,
                            nobody.asked,
                        ) && nobody.tells(alone, nobody.asked));
                        return nobody;
                    },
                };
                let mut worker = worker;
                let ghost handle = worker;
                let r = self.pursue_at(&mut worker, limits, line.contract_ok, now);
                let ghost left = worker;
                line.worker = Some(worker);
                proof {
                    let (read, stepped, answer, step) = choose|
                        read: ProviderRuntimeHandle,
                        stepped: OperationState,
                        answer: Result<OperationTicket, SubmitError>,
                        step: OperationStep,
                    | #[trigger]
                        old(self).pursues(
                            handle,
                            limits,
                            line.contract_ok,
                            now,
                            read,
                            stepped,
                            answer,
                            *self,
                            left,
                            step,
                            r.asked,
                        ) && r.tells(step, r.asked);
                    assert(old(self).pursues(
                        handle,
                        limits,
                        line.contract_ok,
                        now,
                        read,
                        stepped,
                        answer,
                        *self,
                        left,
                        step,
                        r.asked,
                    ) && old(self).leaves(*old(host), *old(line), left, *host, *line));
                    assert(old(self).pursued(
                        *old(host),
                        *old(line),
                        limits,
                        now,
                        *self,
                        *host,
                        *line,
                        step,
                        r.asked,
                    ) && r.tells(step, r.asked));
                }
                return r;
            },
        };
        let ghost id = terminal_id@;
        let there: bool = match host.runtimes.external(terminal_id.as_str()) {
            Some(handle) => handle.runtime_generation == self.runtime_generation,
            None => false,
        };
        if !there {
            assert(old(self).pursued(
                *old(host),
                *old(line),
                limits,
                now,
                *self,
                *host,
                *line,
                alone,
                nobody.asked,
            ) && nobody.tells(alone, nobody.asked));
            return nobody;
        }
        let mut handle = match host.runtimes.external.remove(terminal_id.as_str()) {
            Some(handle) => handle,
            None => {
                assert(false);
                return nobody;
            },
        };
        let ghost given = handle;
        let r = self.pursue_at(&mut handle, limits, line.contract_ok, now);
        let ghost left = handle;
        host.runtimes.external.insert(terminal_id, handle);
        proof {
            let external = old(host).runtimes.external@;
            assert(host.runtimes.external@ =~= external.insert(id, left));
            assert(host.runtimes.external@.dom() =~= external.dom());
            assert forall|other: Seq<char>|
                #![trigger host.runtimes.native(other)]
                host.runtimes.native(other) implies !host.runtimes.provided(other)
                && !host.runtimes.modelled(other) by {
                assert(old(host).runtimes.native(other));
            }
            let (read, stepped, answer, step) = choose|
                read: ProviderRuntimeHandle,
                stepped: OperationState,
                answer: Result<OperationTicket, SubmitError>,
                step: OperationStep,
            | #[trigger]
                old(self).pursues(
                    given,
                    limits,
                    line.contract_ok,
                    now,
                    read,
                    stepped,
                    answer,
                    *self,
                    left,
                    step,
                    r.asked,
                ) && r.tells(step, r.asked);
            assert(old(self).pursues(
                given,
                limits,
                line.contract_ok,
                now,
                read,
                stepped,
                answer,
                *self,
                left,
                step,
                r.asked,
            ) && old(self).leaves(*old(host), *old(line), left, *host, *line));
            assert(old(self).pursued(
                *old(host),
                *old(line),
                limits,
                now,
                *self,
                *host,
                *line,
                step,
                r.asked,
            ) && r.tells(step, r.asked));
        }
        r
    }
}

/// The operations are looked at, one after the other. `hosts` holds the host before each of
/// them and after the last, and `asked` says which lookups were taken.
pub open spec fn all_pursued<R, S>(
    operations: Seq<OperationState>,
    lines: Seq<Line>,
    limits: ContractLimits,
    now: u64,
    after: Seq<OperationState>,
    lines_after: Seq<Line>,
    hosts: Seq<ProviderHost<R, S>>,
    steps: Seq<OperationStep>,
    asked: Seq<bool>,
) -> bool {
    &&& after.len() == operations.len()
    &&& lines_after.len() == operations.len()
    &&& steps.len() == operations.len()
    &&& asked.len() == operations.len()
    &&& hosts.len() == operations.len() + 1
    &&& forall|i: int|
        0 <= i < operations.len() ==> (#[trigger] operations[i]).pursued(
            hosts[i],
            lines[i],
            limits,
            now,
            after[i],
            hosts[i + 1],
            lines_after[i],
            steps[i],
            asked[i],
        )
}

/// Whether one of several things happened.
pub open spec fn any_true(flags: Seq<bool>) -> bool {
    exists|i: int| 0 <= i < flags.len() && #[trigger] flags[i]
}

proof fn lemma_any_true(flags: Seq<bool>, flag: bool)
    ensures
        any_true(flags.push(flag)) == (any_true(flags) || flag),
{
    let longer = flags.push(flag);
    if any_true(flags) {
        let j = choose|j: int| 0 <= j < flags.len() && #[trigger] flags[j];
        assert(longer[j]);
    }
    if flag {
        assert(longer[flags.len() as int]);
    }
    if any_true(longer) && !flag {
        let j = choose|j: int| 0 <= j < longer.len() && #[trigger] longer[j];
        assert(flags[j]);
    }
}

/// What looking at all operations calls for.
struct Pursuits {
    updates: Vec<ContinuationUpdate>,
    settled: bool,
    asked: bool,
}

impl Pursuits {
    spec fn tells(self, steps: Seq<OperationStep>, asked: Seq<bool>) -> bool {
        &&& self.updates@ == step_updates(steps)
        &&& self.settled == any_settled(steps)
        &&& self.asked == any_true(asked)
    }
}

proof fn lemma_any_settled(steps: Seq<OperationStep>, step: OperationStep)
    ensures
        any_settled(steps.push(step)) == (any_settled(steps) || step is Settled),
{
    let longer = steps.push(step);
    if any_settled(steps) {
        let j = choose|j: int| 0 <= j < steps.len() && (#[trigger] steps[j]) is Settled;
        assert(longer[j] is Settled);
    }
    if step is Settled {
        assert(longer[steps.len() as int] is Settled);
    }
    if any_settled(longer) && !(step is Settled) {
        let j = choose|j: int| 0 <= j < longer.len() && (#[trigger] longer[j]) is Settled;
        assert(steps[j] is Settled);
    }
}

impl RuntimeProviders {
    /// Look at every operation that has not completed.
    fn pursue_operations<R, S>(
        &mut self,
        host: &mut ProviderHost<R, S>,
        lines: &mut Vec<Line>,
        limits: ContractLimits,
        now: u64,
    ) -> (r: Pursuits)
        requires
            old(self).wf(),
            old(host).wf(),
            old(lines)@.len() == old(self).operations@.len(),
            lines_wf(old(lines)@),
        ensures
            final(self).wf(),
            final(host).wf(),
            lines_wf(final(lines)@),
            *final(self) == (RuntimeProviders { operations: final(self).operations, ..*old(self) }),
            exists|
                hosts: Seq<ProviderHost<R, S>>,
                steps: Seq<OperationStep>,
                asked: Seq<bool>,
            | #[trigger]
                all_pursued(
                    old(self).operations@,
                    old(lines)@,
                    limits,
                    now,
                    final(self).operations@,
                    final(lines)@,
                    hosts,
                    steps,
                    asked,
                ) && hosts[0] == *old(host) && hosts.last() == *final(host) && r.tells(
                    steps,
                    asked,
                ),
    {
        let ghost operations = self.operations@;
        let ghost before = lines@;
        let ghost n = operations.len();
        let ghost mut hosts: Seq<ProviderHost<R, S>> = seq![*host];
        let ghost mut steps: Seq<OperationStep> = Seq::empty();
        let ghost mut asked: Seq<bool> = Seq::empty();
        let mut updates: Vec<ContinuationUpdate> = Vec::new();
        let mut any_done: bool = false;
        let mut any_asked: bool = false;
        let mut i: usize = 0;
        while i < self.operations.len()
            invariant
                i <= n,
                n == operations.len(),
                operations == old(self).operations@,
                before == old(lines)@,
                before.len() == n,
                self.operations@.len() == n,
                lines@.len() == n,
                lines_wf(lines@),
                host.wf(),
                *self == (RuntimeProviders { operations: self.operations, ..*old(self) }),
                hosts.len() == i + 1,
                steps.len() == i,
                asked.len() == i,
                hosts[0] == *old(host),
                hosts.last() == *host,
                forall|j: int| i <= j < n ==> (#[trigger] self.operations@[j]) == operations[j],
                forall|j: int| i <= j < n ==> (#[trigger] lines@[j]) == before[j],
                forall|j: int|
                    0 <= j < i ==> (#[trigger] operations[j]).pursued(
                        hosts[j],
                        before[j],
                        limits,
                        now,
                        self.operations@[j],
                        hosts[j + 1],
                        lines@[j],
                        steps[j],
                        asked[j],
                    ),
                updates@ == step_updates(steps),
                any_done == any_settled(steps),
                any_asked == any_true(asked),
            decreases n - i,
        {
            let ghost earlier = self.operations@;
            let ghost lines_before = lines@;
            let ghost host_before = *host;
            let pursuit = self.operations[i].pursue(host, &mut lines[i], limits, now);
            let ghost so_far = steps;
            let ghost told = pursuit;
            proof {
                assert(earlier[i as int] == operations[i as int]);
                assert(lines_before[i as int] == before[i as int]);
                let step = choose|step: OperationStep| #[trigger]
                    operations[i as int].pursued(
                        host_before,
                        before[i as int],
                        limits,
                        now,
                        self.operations@[i as int],
                        *host,
                        lines@[i as int],
                        step,
                        told.asked,
                    ) && told.tells(step, told.asked);
                lemma_any_true(asked, told.asked);
                lemma_any_settled(steps, step);
                let next_hosts = hosts.push(*host);
                let next_steps = steps.push(step);
                let next_asked = asked.push(told.asked);
                assert forall|j: int| 0 <= j < i + 1 implies (#[trigger] operations[j]).pursued(
                    next_hosts[j],
                    before[j],
                    limits,
                    now,
                    self.operations@[j],
                    next_hosts[j + 1],
                    lines@[j],
                    next_steps[j],
                    next_asked[j],
                ) by {
                    if j < i {
                        assert(self.operations@[j] == earlier[j]);
                        assert(lines@[j] == lines_before[j]);
                    }
                }
                assert(next_steps.drop_last() =~= steps);
                hosts = next_hosts;
                steps = next_steps;
                asked = next_asked;
            }
            let Pursuit { settled, asked: taken, continuation } = pursuit;
            any_done = any_done || settled;
            any_asked = any_asked || taken;
            if let Some(update) = continuation {
                updates.push(update);
            }
            assert(updates@ =~= step_updates(steps));
            i = i + 1;
        }
        proof {
            assert forall|j: int| 0 <= j < n implies (
            #[trigger] self.operations@[j]).provider_id == operations[j].provider_id
                && self.operations@[j].request_id == operations[j].request_id by {
                assert(operations[j].pursued(
                    hosts[j],
                    before[j],
                    limits,
                    now,
                    self.operations@[j],
                    hosts[j + 1],
                    lines@[j],
                    steps[j],
                    asked[j],
                ));
            }
            lemma_still_distinct(operations, self.operations@);
        }
        let r = Pursuits { updates, settled: any_done, asked: any_asked };
        assert(all_pursued(
            operations,
            before,
            limits,
            now,
            self.operations@,
            lines@,
            hosts,
            steps,
            asked,
        ) && hosts[0] == *old(host) && hosts.last() == *host && r.tells(steps, asked));
        r
    }
}

/// Each update leads from one state to the next, and `moves` says which moved a terminal.
pub open spec fn linked<R, S>(
    states: Seq<RuntimeProviders>,
    hosts: Seq<ProviderHost<R, S>>,
    moves: Seq<bool>,
    updates: Seq<ContinuationUpdate>,
    now: u64,
) -> bool {
    &&& moves.len() == updates.len()
    &&& states.len() == updates.len() + 1
    &&& hosts.len() == updates.len() + 1
    &&& forall|i: int|
        0 <= i < updates.len() ==> (#[trigger] states[i]).continued(
            hosts[i],
            updates[i],
            now,
            states[i + 1],
            hosts[i + 1],
            moves[i],
        )
}

impl RuntimeProviders {
    /// Whether the transcript of a terminal is being read.
    pub open spec fn reads_transcript(self, id: Seq<char>) -> bool {
        held(self.polls@, id) matches Some(poll) && poll.transcript
    }

    /// A terminal that still shows the parent moves to the child, and is read anew.
    pub open spec fn continued<R, S>(
        self,
        host: ProviderHost<R, S>,
        update: ContinuationUpdate,
        now: u64,
        after: Self,
        host_after: ProviderHost<R, S>,
        moved: bool,
    ) -> bool {
        let id = update.terminal_id@;
        &&& host.same_beside(id, host_after)
        &&& host_after.place(id) == (Place {
            terminal: host_after.place(id).terminal,
            ..host.place(id)
        })
        &&& match host.place(id).terminal {
            Some(before) => {
                &&& host_after.place(id).terminal matches Some(shown)
                &&& update.carries(before, self.reads_transcript(id), shown, moved)
            },
            None => !moved && host_after.place(id).terminal is None,
        }
        &&& after == (RuntimeProviders { polls: after.polls, ..self })
        &&& after.polls.entries@.len() == self.polls.entries@.len()
        &&& forall|i: int|
            0 <= i < self.polls.entries@.len() ==> (#[trigger] after.polls.entries@[i]) == (
            self.polls.entries@[i].0,
            if moved && self.polls.entries@[i].0@ == id {
                self.polls.entries@[i].1.restarted(now)
            } else {
                self.polls.entries@[i].1
            },
            )
    }

    /// The updates are applied in order. `moved` says whether one of them moved a terminal.
    pub open spec fn all_continued<R, S>(
        self,
        host: ProviderHost<R, S>,
        updates: Seq<ContinuationUpdate>,
        now: u64,
        after: Self,
        host_after: ProviderHost<R, S>,
        moved: bool,
    ) -> bool {
        exists|states: Seq<Self>, hosts: Seq<ProviderHost<R, S>>, moves: Seq<bool>| #[trigger]
            linked(states, hosts, moves, updates, now) && states[0] == self && hosts[0] == host
                && states.last() == after && hosts.last() == host_after && moved == any_true(
                moves,
            )
    }

    fn continue_terminal<R, S>(
        &mut self,
        host: &mut ProviderHost<R, S>,
        update: ContinuationUpdate,
        now: u64,
    ) -> (r: bool)
        requires
            old(self).wf(),
            old(host).wf(),
        ensures
            final(self).wf(),
            final(host).wf(),
            old(self).continued(*old(host), update, now, *final(self), *final(host), r),
    {
        let terminal_id = update.terminal_id.clone();
        let ghost id = terminal_id@;
        let mut terminal = match host.terminals.remove(terminal_id.as_str()) {
            Some(terminal) => terminal,
            None => {
                assert(host.terminals@ == old(host).terminals@);
                return false;
            },
        };
        let reads: bool = match self.polls.get(terminal_id.as_str()) {
            Some(poll) => poll.transcript,
            None => false,
        };
        let moved: bool = update.apply(&mut terminal, reads);
        let ghost shown = terminal;
        host.terminals.insert(terminal_id.clone(), terminal);
        proof {
            assert(host.place(id).terminal == Some(shown));
            assert forall|other: Seq<char>| other != id implies #[trigger] host.place(other)
                == old(host).place(other) by {
                assert(held(host.terminals@, other) == held(old(host).terminals@, other));
            }
        }
        if !moved {
            return false;
        }
        let ghost entries = self.polls.entries@;
        let mut i: usize = 0;
        while i < self.polls.entries.len()
            invariant
                i <= entries.len(),
                id == terminal_id@,
                entries == old(self).polls.entries@,
                self.polls.entries@.len() == entries.len(),
                *self == (RuntimeProviders { polls: self.polls, ..*old(self) }),
                forall|j: int|
                    i <= j < entries.len() ==> (#[trigger] self.polls.entries@[j]) == entries[j],
                forall|j: int|
                    0 <= j < i ==> (#[trigger] self.polls.entries@[j]) == (
                    entries[j].0,
                    if entries[j].0@ == id {
                        entries[j].1.restarted(now)
                    } else {
                        entries[j].1
                    },
                    ),
            decreases entries.len() - i,
        {
            assert(self.polls.entries@[i as int] == entries[i as int]);
            if same(self.polls.entries[i].0.as_str(), terminal_id.as_str()) {
                self.polls.entries[i].1.restart(now);
            }
            i = i + 1;
        }
        proof {
            let after = self.polls.entries@;
            assert forall|a: int, b: int| 0 <= a < b < after.len() implies (
            #[trigger] after[a]).0@ != (#[trigger] after[b]).0@ by {
                assert(entries[a].0@ != entries[b].0@);
            }
        }
        true
    }

    fn continue_terminals<R, S>(
        &mut self,
        host: &mut ProviderHost<R, S>,
        updates: Vec<ContinuationUpdate>,
        now: u64,
    ) -> (r: bool)
        requires
            old(self).wf(),
            old(host).wf(),
        ensures
            final(self).wf(),
            final(host).wf(),
            old(self).all_continued(*old(host), updates@, now, *final(self), *final(host), r),
            final(self).polls.entries@.len() == old(self).polls.entries@.len(),
    {
        let mut updates = updates;
        let ghost given = updates@;
        let ghost mut states: Seq<RuntimeProviders> = seq![*self];
        let ghost mut hosts: Seq<ProviderHost<R, S>> = seq![*host];
        let ghost mut moves: Seq<bool> = Seq::empty();
        let mut moved: bool = false;
        while updates.len() > 0
            invariant
                self.wf(),
                host.wf(),
                moves.len() + updates@.len() == given.len(),
                updates@ == given.skip(moves.len() as int),
                linked(states, hosts, moves, given.take(moves.len() as int), now),
                states[0] == *old(self),
                hosts[0] == *old(host),
                states.last() == *self,
                hosts.last() == *host,
                moved == any_true(moves),
                self.polls.entries@.len() == old(self).polls.entries@.len(),
            decreases updates@.len(),
        {
            let ghost before = *self;
            let ghost host_before = *host;
            let update = updates.remove(0);
            let here: bool = self.continue_terminal(host, update, now);
            proof {
                let k = moves.len() as int;
                assert(update == given[k]);
                let next_states = states.push(*self);
                let next_hosts = hosts.push(*host);
                let next_moves = moves.push(here);
                assert(updates@ =~= given.skip(k + 1));
                assert forall|j: int| 0 <= j < next_moves.len() implies (
                #[trigger] next_states[j]).continued(
                    next_hosts[j],
                    given.take(k + 1)[j],
                    now,
                    next_states[j + 1],
                    next_hosts[j + 1],
                    next_moves[j],
                ) by {
                    if j < k {
                        assert(states[j].continued(
                            hosts[j],
                            given.take(k)[j],
                            now,
                            states[j + 1],
                            hosts[j + 1],
                            moves[j],
                        ));
                    }
                }
                lemma_any_true(moves, here);
                states = next_states;
                hosts = next_hosts;
                moves = next_moves;
            }
            moved = moved || here;
        }
        assert(given.take(moves.len() as int) =~= given);
        moved
    }
}

/// What came of looking at the operations.
#[derive(Clone, Copy, Debug, PartialEq, Eq, Structural)]
pub struct OperationsPolled {
    /// An operation has completed, a lookup was taken, or a terminal has moved.
    pub changed: bool,
    /// A terminal has moved: the session is saved and everything is drawn anew.
    pub moved: bool,
}

/// The states that one look at all operations goes through: once each was looked at, and once
/// the terminals have moved.
pub ghost struct OperationsTrace<R, S> {
    pub pursued: RuntimeProviders,
    pub steps: Seq<OperationStep>,
    pub hosts: Seq<ProviderHost<R, S>>,
    pub asked: Seq<bool>,
    pub continued: RuntimeProviders,
}

impl RuntimeProviders {
    /// The operations are looked at, terminals move to the executions that continue theirs,
    /// and records that are no longer kept are dropped.
    pub open spec fn operations_polled<R, S>(
        self,
        host: ProviderHost<R, S>,
        lines: Seq<Line>,
        limits: ContractLimits,
        now: u64,
        trace: OperationsTrace<R, S>,
        after: Self,
        lines_after: Seq<Line>,
        host_after: ProviderHost<R, S>,
        polled: OperationsPolled,
    ) -> bool {
        &&& trace.pursued == (RuntimeProviders { operations: trace.pursued.operations, ..self })
        &&& all_pursued(
            self.operations@,
            lines,
            limits,
            now,
            trace.pursued.operations@,
            lines_after,
            trace.hosts,
            trace.steps,
            trace.asked,
        )
        &&& trace.hosts[0] == host
        &&& trace.pursued.all_continued(
            trace.hosts.last(),
            step_updates(trace.steps),
            now,
            trace.continued,
            host_after,
            polled.moved,
        )
        &&& polled.changed == (any_settled(trace.steps) || any_true(trace.asked) || polled.moved)
        &&& after.operations@ == trace.continued.operations@.filter(
            |o: OperationState| o.kept(now),
        )
        &&& after == (RuntimeProviders {
            operations: after.operations,
            deadline: after.deadline,
            ..trace.continued
        })
        &&& after.scheduled(now)
    }

    /// Bring the operations up to date without waiting for any provider. `lines` is the way to
    /// the worker of each operation that has one of its own; the others are followed at the
    /// provider of their terminal, as long as it is the one they were submitted to.
    pub fn poll_execution_operations<R, S>(
        &mut self,
        host: &mut ProviderHost<R, S>,
        lines: &mut Vec<Line>,
        limits: ContractLimits,
        now: u64,
    ) -> (r: OperationsPolled)
        requires
            old(self).wf(),
            old(host).wf(),
            old(lines)@.len() == old(self).operations@.len(),
            lines_wf(old(lines)@),
        ensures
            final(self).wf(),
            final(host).wf(),
            final(self).polls.entries@.len() == old(self).polls.entries@.len(),
            final(lines)@.len() == old(lines)@.len(),
            lines_wf(final(lines)@),
            exists|trace: OperationsTrace<R, S>| #[trigger]
                old(self).operations_polled(
                    *old(host),
                    old(lines)@,
                    limits,
                    now,
                    trace,
                    *final(self),
                    final(lines)@,
                    *final(host),
                    r,
                ),
    {
        let pursuits = self.pursue_operations(host, lines, limits, now);
        let ghost pursued = *self;
        let ghost told = pursuits;
        let ghost (hosts, steps, flags) = choose|
            hosts: Seq<ProviderHost<R, S>>,
            steps: Seq<OperationStep>,
            flags: Seq<bool>,
        | #[trigger]
            all_pursued(
                old(self).operations@,
                old(lines)@,
                limits,
                now,
                pursued.operations@,
                lines@,
                hosts,
                steps,
                flags,
            ) && hosts[0] == *old(host) && hosts.last() == *host && told.tells(steps, flags);
        let Pursuits { updates, settled, asked } = pursuits;
        let moved: bool = self.continue_terminals(host, updates, now);
        let ghost continued = *self;
        retain_operations(&mut self.operations, now);
        proof {
            lemma_kept_distinct(continued.operations@, |o: OperationState| o.kept(now));
        }
        self.refresh_deadline(now);
        let polled = OperationsPolled { changed: settled || asked || moved, moved };
        assert(old(self).operations_polled(
            *old(host),
            old(lines)@,
            limits,
            now,
            (OperationsTrace { pursued, steps, hosts, asked: flags, continued }),
            *self,
            lines@,
            *host,
            polled,
        ));
        polled
    }
}

/// What the daemon client and the program around say of an attachment that is looked at: the
/// terminal model that came with a new stream, the verdict on a transcript reply, and whether
/// the contract takes the next command.
pub struct Judgement<S> {
    pub session: Option<S>,
    pub verdict: Result<(), ContractError>,
    pub contract_ok: bool,
}

impl<S> Look<S> {
    /// What was said of the attachment.
    pub open spec fn judgement(self) -> Judgement<S> {
        Judgement {
            session: self.session,
            verdict: self.verdict,
            contract_ok: self.contract_ok,
        }
    }
}

/// A reply that the daemon client accepts has as many chunks as its contract can count.
pub open spec fn countable(
    settled: Option<ProviderOperation>,
    verdict: Result<(), ContractError>,
) -> bool {
    verdict is Ok ==> (settled matches Some(operation) ==> (
    operation.result matches ProviderOperationResult::Transcript(reply) ==> reply.chunks().len()
        <= u16::MAX))
}

/// `judge` is asked of each attachment with the operation that was found settled, and `looks`
/// hold what it says.
pub open spec fn all_judged<S, J: Fn(&String, &Option<ProviderOperation>) -> Judgement<S>>(
    judge: J,
    entries: Seq<(String, PollState)>,
    settled: Seq<Option<ProviderOperation>>,
    looks: Seq<Look<S>>,
) -> bool {
    &&& looks.len() == entries.len()
    &&& forall|i: int|
        0 <= i < entries.len() ==> (#[trigger] looks[i]).settled == settled[i] && call_ensures(
            judge,
            (&entries[i].0, &settled[i]),
            looks[i].judgement(),
        )
}

impl RuntimeProviders {
    fn judge_all<S, J: Fn(&String, &Option<ProviderOperation>) -> Judgement<S>>(
        &self,
        settled: Vec<Option<ProviderOperation>>,
        judge: &J,
    ) -> (r: Vec<Look<S>>)
        requires
            settled@.len() == self.polls.entries@.len(),
            forall|id: &String, found: &Option<ProviderOperation>| #[trigger]
                call_requires(*judge, (id, found)),
            forall|
                id: &String,
                found: &Option<ProviderOperation>,
                judgement: Judgement<S>,
            | #[trigger]
                call_ensures(*judge, (id, found), judgement) ==> countable(
                    *found,
                    judgement.verdict,
                ),
        ensures
            all_judged(*judge, self.polls.entries@, settled@, r@),
            forall|i: int| 0 <= i < r@.len() ==> (#[trigger] r@[i]).wf(),
    {
        let mut settled = settled;
        let ghost given = settled@;
        let ghost entries = self.polls.entries@;
        let ghost n = entries.len();
        let mut looks: Vec<Look<S>> = Vec::new();
        let mut i: usize = 0;
        while i < self.polls.entries.len()
            invariant
                i <= n,
                n == entries.len(),
                entries == self.polls.entries@,
                given.len() == n,
                settled@.len() == n,
                looks@.len() == i,
                forall|id: &String, found: &Option<ProviderOperation>| #[trigger]
                    call_requires(*judge, (id, found)),
                forall|
                    id: &String,
                    found: &Option<ProviderOperation>,
                    judgement: Judgement<S>,
                | #[trigger]
                    call_ensures(*judge, (id, found), judgement) ==> countable(
                        *found,
                        judgement.verdict,
                    ),
                forall|j: int| i <= j < n ==> (#[trigger] settled@[j]) == given[j],
                forall|j: int| 0 <= j < i ==> (#[trigger] looks@[j]).wf(),
                forall|j: int|
                    0 <= j < i ==> (#[trigger] looks@[j]).settled == given[j] && call_ensures(
                        *judge,
                        (&entries[j].0, &given[j]),
                        looks@[j].judgement(),
                    ),
            decreases n - i,
        {
            let found = settled[i].take();
            assert(found == given[i as int]);
            let judgement = judge(&self.polls.entries[i].0, &found);
            let Judgement { session, verdict, contract_ok } = judgement;
            looks.push(Look { settled: found, session, verdict, contract_ok });
            i = i + 1;
        }
        looks
    }

    /// The operations led to `middle`, from which every attachment was looked at: its
    /// notifications were taken, what was found settled was judged, and it was read on.
    pub open spec fn passed<R, S, J: Fn(&String, &Option<ProviderOperation>) -> Judgement<S>>(
        self,
        middle: Self,
        host_middle: ProviderHost<R, S>,
        operations: OperationsPolled,
        judge: J,
        settled: Seq<Option<ProviderOperation>>,
        host_read: ProviderHost<R, S>,
        looks: Seq<Look<S>>,
        limits: ContractLimits,
        now: u64,
        after: Self,
        host_after: ProviderHost<R, S>,
        reports: Seq<PollReport>,
        attachments: PollReport,
        report: PollReport,
    ) -> bool {
        &&& all_collected(middle.polls.entries@, host_middle, host_read, settled)
        &&& all_judged(judge, middle.polls.entries@, settled, looks)
        &&& all_visited(
            middle.polls.entries@,
            host_read,
            looks,
            limits,
            now,
            after.polls.entries@,
            host_after,
            reports,
        )
        &&& joined(reports, attachments)
        &&& after == (RuntimeProviders { polls: after.polls, deadline: after.deadline, ..middle })
        &&& after.scheduled(now)
        &&& report == merged(
            PollReport {
                changed: operations.changed,
                persist: operations.moved,
                render: operations.moved,
            },
            attachments,
        )
    }

    /// Where something is due, look at every operation and then at every attachment. A server
    /// without providers is never due. `lines` is the way to the workers of operations, and
    /// `judge` says what the daemon client makes of an attachment and of the operation that
    /// was found settled for it, if there is one. A lookup of an operation is submitted before
    /// any attachment is read.
    pub fn poll_runtime_providers<
        R,
        S,
        J: Fn(&String, &Option<ProviderOperation>) -> Judgement<S>,
    >(
        &mut self,
        host: &mut ProviderHost<R, S>,
        lines: &mut Vec<Line>,
        judge: J,
        limits: ContractLimits,
        now: u64,
    ) -> (r: PollReport)
        requires
            old(self).wf(),
            old(host).wf(),
            old(lines)@.len() == old(self).operations@.len(),
            lines_wf(old(lines)@),
            forall|id: &String, found: &Option<ProviderOperation>| #[trigger]
                call_requires(judge, (id, found)),
            forall|
                id: &String,
                found: &Option<ProviderOperation>,
                judgement: Judgement<S>,
            | #[trigger]
                call_ensures(judge, (id, found), judgement) ==> countable(
                    *found,
                    judgement.verdict,
                ),
        ensures
            final(self).wf(),
            final(host).wf(),
            lines_wf(final(lines)@),
            !old(self).due(now) ==> *final(self) == *old(self) && *final(host) == *old(host)
                && final(lines)@ == old(lines)@ && r == quiet(),
            old(self).due(now) ==> exists|
                trace: OperationsTrace<R, S>,
                middle: Self,
                host_middle: ProviderHost<R, S>,
                operations: OperationsPolled,
                settled: Seq<Option<ProviderOperation>>,
                host_read: ProviderHost<R, S>,
                looks: Seq<Look<S>>,
                reports: Seq<PollReport>,
                attachments: PollReport,
            |
                #[trigger] old(self).operations_polled(
                    *old(host),
                    old(lines)@,
                    limits,
                    now,
                    trace,
                    middle,
                    final(lines)@,
                    host_middle,
                    operations,
                ) && #[trigger] old(self).passed(
                    middle,
                    host_middle,
                    operations,
                    judge,
                    settled,
                    host_read,
                    looks,
                    limits,
                    now,
                    *final(self),
                    *final(host),
                    reports,
                    attachments,
                    r,
                ),
    {
        if !self.is_due(now) {
            return PollReport { changed: false, persist: false, render: false };
        }
        let operations = self.poll_execution_operations(host, lines, limits, now);
        let ghost middle = *self;
        let ghost host_middle = *host;
        let ghost trace = choose|trace: OperationsTrace<R, S>| #[trigger]
            old(self).operations_polled(
                *old(host),
                old(lines)@,
                limits,
                now,
                trace,
                middle,
                lines@,
                host_middle,
                operations,
            );
        let settled = self.collect_settled(host);
        let ghost host_read = *host;
        let ghost found = settled@;
        let looks = self.judge_all(settled, &judge);
        let ghost seen = looks@;
        let attachments = self.poll_attachments(host, looks, limits, now);
        let ghost reports = choose|reports: Seq<PollReport>| #[trigger]
            all_visited(
                middle.polls.entries@,
                host_read,
                seen,
                limits,
                now,
                self.polls.entries@,
                *host,
                reports,
            ) && joined(reports, attachments);
        self.refresh_deadline(now);
        let report = PollReport {
            changed: operations.changed || attachments.changed,
            persist: operations.moved || attachments.persist,
            render: operations.moved || attachments.render,
        };
        assert(old(self).operations_polled(
            *old(host),
            old(lines)@,
            limits,
            now,
            trace,
            middle,
            lines@,
            host_middle,
            operations,
        ) && old(self).passed(
            middle,
            host_middle,
            operations,
            judge,
            found,
            host_read,
            seen,
            limits,
            now,
            *self,
            *host,
            reports,
            attachments,
            report,
        ));
        report
    }
}

/// An operation stays with the provider that it was submitted to. Once its terminal has
/// another provider, or none, it is left as it is, and neither read nor looked up there.
pub proof fn an_operation_stays_with_its_provider<R, S>(
    operation: OperationState,
    host: ProviderHost<R, S>,
    line: Line,
    limits: ContractLimits,
    now: u64,
    after: OperationState,
    host_after: ProviderHost<R, S>,
    line_after: Line,
    step: OperationStep,
    asked: bool,
)
    requires
        operation.pursued(
            host,
            line,
            limits,
            now,
            after,
            host_after,
            line_after,
            step,
            asked,
        ),
        operation.terminal_id matches Some(id) && (host.runtimes.provided(id@)
            ==> host.runtimes.external@[id@].runtime_generation != operation.runtime_generation),
    ensures
        after == operation,
        host_after == host,
        line_after == line,
        !(step is Settled),
        !asked,
{
}

/// What becomes of an attachment depends on nothing but the attachment itself: in any two
/// passes in which it is in the same state, what happens to it in one is what may happen to
/// it in the other, whatever the other attachments are and however they fail.
pub proof fn each_attachment_is_read_on_its_own<R, S>(
    entries: Seq<(String, PollState)>,
    host: ProviderHost<R, S>,
    looks: Seq<Look<S>>,
    after: Seq<(String, PollState)>,
    host_after: ProviderHost<R, S>,
    reports: Seq<PollReport>,
    other_entries: Seq<(String, PollState)>,
    other_host: ProviderHost<R, S>,
    other_looks: Seq<Look<S>>,
    other_after: Seq<(String, PollState)>,
    other_host_after: ProviderHost<R, S>,
    other_reports: Seq<PollReport>,
    limits: ContractLimits,
    now: u64,
    i: int,
    j: int,
)
    requires
        all_visited(entries, host, looks, limits, now, after, host_after, reports),
        all_visited(
            other_entries,
            other_host,
            other_looks,
            limits,
            now,
            other_after,
            other_host_after,
            other_reports,
        ),
        0 <= i < entries.len(),
        0 <= j < other_entries.len(),
        entries[i].0@ == other_entries[j].0@,
        entries[i].1 == other_entries[j].1,
        looks[i] == other_looks[j],
        host.place(entries[i].0@) == other_host.place(entries[i].0@),
    ensures
        entries[i].1.visited(
            entries[i].0@,
            host.place(entries[i].0@),
            looks[i],
            limits,
            now,
            other_after[j].1,
            other_host_after.place(entries[i].0@),
            other_reports[j],
        ),
{
    assert(other_after[j].0 == other_entries[j].0);
}

impl PollState {
    /// Whatever is submitted to read an attachment is refused for good: its worker is gone, or
    /// its binding is fenced.
    pub open spec fn submission_lost<S>(
        self,
        id: Seq<char>,
        place: Place<S>,
        limits: ContractLimits,
        contract_ok: bool,
    ) -> bool {
        forall|
            command: ProviderCommand,
            answer: Result<OperationTicket, SubmitError>,
            runtime: ProviderRuntimeHandle,
        |
            self.next_command(id, place.terminal->0, command)
                && #[trigger] place.runtime->0.answers(
                command,
                limits,
                contract_ok,
                answer,
                runtime,
            ) ==> (answer matches Err(error) && PollState::lost(error))
    }

    /// Whatever is submitted to read an attachment is taken, under the given ticket.
    pub open spec fn submission_taken<S>(
        self,
        id: Seq<char>,
        place: Place<S>,
        limits: ContractLimits,
        contract_ok: bool,
        ticket: OperationTicket,
    ) -> bool {
        forall|
            command: ProviderCommand,
            answer: Result<OperationTicket, SubmitError>,
            runtime: ProviderRuntimeHandle,
        |
            self.next_command(id, place.terminal->0, command)
                && #[trigger] place.runtime->0.answers(
                command,
                limits,
                contract_ok,
                answer,
                runtime,
            ) ==> answer == Ok::<OperationTicket, SubmitError>(ticket)
    }
}

/// One pass over attachments that are all due, some of which can no longer be submitted to:
/// each of those stops and is shown as disconnected, and each of the others goes on being
/// read, waits for the ticket of its command and shows what it showed before. This holds
/// for whichever of them fail, and in whatever order they are kept.
pub proof fn failing_providers_stop_alone<R, S>(
    entries: Seq<(String, PollState)>,
    host: ProviderHost<R, S>,
    looks: Seq<Look<S>>,
    limits: ContractLimits,
    now: u64,
    after: Seq<(String, PollState)>,
    host_after: ProviderHost<R, S>,
    reports: Seq<PollReport>,
    failing: Set<int>,
    tickets: Seq<OperationTicket>,
)
    requires
        all_visited(entries, host, looks, limits, now, after, host_after, reports),
        forall|i: int|
            0 <= i < entries.len() ==> (#[trigger] entries[i]).1.reads_now(now) && host.place(
                entries[i].0@,
            ).readable(),
        forall|i: int|
            0 <= i < entries.len() && failing.contains(i) ==> (
            #[trigger] entries[i]).1.submission_lost(
                entries[i].0@,
                host.place(entries[i].0@),
                limits,
                looks[i].contract_ok,
            ),
        forall|i: int|
            0 <= i < entries.len() && !failing.contains(i) ==> (
            #[trigger] entries[i]).1.submission_taken(
                entries[i].0@,
                host.place(entries[i].0@),
                limits,
                looks[i].contract_ok,
                tickets[i],
            ),
    ensures
        forall|i: int|
            0 <= i < entries.len() && failing.contains(i) ==> (#[trigger] after[i]).1.stopped && (
            host_after.place(entries[i].0@).terminal matches Some(terminal)
                && terminal.external_observation matches Some(shown) && shown.connection
                == ProviderConnection::Disconnected),
        forall|i: int|
            0 <= i < entries.len() && !failing.contains(i) ==> !(#[trigger] after[i]).1.stopped
                && after[i].1.pending == Some(tickets[i]) && host_after.place(
                entries[i].0@,
            ).terminal == host.place(entries[i].0@).terminal && !reports[i].changed,
{
    assert forall|i: int| 0 <= i < entries.len() implies (if failing.contains(i) {
        (#[trigger] after[i]).1.stopped && (host_after.place(entries[i].0@).terminal matches Some(
            terminal,
        ) && terminal.external_observation matches Some(shown) && shown.connection
            == ProviderConnection::Disconnected)
    } else {
        !after[i].1.stopped && after[i].1.pending == Some(tickets[i]) && host_after.place(
            entries[i].0@,
        ).terminal == host.place(entries[i].0@).terminal && !reports[i].changed
    }) by {
        let id = entries[i].0@;
        let poll = entries[i].1;
        let before = host.place(id);
        let place = host_after.place(id);
        let look = looks[i];
        assert(after[i].0 == entries[i].0);
        assert(poll.reads_now(now) && before.readable());
        assert(poll.looked_at(id, before, look, limits, now, after[i].1, place, reports[i]));
        let answer = look.answer_to(poll);
        assert(answer is None);
        let in_place = before.takes(answer, look.session);
        let (settled, shown, told, changed) = choose|
            settled: PollState,
            shown: ExternalTerminal,
            told: PollReport,
            changed: bool,
        |
            #[trigger] poll.takes_answer(
                before.terminal->0,
                before.runtime->0,
                answer,
                in_place,
                look.verdict,
                now,
                settled,
                shown,
                told,
            ) && #[trigger] settled.reads_on(
                id,
                shown,
                before.runtime->0,
                limits,
                look.contract_ok,
                now,
                after[i].1,
                place.terminal->0,
                place.runtime->0,
                changed,
            ) && reports[i] == (PollReport { changed: told.changed || changed, ..told });
        let (command, submitted) = choose|
            command: ProviderCommand,
            submitted: Result<OperationTicket, SubmitError>,
        |
            #[trigger] settled.submits(
                id,
                shown,
                before.runtime->0,
                limits,
                look.contract_ok,
                now,
                command,
                submitted,
                after[i].1,
                place.terminal->0,
                place.runtime->0,
                changed,
            );
        assert(settled.submits(
            id,
            shown,
            before.runtime->0,
            limits,
            look.contract_ok,
            now,
            command,
            submitted,
            after[i].1,
            place.terminal->0,
            place.runtime->0,
            changed,
        ));
        assert(before.runtime->0.answers(
            command,
            limits,
            look.contract_ok,
            submitted,
            place.runtime->0,
        ));
    }
}

/// What holds of attachments that cannot be submitted to holds of a whole poll: once the
/// operations were looked at, each attachment that fails stops and is shown as disconnected,
/// and each of the others waits for its ticket and shows what it showed before.
pub proof fn failing_providers_stop_alone_in_a_poll<
    R,
    S,
    J: Fn(&String, &Option<ProviderOperation>) -> Judgement<S>,
>(
    providers: RuntimeProviders,
    middle: RuntimeProviders,
    host_middle: ProviderHost<R, S>,
    operations: OperationsPolled,
    judge: J,
    settled: Seq<Option<ProviderOperation>>,
    host: ProviderHost<R, S>,
    looks: Seq<Look<S>>,
    limits: ContractLimits,
    now: u64,
    after: RuntimeProviders,
    host_after: ProviderHost<R, S>,
    reports: Seq<PollReport>,
    attachments: PollReport,
    report: PollReport,
    failing: Set<int>,
    tickets: Seq<OperationTicket>,
)
    requires
        providers.passed(
            middle,
            host_middle,
            operations,
            judge,
            settled,
            host,
            looks,
            limits,
            now,
            after,
            host_after,
            reports,
            attachments,
            report,
        ),
        forall|i: int|
            0 <= i < middle.polls.entries@.len() ==> (
            #[trigger] middle.polls.entries@[i]).1.reads_now(now) && host.place(
                middle.polls.entries@[i].0@,
            ).readable(),
        forall|i: int|
            0 <= i < middle.polls.entries@.len() ==> if failing.contains(i) {
                (#[trigger] middle.polls.entries@[i]).1.submission_lost(
                    middle.polls.entries@[i].0@,
                    host.place(middle.polls.entries@[i].0@),
                    limits,
                    looks[i].contract_ok,
                )
            } else {
                middle.polls.entries@[i].1.submission_taken(
                    middle.polls.entries@[i].0@,
                    host.place(middle.polls.entries@[i].0@),
                    limits,
                    looks[i].contract_ok,
                    tickets[i],
                )
            },
    ensures
        after.polls.entries@.len() == middle.polls.entries@.len(),
        forall|i: int|
            0 <= i < after.polls.entries@.len() && failing.contains(i) ==> (
            #[trigger] after.polls.entries@[i]).1.stopped && (host_after.place(
                after.polls.entries@[i].0@,
            ).terminal matches Some(terminal) && terminal.external_observation matches Some(shown)
                && shown.connection == ProviderConnection::Disconnected),
        forall|i: int|
            0 <= i < after.polls.entries@.len() && !failing.contains(i) ==> !(
            #[trigger] after.polls.entries@[i]).1.stopped && after.polls.entries@[i].1.pending
                == Some(tickets[i]) && host_after.place(after.polls.entries@[i].0@).terminal
                == host.place(after.polls.entries@[i].0@).terminal,
{
    let entries = middle.polls.entries@;
    let later_entries = after.polls.entries@;
    failing_providers_stop_alone(
        entries,
        host,
        looks,
        limits,
        now,
        later_entries,
        host_after,
        reports,
        failing,
        tickets,
    );
    assert forall|i: int| 0 <= i < later_entries.len() implies (#[trigger] later_entries[i]).0
        == entries[i].0 by {}
}

/// A report says that something changed, has to be saved or drawn where one of the reports
/// that it is made of says so.
pub proof fn reports_add_up(reports: Seq<PollReport>, report: PollReport, i: int, told: PollReport)
    requires
        joined(reports, report),
    ensures
        0 <= i < reports.len() && reports[i].changed ==> report.changed,
        0 <= i < reports.len() && reports[i].persist ==> report.persist,
        0 <= i < reports.len() && reports[i].render ==> report.render,
        reports.len() == 0 ==> report == quiet(),
        (forall|k: int| 0 <= k < reports.len() ==> #[trigger] reports[k] == quiet()) ==> report
            == quiet(),
        !quiet().changed && !quiet().persist && !quiet().render,
        merged(report, quiet()) == report,
        merged(quiet(), told) == told,
        merged(report, told).changed <==> report.changed || told.changed,
        merged(report, told).persist <==> report.persist || told.persist,
        merged(report, told).render <==> report.render || told.render,
{
}

/// An answer counts only where it is to the read that is awaited.
pub proof fn only_awaited_answers_count<S>(look: Look<S>, poll: PollState)
    ensures
        look.answer_to(poll) matches Some(operation) ==> look.settled == Some(operation)
            && poll.pending == Some(operation.ticket),
        (look.settled matches Some(operation) && poll.pending == Some(operation.ticket))
            ==> look.answer_to(poll) == look.settled,
        poll.pending is None ==> look.answer_to(poll) is None,
        look.settled is None ==> look.answer_to(poll) is None,
{
}

/// A terminal takes a session where its attachment was just acknowledged, a session came with
/// it, and neither a session nor a process of its own is there already.
pub proof fn sessions_are_taken_once<S>(
    place: Place<S>,
    answer: Option<ProviderOperation>,
    session: Option<S>,
)
    ensures
        place.takes(answer, session) ==> session is Some && place.session is None && !place.native
            && answer is Some && answer->0.result is CheckpointAttached,
        session is Some && place.session is None && !place.native && (answer matches Some(
            operation,
        ) && operation.result is CheckpointAttached) ==> place.takes(answer, session),
{
}

/// Only a terminal that is bound and has a provider is read; one that is not is given up, and
/// one that was given up is left alone.
pub proof fn unreadable_terminals_are_given_up<S>(
    poll: PollState,
    id: Seq<char>,
    before: Place<S>,
    look: Look<S>,
    limits: ContractLimits,
    now: u64,
    later_poll: PollState,
    after: Place<S>,
    report: PollReport,
)
    requires
        poll.visited(id, before, look, limits, now, later_poll, after, report),
    ensures
        poll.stopped ==> later_poll == poll && after == before && report == quiet(),
        !poll.stopped && (before.runtime is None || before.terminal is None
            || before.terminal->0.external_binding is None) ==> later_poll.stopped && after == before
            && report == quiet(),
        !poll.stopped && before.readable() ==> after.readable() && after.native == before.native,
        !poll.stopped && before.readable() && before.session is Some ==> after.session
            == before.session,
{
}

/// Of what waits, a reader takes sixty-four notifications at most and an operation eight,
/// from the front, and the others wait on.
pub proof fn notifications_are_taken_from_the_front(
    handle: ProviderRuntimeHandle,
    read: ProviderRuntimeHandle,
)
    ensures
        taken_for_operation(handle.updates@) <= 8,
        handle.updates@.len() <= 8 ==> taken_for_operation(handle.updates@) == handle.updates@.len(),
        handle.updates@.len() >= 8 ==> taken_for_operation(handle.updates@) == 8,
        drained(handle.updates@) <= 64,
        handle.updates@.len() <= 64 ==> drained(handle.updates@) == handle.updates@.len(),
        handle.updates@.len() >= 64 ==> drained(handle.updates@) == 64,
        read_for_operation(handle, read) && handle.updates@.len() >= 8 ==> read.updates@
            == handle.updates@.skip(8) && read.snapshot == handle.snapshot,
        read_for_operation(handle, read) && handle.updates@.len() <= 8 ==> read.updates@.len() == 0,
{
}

/// An operation is followed at the provider it was submitted to: at its own worker where it
/// has no terminal, and at the terminal's provider only while that is the same one.
pub proof fn operations_are_followed_at_their_provider<R, S>(
    operation: OperationState,
    host: ProviderHost<R, S>,
    line: Line,
)
    ensures
        operation.terminal_id is None ==> operation.provider(host, line) == line.worker,
        operation.terminal_id matches Some(id) ==> (operation.provider(host, line) matches Some(
            found,
        ) ==> host.runtimes.external@.dom().contains(id@) && found == host.runtimes.external@[id@]
            && found.runtime_generation == operation.runtime_generation),
        (operation.terminal_id matches Some(id) && host.runtimes.external@.dom().contains(id@)
            && host.runtimes.external@[id@].runtime_generation == operation.runtime_generation)
            ==> operation.provider(host, line) is Some,
{
}

/// A lookup that was taken is awaited under its own ticket; one that was not leaves the
/// operation as it was.
pub proof fn lookups_are_awaited_under_their_ticket(
    operation: OperationState,
    answer: Result<OperationTicket, SubmitError>,
)
    ensures
        answer matches Ok(ticket) ==> operation.looked_up(answer).ticket == ticket
            && operation.looked_up(answer).result is None && operation.looked_up(
            answer,
        ).terminal_id == operation.terminal_id && operation.looked_up(answer).completed_at
            == operation.completed_at,
        answer is Err ==> operation.looked_up(answer) == operation,
{
}

/// An operation that has completed is left alone; one whose provider is gone changes nothing.
pub proof fn completed_operations_are_left_alone<R, S>(
    operation: OperationState,
    host: ProviderHost<R, S>,
    line: Line,
    limits: ContractLimits,
    now: u64,
    after: OperationState,
    host_after: ProviderHost<R, S>,
    line_after: Line,
    step: OperationStep,
    asked: bool,
)
    requires
        operation.pursued(host, line, limits, now, after, host_after, line_after, step, asked),
    ensures
        operation.completed_at is Some ==> after == operation && host_after == host && line_after
            == line && !asked && step is Wait,
        operation.completed_at is None && operation.provider(host, line) is None ==> after
            == operation && host_after == host && line_after == line && !asked,
{
}

/// Every continuation that was settled is carried out, in order.
pub proof fn settled_continuations_are_carried_out(
    steps: Seq<OperationStep>,
    step: OperationStep,
    i: int,
)
    ensures
        step_updates(Seq::<OperationStep>::empty()).len() == 0,
        (step matches OperationStep::Settled { continuation: Some(update), .. }) ==> step_updates(
            steps.push(step),
        ) == step_updates(steps).push(step->continuation->0),
        !(step is Settled) ==> step_updates(steps.push(step)) == step_updates(steps),
        0 <= i < steps.len() && steps[i] is Settled ==> any_settled(steps),
        (forall|k: int| 0 <= k < steps.len() ==> !(#[trigger] steps[k] is Settled))
            ==> !any_settled(steps),
{
    assert(steps.push(step).drop_last() =~= steps);
}

/// A terminal moves with its own continuation alone: its provider and session stay, its reader
/// starts anew, and no other terminal or reader changes.
pub proof fn continuations_move_one_terminal<R, S>(
    providers: RuntimeProviders,
    host: ProviderHost<R, S>,
    update: ContinuationUpdate,
    now: u64,
    after: RuntimeProviders,
    host_after: ProviderHost<R, S>,
    moved: bool,
    other: Seq<char>,
    i: int,
)
    requires
        providers.continued(host, update, now, after, host_after, moved),
        other != update.terminal_id@,
        0 <= i < providers.polls.entries@.len(),
    ensures
        host_after.place(other) == host.place(other),
        host_after.place(update.terminal_id@).runtime == host.place(update.terminal_id@).runtime,
        host_after.place(update.terminal_id@).session == host.place(update.terminal_id@).session,
        host.place(update.terminal_id@).terminal is None ==> !moved,
        (host.place(update.terminal_id@).terminal matches Some(before)) ==> (moved
            <==> before_shows(host.place(update.terminal_id@).terminal->0, update)),
        !moved ==> after.polls.entries@[i] == providers.polls.entries@[i],
        after.polls.entries@[i].0 == providers.polls.entries@[i].0,
        providers.polls.entries@[i].0@ != update.terminal_id@ ==> after.polls.entries@[i]
            == providers.polls.entries@[i],
        moved && providers.polls.entries@[i].0@ == update.terminal_id@
            ==> after.polls.entries@[i].1 == providers.polls.entries@[i].1.restarted(now),
        after.operations == providers.operations,
{
}

/// A terminal shows the execution that an update moves on from.
pub open spec fn before_shows(terminal: ExternalTerminal, update: ContinuationUpdate) -> bool {
    &&& terminal.external_binding is Some
    &&& terminal.external_binding->0.execution.session_id@ == update.parent_session_id@
    &&& terminal.external_binding->0.execution.generation == update.parent_generation
}

/// A reader takes its notifications from its own provider and changes nothing else of the
/// terminal; one that was given up takes none.
pub proof fn readers_take_only_notifications<S>(
    poll: PollState,
    before: Place<S>,
    after: Place<S>,
    settled: Option<ProviderOperation>,
)
    requires
        poll.collected(before, after, settled),
    ensures
        after.terminal == before.terminal,
        after.session == before.session,
        after.native == before.native,
        poll.stopped ==> after == before && settled is None,
        !before.readable() ==> after == before && settled is None,
        !poll.stopped && before.readable() ==> (after.runtime matches Some(taken)
            && taken.snapshot == before.runtime->0.snapshot && taken.commands
            == before.runtime->0.commands && taken.updates@.len() + drained(
            before.runtime->0.updates@,
        ) == before.runtime->0.updates@.len()),
{
}

/// An operation that is waited for changes nothing; one that settled stops the worker that
/// served it alone, and leaves any other as it is; a lookup is asked where it was taken.
pub proof fn steps_are_acted_on(
    operation: OperationState,
    step: OperationStep,
    read: ProviderRuntimeHandle,
    limits: ContractLimits,
    contract_ok: bool,
    answer: Result<OperationTicket, SubmitError>,
    after: OperationState,
    left: ProviderRuntimeHandle,
    asked: bool,
)
    requires
        operation.acts_on(step, read, limits, contract_ok, answer, after, left, asked),
    ensures
        step is Wait ==> after == operation && left == read && !asked,
        step is Settled ==> after == operation && !asked,
        (step matches OperationStep::Settled { stop_runtime, .. } && !stop_runtime) ==> left
            == read,
        (step matches OperationStep::Settled { stop_runtime, .. } && stop_runtime)
            ==> read.shuts_down(left),
        step matches OperationStep::Lookup(command) ==> read.answers(
            command,
            limits,
            contract_ok,
            answer,
            left,
        ) && (asked <==> answer is Ok) && (answer is Err ==> after == operation) && (answer is Ok
            ==> after.ticket == answer->Ok_0),
{
}

} // verus!
