//! When the application publishes what its session owns, and what it tells of cleanup.
use vstd::prelude::*;

use super::runtime_providers::later;
use crate::cleanup::ownership::{
    session_claims, session_paths, workspace_paths, OwnedWorkspace,
};
use crate::cleanup::policy::{copy_paths, record_views, Record, RecordView, State};
use crate::cleanup::service::{Action, Command, Service, Snapshot, SnapshotView};
use crate::path::{
    all_components, comes_before, components, lemma_precedes_irreflexive, lemma_precedes_total,
    lemma_precedes_transitive, names, precedes, same_path, same_paths,
};
use crate::runtime_provider::copy_bytes;
use crate::text::{decimal, decimal_text, paths, text_of};

verus! {

/// How often the session's paths are published.
pub const SYNC_INTERVAL_MS: u64 = 5_000;

/// What the application knows of cleanup.
pub struct CleanupRuntime {
    pub service: Option<Service>,
    pub next_sync: Option<u64>,
    pub last_paths: Vec<Vec<u8>>,
    pub generation: u64,
    pub report_generation: u64,
    pub notice: Option<String>,
}

/// How many of the first `n` records say that something was removed.
pub open spec fn removed_count(records: Seq<RecordView>, n: nat) -> nat
    decreases n,
{
    if n == 0 {
        0
    } else {
        removed_count(records, (n - 1) as nat) + if records[n - 1].state == State::Removed {
            1nat
        } else {
            0nat
        }
    }
}

/// How many of the first `n` records say that something was kept. A primary checkout is
/// always kept and does not count.
pub open spec fn kept_count(records: Seq<RecordView>, n: nat) -> nat
    decreases n,
{
    if n == 0 {
        0
    } else {
        kept_count(records, (n - 1) as nat) + if records[n - 1].state == State::Deferred
            && !records[n - 1].candidate.primary {
            1nat
        } else {
            0nat
        }
    }
}

/// What the user is told of a report.
pub open spec fn notice_text(records: Seq<RecordView>) -> Seq<char> {
    "Removed "@ + decimal(removed_count(records, records.len())) + " merged items; retained "@
        + decimal(kept_count(records, records.len()))
        + ". Details: herdr worktree cleanup inspect"@
}

fn count_states(records: &Vec<Record>) -> (r: (usize, usize))
    ensures
        r.0 == removed_count(record_views(records@), records@.len()),
        r.1 == kept_count(record_views(records@), records@.len()),
{
    let ghost views = record_views(records@);
    let mut removed: usize = 0;
    let mut deferred: usize = 0;
    let mut i: usize = 0;
    while i < records.len()
        invariant
            i <= records@.len(),
            views == record_views(records@),
            removed <= i,
            deferred <= i,
            removed == removed_count(views, i as nat),
            deferred == kept_count(views, i as nat),
        decreases records@.len() - i,
    {
        assert(views[i as int] == records@[i as int]@);
        if records[i].state == State::Removed {
            removed = removed + 1;
        }
        if records[i].state == State::Deferred && !records[i].candidate.primary {
            deferred = deferred + 1;
        }
        i = i + 1;
    }
    (removed, deferred)
}

impl CleanupRuntime {
    pub fn new() -> (r: Self)
        ensures
            r.service is None,
            r.next_sync is None,
            r.last_paths@.len() == 0,
            r.generation == 0,
            r.report_generation == 0,
            r.notice is None,
    {
        CleanupRuntime {
            service: None,
            next_sync: None,
            last_paths: Vec::new(),
            generation: 0,
            report_generation: 0,
            notice: None,
        }
    }

    /// The session's paths are published now. A session that is not persisted publishes
    /// nothing.
    pub open spec fn is_due(self, persisted: bool, now: u64) -> bool {
        persisted && !(self.next_sync matches Some(next) && next > now)
    }

    /// What sets a publication off.
    pub open spec fn source(self, owned: Seq<Seq<u8>>) -> Seq<char> {
        if self.service is None {
            "startup"@
        } else if all_components(owned) != all_components(paths(self.last_paths@)) {
            "session_ownership_changed"@
        } else {
            "periodic"@
        }
    }

    /// The service that a publication goes to: the running one, or one that is started.
    pub open spec fn serves(self, boot_id: Seq<char>, service: Service) -> bool {
        match self.service {
            Some(running) => service == running,
            None => service.wf() && service.is_fresh(boot_id),
        }
    }

    /// A service took a list of paths: it stands last in the queue, unless an earlier list
    /// still waits there.
    pub open spec fn takes(
        before: Service,
        owned: Seq<Seq<u8>>,
        source: Seq<char>,
        after: Service,
    ) -> bool {
        if before.sync_pending {
            after == before
        } else {
            let last = after.queue@[before.queue@.len() as int];
            &&& after == (Service { queue: after.queue, sync_pending: true, ..before })
            &&& after.queue@ == before.queue@.push(last)
            &&& last matches Command::Sync { paths: sent, trigger } && paths(sent@) == owned
                && trigger@ == source
        }
    }

    /// What becomes known of a snapshot that is news. A report that says of removals is told
    /// to the user.
    pub open spec fn learns(self, snapshot: SnapshotView, after: Self) -> bool {
        let reported = snapshot.report_generation != self.report_generation;
        let told = reported && removed_count(snapshot.records, snapshot.records.len()) > 0;
        &&& after.generation == snapshot.generation
        &&& after.report_generation == snapshot.report_generation
        &&& told ==> text_of(after.notice) == Some(notice_text(snapshot.records))
        &&& !told ==> after.notice == self.notice
    }

    /// What a publication to a service comes to. Where the service takes the paths, what it
    /// has published is read, and handed on as an event where it is news.
    pub open spec fn publishes(
        self,
        service: Service,
        owned: Seq<Seq<u8>>,
        now: u64,
        after: Self,
        event: Option<Snapshot>,
    ) -> bool {
        let taken = service.sync_pending || service.refusal() is None;
        let news = taken && !service.poisoned && service.snapshot.generation != self.generation;
        &&& after.next_sync == Some(later(now, SYNC_INTERVAL_MS))
        &&& after.service matches Some(running) && if taken {
            CleanupRuntime::takes(service, owned, self.source(owned), running)
        } else {
            running == service
        }
        &&& paths(after.last_paths@) == (if taken {
            owned
        } else {
            paths(self.last_paths@)
        })
        &&& event is Some <==> news
        &&& event matches Some(snapshot) ==> snapshot@ == service.snapshot@
        &&& news ==> self.learns(service.snapshot@, after)
        &&& !news ==> after.generation == self.generation && after.report_generation
            == self.report_generation && after.notice == self.notice
    }

    /// The session's paths are published where that is due, and nothing happens otherwise.
    pub open spec fn polled(
        self,
        persisted: bool,
        owned: Seq<Seq<u8>>,
        boot_id: Seq<char>,
        now: u64,
        after: Self,
        event: Option<Snapshot>,
    ) -> bool {
        if self.is_due(persisted, now) {
            exists|service: Service| #[trigger]
                self.serves(boot_id, service) && self.publishes(service, owned, now, after, event)
        } else {
            event is None && after == self
        }
    }

    fn due_source(&mut self, owned: &Vec<Vec<u8>>, now: u64) -> (r: &'static str)
        ensures
            r@ == old(self).source(paths(owned@)),
            *final(self) == (CleanupRuntime {
                next_sync: Some(later(now, SYNC_INTERVAL_MS)),
                ..*old(self)
            }),
    {
        self.next_sync = Some(now.saturating_add(SYNC_INTERVAL_MS));
        if self.service.is_none() {
            "startup"
        } else if !same_paths(owned, &self.last_paths) {
            "session_ownership_changed"
        } else {
            "periodic"
        }
    }

    /// Take note of what cleanup has published, and say whether it is news.
    fn note_snapshot(&mut self, snapshot: &Snapshot) -> (r: bool)
        ensures
            r == (snapshot.generation != old(self).generation),
            !r ==> *final(self) == *old(self),
            r ==> old(self).learns(snapshot@, *final(self)) && *final(self) == (CleanupRuntime {
                generation: final(self).generation,
                report_generation: final(self).report_generation,
                notice: final(self).notice,
                ..*old(self)
            }),
    {
        if snapshot.generation == self.generation {
            return false;
        }
        self.generation = snapshot.generation;
        if snapshot.report_generation != self.report_generation {
            self.report_generation = snapshot.report_generation;
            let (removed, deferred) = count_states(&snapshot.records);
            if removed > 0 {
                self.notice = Some(
                    "Removed ".to_owned().concat(decimal_text(removed as u64).as_str()).concat(
                        " merged items; retained ",
                    ).concat(decimal_text(deferred as u64).as_str()).concat(
                        ". Details: herdr worktree cleanup inspect",
                    ),
                );
            }
        }
        true
    }

    /// Publish the session's paths where that is due, and hand on what cleanup has to say.
    /// The service is started by the first publication, under `boot_id`.
    pub fn poll_cleanup(
        &mut self,
        persisted: bool,
        owned: Vec<Vec<u8>>,
        boot_id: String,
        now: u64,
    ) -> (r: Option<Snapshot>)
        requires
            old(self).service matches Some(service) ==> service.wf(),
        ensures
            final(self).service matches Some(service) ==> service.wf(),
            old(self).polled(persisted, paths(owned@), boot_id@, now, *final(self), r),
    {
        if !persisted {
            return None;
        }
        if let Some(next) = self.next_sync {
            if next > now {
                return None;
            }
        }
        let source = self.due_source(&owned, now);
        let mut service = match self.service.take() {
            Some(service) => service,
            None => Service::start(boot_id),
        };
        let ghost before = service;
        assert(old(self).serves(boot_id@, before));
        let sent = copy_paths(&owned);
        if service.sync(sent, source.to_owned()).is_err() {
            self.service = Some(service);
            assert(old(self).publishes(before, paths(owned@), now, *self, None));
            return None;
        }
        let published = service.snapshot();
        self.service = Some(service);
        let ghost list = paths(owned@);
        self.last_paths = owned;
        if let Ok(snapshot) = published {
            if self.note_snapshot(&snapshot) {
                assert(old(self).publishes(before, list, now, *self, Some(snapshot)));
                return Some(snapshot);
            }
        }
        assert(old(self).publishes(before, list, now, *self, None));
        None
    }

    /// Publish again at the next opportunity.
    pub fn cleanup_trigger(&mut self)
        ensures
            *final(self) == (CleanupRuntime { next_sync: None, ..*old(self) }),
    {
        self.next_sync = None;
    }

    pub fn take_cleanup_notice(&mut self) -> (r: Option<String>)
        ensures
            r == old(self).notice,
            *final(self) == (CleanupRuntime { notice: None, ..*old(self) }),
    {
        self.notice.take()
    }
}

/// What a request of the API is answered with by the service, where one runs, and what the
/// request leaves of it: an inspection leaves it as it is, and another action is submitted
/// under the next id.
pub open spec fn answered(
    service: Option<Service>,
    action: Action,
    after: Option<Service>,
    r: Result<(Snapshot, Option<u64>), String>,
) -> bool {
    match service {
        None => after is None && (r matches Err(message) && message@
            == "cleanup unavailable in this runtime"@),
        Some(before) => {
            let refusal = if action is Inspect {
                None
            } else {
                before.refusal()
            };
            let answer = if refusal is Some {
                refusal
            } else if before.poisoned {
                Some("cleanup snapshot unavailable"@)
            } else {
                None
            };
            &&& after is Some
            &&& action is Inspect ==> after == service
            &&& !(action is Inspect) ==> after->0 == (Service {
                sequence: before.sequence.wrapping_add(1),
                queue: after->0.queue,
                ..before
            }) && after->0.queue@ == (if refusal is None {
                before.queue@.push(Command::Action(before.sequence, action))
            } else {
                before.queue@
            })
            &&& match answer {
                Some(message) => r matches Err(text) && text@ == message,
                None => r matches Ok(told) && told.0@ == before.snapshot@ && told.1 == (
                if action is Inspect {
                    None
                } else {
                    Some(before.sequence)
                }),
            }
        },
    }
}

/// What a request of the API comes to: what is handed on as an event, and the answer, which
/// holds what is published and the id of the action that was submitted.
pub struct CleanupAnswer {
    pub event: Option<Snapshot>,
    pub answer: Result<(Snapshot, Option<u64>), String>,
}

impl CleanupRuntime {
    /// Answer a request of the API. The session's paths are published first where that is
    /// due, which starts the service of a session that is persisted.
    pub fn handle_cleanup_api(
        &mut self,
        persisted: bool,
        owned: Vec<Vec<u8>>,
        boot_id: String,
        action: Action,
        now: u64,
    ) -> (r: CleanupAnswer)
        requires
            old(self).service matches Some(service) ==> service.wf(),
        ensures
            final(self).service matches Some(service) ==> service.wf(),
            exists|middle: CleanupRuntime| #[trigger]
                old(self).polled(persisted, paths(owned@), boot_id@, now, middle, r.event)
                    && answered(middle.service, action, final(self).service, r.answer)
                    && *final(self) == (CleanupRuntime { service: final(self).service, ..middle }),
            old(self).is_due(persisted, now) ==> final(self).service is Some,
    {
        let ghost list = paths(owned@);
        let ghost boot = boot_id@;
        let event = self.poll_cleanup(persisted, owned, boot_id, now);
        let ghost middle = *self;
        let answer = answer_action(&mut self.service, action);
        let r = CleanupAnswer { event, answer };
        assert(old(self).polled(persisted, list, boot, now, middle, r.event) && answered(
            middle.service,
            action,
            self.service,
            r.answer,
        ) && *self == (CleanupRuntime { service: self.service, ..middle }));
        r
    }
}

/// Answer a request of the API for the service, where one runs.
pub fn answer_action(service: &mut Option<Service>, action: Action) -> (r: Result<
    (Snapshot, Option<u64>),
    String,
>)
    requires
        *old(service) matches Some(service) ==> service.wf(),
    ensures
        *final(service) matches Some(service) ==> service.wf(),
        answered(*old(service), action, *final(service), r),
{
    let mut running = match service.take() {
        Some(running) => running,
        None => {
            return Err("cleanup unavailable in this runtime".to_owned());
        },
    };
    let inspects: bool = match &action {
        Action::Inspect => true,
        _ => false,
    };
    let mut submitted: Option<u64> = None;
    if !inspects {
        match running.submit(action) {
            Ok(id) => {
                submitted = Some(id);
            },
            Err(message) => {
                *service = Some(running);
                return Err(message);
            },
        }
    }
    let told = running.snapshot();
    *service = Some(running);
    match told {
        Ok(snapshot) => Ok((snapshot, submitted)),
        Err(message) => Err(message),
    }
}

/// Each path comes before all that follow it.
pub open spec fn in_order(list: Seq<Seq<u8>>) -> bool {
    forall|i: int, j: int|
        #![trigger list[i], list[j]]
        0 <= i < j < list.len() ==> precedes(components(list[i]), components(list[j]))
}

/// Put a path at its place in a list, where none that is the same stands there yet.
fn insert_path(list: &mut Vec<Vec<u8>>, path: Vec<u8>)
    requires
        in_order(paths(old(list)@)),
    ensures
        in_order(paths(final(list)@)),
        forall|p: Seq<u8>| #[trigger]
            paths(final(list)@).contains(p) <==> paths(old(list)@).contains(p) || (p == path@
                && !names(paths(old(list)@), path@)),
{
    let ghost before = paths(list@);
    let mut k: usize = 0;
    while k < list.len() && comes_before(&list[k], &path)
        invariant
            k <= list@.len(),
            before == paths(list@),
            forall|i: int|
                0 <= i < k ==> precedes(components(#[trigger] before[i]), components(path@)),
        decreases list@.len() - k,
    {
        assert(before[k as int] == list@[k as int]@);
        k = k + 1;
    }
    if k < list.len() {
        assert(before[k as int] == list@[k as int]@);
        if same_path(&list[k], &path) {
            return;
        }
        proof {
            lemma_precedes_total(components(before[k as int]), components(path@));
            assert forall|j: int| k <= j < before.len() implies precedes(
                components(path@),
                components(#[trigger] before[j]),
            ) by {
                if j > k {
                    lemma_precedes_transitive(
                        components(path@),
                        components(before[k as int]),
                        components(before[j]),
                    );
                }
            }
        }
    }
    let ghost added = path@;
    proof {
        lemma_precedes_irreflexive(components(added));
    }
    list.insert(k, path);
    let ghost after = paths(list@);
    assert(after =~= before.insert(k as int, added));
    assert forall|p: Seq<u8>| #[trigger] after.contains(p) <==> before.contains(p) || p
        == added by {
        if after.contains(p) {
            let i = choose|i: int| 0 <= i < after.len() && after[i] == p;
            if i < k {
                assert(before[i] == p);
            } else if i > k {
                assert(before[i - 1] == p);
            }
        }
        if before.contains(p) {
            let i = choose|i: int| 0 <= i < before.len() && before[i] == p;
            if i < k {
                assert(after[i] == p);
            } else {
                assert(after[i + 1] == p);
            }
        }
        if p == added {
            assert(after[k as int] == p);
        }
    }
}

/// The paths that a session has, in the order in which they are come by: those of its
/// workspaces, and then where its terminals are.
pub open spec fn had(workspaces: Seq<OwnedWorkspace>, terminals: Seq<Seq<u8>>) -> Seq<Seq<u8>> {
    session_claims(workspaces, workspaces.len()) + terminals
}

/// A path is one of a session's: of a workspace, or of a terminal.
pub open spec fn owns(
    workspaces: Seq<OwnedWorkspace>,
    terminals: Seq<Seq<u8>>,
    path: Seq<u8>,
) -> bool {
    names(had(workspaces, terminals), path)
}

/// A path is the first of the first `n` that is spelled in some way.
pub open spec fn comes_first(all: Seq<Seq<u8>>, n: int, path: Seq<u8>) -> bool {
    exists|k: int|
        0 <= k < n && #[trigger] all[k] == path && forall|j: int|
            0 <= j < k ==> components(#[trigger] all[j]) != components(path)
}

proof fn lemma_first(all: Seq<Seq<u8>>, n: int, i: int) -> (k: int)
    requires
        0 <= i < n <= all.len(),
    ensures
        0 <= k <= i,
        components(all[k]) == components(all[i]),
        comes_first(all, n, all[k]),
    decreases i,
{
    if exists|j: int| 0 <= j < i && components(#[trigger] all[j]) == components(all[i]) {
        let j = choose|j: int| 0 <= j < i && components(#[trigger] all[j]) == components(all[i]);
        lemma_first(all, n, j)
    } else {
        i
    }
}

/// The paths that the session owns, each once, in order and as it was first spelled.
pub fn cleanup_owned_paths(workspaces: &Vec<OwnedWorkspace>, terminals: &Vec<Vec<u8>>) -> (r: Vec<
    Vec<u8>,
>)
    ensures
        in_order(paths(r@)),
        ({
            let all = had(workspaces@, paths(terminals@));
            forall|p: Seq<u8>| #[trigger]
                paths(r@).contains(p) <==> comes_first(all, all.len() as int, p)
        }),
        forall|p: Seq<u8>| #[trigger]
            names(paths(r@), p) <==> owns(workspaces@, paths(terminals@), p),
{
    let mut claims = session_paths(workspaces);
    let ghost claimed = paths(claims@);
    let mut copies = copy_paths(terminals);
    let ghost live = paths(copies@);
    let ghost own = claims@;
    let ghost more = copies@;
    claims.append(&mut copies);
    let ghost all = had(workspaces@, paths(terminals@));
    assert(paths(claims@) =~= all) by {
        assert forall|i: int| 0 <= i < claims@.len() implies #[trigger] paths(claims@)[i]
            == all[i] by {
            if i < own.len() {
                assert(claimed[i] == own[i]@);
            } else {
                assert(live[i - own.len()] == more[i - own.len()]@);
            }
        }
    }
    let mut list: Vec<Vec<u8>> = Vec::new();
    let mut i: usize = 0;
    while i < claims.len()
        invariant
            i <= claims@.len(),
            all == paths(claims@),
            in_order(paths(list@)),
            forall|p: Seq<u8>| #[trigger]
                paths(list@).contains(p) <==> comes_first(all, i as int, p),
        decreases claims@.len() - i,
    {
        let ghost before = paths(list@);
        let ghost at = i as int;
        assert(all[at] == claims@[at]@);
        insert_path(&mut list, copy_bytes(&claims[i]));
        i = i + 1;
        assert(names(before, all[at]) <==> exists|j: int|
            0 <= j < at && components(#[trigger] all[j]) == components(all[at])) by {
            if names(before, all[at]) {
                let m = choose|m: int|
                    0 <= m < before.len() && components(#[trigger] before[m]) == components(
                        all[at],
                    );
                assert(before.contains(before[m]));
                assert(comes_first(all, at, before[m]));
            }
            if exists|j: int| 0 <= j < at && components(#[trigger] all[j]) == components(all[at]) {
                let j = choose|j: int|
                    0 <= j < at && components(#[trigger] all[j]) == components(all[at]);
                let k = lemma_first(all, at, j);
                assert(before.contains(all[k]));
                let m = choose|m: int| 0 <= m < before.len() && before[m] == all[k];
                assert(components(before[m]) == components(all[at]));
            }
        }
        assert forall|p: Seq<u8>| #[trigger] paths(list@).contains(p) <==> comes_first(
            all,
            at + 1,
            p,
        ) by {
            if comes_first(all, at, p) {
                assert(before.contains(p));
            }
            if before.contains(p) {
                assert(comes_first(all, at, p));
                let k = choose|k: int|
                    0 <= k < at && #[trigger] all[k] == p && forall|j: int|
                        0 <= j < k ==> components(#[trigger] all[j]) != components(p);
                assert(0 <= k < at + 1 && all[k] == p);
            }
            if comes_first(all, at + 1, p) && !comes_first(all, at, p) {
                let k = choose|k: int|
                    0 <= k < at + 1 && #[trigger] all[k] == p && forall|j: int|
                        0 <= j < k ==> components(#[trigger] all[j]) != components(p);
                assert(k == at);
            }
            if p == all[at] && !names(before, all[at]) {
                assert(all[at] == p);
            }
        }
    }
    assert forall|p: Seq<u8>| #[trigger] names(paths(list@), p) <==> names(all, p) by {
        let found = paths(list@);
        if names(found, p) {
            let m = choose|m: int|
                0 <= m < found.len() && components(#[trigger] found[m]) == components(p);
            assert(found.contains(found[m]));
            assert(comes_first(all, all.len() as int, found[m]));
        }
        if names(all, p) {
            let j = choose|j: int|
                0 <= j < all.len() && components(#[trigger] all[j]) == components(p);
            let k = lemma_first(all, all.len() as int, j);
            assert(found.contains(all[k]));
            let m = choose|m: int| 0 <= m < found.len() && found[m] == all[k];
            assert(components(found[m]) == components(p));
        }
    }
    list
}

proof fn lemma_workspace_claimed(workspaces: Seq<OwnedWorkspace>, n: nat, i: int, path: Seq<u8>)
    requires
        0 <= i < n <= workspaces.len(),
        workspace_paths(workspaces[i]).contains(path),
    ensures
        session_claims(workspaces, n).contains(path),
    decreases n,
{
    let before = session_claims(workspaces, (n - 1) as nat);
    let last = workspace_paths(workspaces[n - 1]);
    if i < n - 1 {
        lemma_workspace_claimed(workspaces, (n - 1) as nat, i, path);
        let k = choose|k: int| 0 <= k < before.len() && before[k] == path;
        assert((before + last)[k] == path);
    } else {
        let k = choose|k: int| 0 <= k < last.len() && last[k] == path;
        assert((before + last)[before.len() + k] == path);
    }
}

proof fn lemma_claimed_is_owned(
    workspaces: Seq<OwnedWorkspace>,
    terminals: Seq<Seq<u8>>,
    path: Seq<u8>,
)
    requires
        session_claims(workspaces, workspaces.len()).contains(path),
    ensures
        owns(workspaces, terminals, path),
{
    let claims = session_claims(workspaces, workspaces.len());
    let k = choose|k: int| 0 <= k < claims.len() && claims[k] == path;
    assert(had(workspaces, terminals)[k] == path);
}

/// A workspace is owned though nothing runs in it.
pub proof fn resumable_workspaces_are_owned(
    workspaces: Seq<OwnedWorkspace>,
    terminals: Seq<Seq<u8>>,
    i: int,
)
    requires
        0 <= i < workspaces.len(),
    ensures
        owns(workspaces, terminals, workspaces[i].identity_cwd@),
        workspaces[i].checkout matches Some(checkout) ==> owns(workspaces, terminals, checkout@),
{
    let own = workspace_paths(workspaces[i]);
    assert(own[0] == workspaces[i].identity_cwd@);
    lemma_workspace_claimed(workspaces, workspaces.len(), i, workspaces[i].identity_cwd@);
    lemma_claimed_is_owned(workspaces, terminals, workspaces[i].identity_cwd@);
    if let Some(checkout) = workspaces[i].checkout {
        assert(own[1] == checkout@);
        lemma_workspace_claimed(workspaces, workspaces.len(), i, checkout@);
        lemma_claimed_is_owned(workspaces, terminals, checkout@);
    }
}

proof fn lemma_counts(records: Seq<RecordView>, record: RecordView, n: nat)
    requires
        n <= records.len(),
    ensures
        removed_count(records.push(record), n) == removed_count(records, n),
        kept_count(records.push(record), n) == kept_count(records, n),
    decreases n,
{
    if n > 0 {
        lemma_counts(records, record, (n - 1) as nat);
        assert(records.push(record)[n - 1] == records[n - 1]);
    }
}

/// What was removed and what was put off is counted, each record once; a primary checkout is
/// always kept and does not count.
pub proof fn removals_and_delays_are_counted(records: Seq<RecordView>, record: RecordView)
    ensures
        removed_count(Seq::<RecordView>::empty(), 0) == 0,
        kept_count(Seq::<RecordView>::empty(), 0) == 0,
        record.state == State::Removed ==> removed_count(
            records.push(record),
            records.len() + 1,
        ) == removed_count(records, records.len()) + 1 && kept_count(
            records.push(record),
            records.len() + 1,
        ) == kept_count(records, records.len()),
        record.state == State::Deferred && !record.candidate.primary ==> kept_count(
            records.push(record),
            records.len() + 1,
        ) == kept_count(records, records.len()) + 1 && removed_count(
            records.push(record),
            records.len() + 1,
        ) == removed_count(records, records.len()),
        record.state == State::Deferred && record.candidate.primary ==> kept_count(
            records.push(record),
            records.len() + 1,
        ) == kept_count(records, records.len()),
        record.state == State::Pending || record.state == State::Removing || record.state
            == State::Failed ==> removed_count(records.push(record), records.len() + 1)
            == removed_count(records, records.len()) && kept_count(
            records.push(record),
            records.len() + 1,
        ) == kept_count(records, records.len()),
{
    lemma_counts(records, record, records.len());
    assert(records.push(record)[records.len() as int] == record);
}

/// A notice tells how many were removed and how many were kept, in this order.
pub proof fn notices_tell_both_counts(records: Seq<RecordView>)
    ensures
        notice_text(records) == "Removed "@ + decimal(removed_count(records, records.len()))
            + " merged items; retained "@ + decimal(kept_count(records, records.len()))
            + ". Details: herdr worktree cleanup inspect"@,
{
}

/// A runtime that keeps its session is due at first, and then whenever its time has come; one
/// that keeps nothing never is.
pub proof fn sessions_that_are_kept_are_published(runtime: CleanupRuntime, now: u64)
    ensures
        !runtime.is_due(false, now),
        runtime.next_sync is None ==> runtime.is_due(true, now),
        runtime.next_sync matches Some(next) ==> (runtime.is_due(true, now) <==> next <= now),
{
}

/// What is published says what set it off: the start, a change of what the session owns, or
/// the passing of time.
pub proof fn publications_say_what_set_them_off(runtime: CleanupRuntime, owned: Seq<Seq<u8>>)
    ensures
        runtime.service is None ==> runtime.source(owned) == "startup"@,
        runtime.service is Some && owned.len() != runtime.last_paths@.len() ==> runtime.source(
            owned,
        ) == "session_ownership_changed"@,
        runtime.service is Some && owned == paths(runtime.last_paths@) ==> runtime.source(owned)
            == "periodic"@,
{
    assert(all_components(owned).len() == owned.len());
    assert(all_components(paths(runtime.last_paths@)).len() == runtime.last_paths@.len());
}

/// A poll that is due publishes what the session owns, once, and is due again five seconds
/// later; what changed since is told, once, and a report of removals becomes a notice.
pub proof fn polls_publish_and_tell(
    runtime: CleanupRuntime,
    service: Service,
    owned: Seq<Seq<u8>>,
    now: u64,
    after: CleanupRuntime,
    event: Option<Snapshot>,
)
    requires
        runtime.publishes(service, owned, now, after, event),
        now <= u64::MAX - 5_000,
    ensures
        after.next_sync == Some((now + 5_000) as u64),
        after.service is Some,
        service.sync_pending ==> after.service == Some(service),
        !service.sync_pending && !service.closed && service.queue@.len() < 16
            ==> after.service->0.queue@.len() == service.queue@.len() + 1
            && after.service->0.sync_pending && (after.service->0.queue@.last() matches
            Command::Sync { paths: sent, trigger } && paths(sent@) == owned && trigger@
            == runtime.source(owned)) && paths(after.last_paths@) == owned,
        !service.sync_pending && (service.closed || service.queue@.len() >= 16) ==> after.service
            == Some(service) && event is None && paths(after.last_paths@) == paths(
            runtime.last_paths@,
        ),
        event matches Some(snapshot) ==> snapshot@ == service.snapshot@ && after.generation
            == service.snapshot.generation && after.report_generation
            == service.snapshot.report_generation,
        service.snapshot.generation == runtime.generation ==> event is None && after.notice
            == runtime.notice,
        service.poisoned ==> event is None,
        !service.sync_pending && !service.closed && service.queue@.len() < 16 && !service.poisoned
            && service.snapshot.generation != runtime.generation ==> event is Some,
        event is Some && service.snapshot.report_generation != runtime.report_generation
            && removed_count(service.snapshot@.records, service.snapshot@.records.len()) > 0
            ==> text_of(after.notice) == Some(notice_text(service.snapshot@.records)),
        event is Some && service.snapshot.report_generation == runtime.report_generation
            ==> after.notice == runtime.notice,
        event is Some && removed_count(service.snapshot@.records, service.snapshot@.records.len())
            == 0 ==> after.notice == runtime.notice,
{
}

/// An action is answered with the state of things and, but for an inspection, with the number
/// under which it is queued; where it cannot be queued the reason is told.
pub proof fn actions_are_answered(
    before: Service,
    action: Action,
    after: Option<Service>,
    r: Result<(Snapshot, Option<u64>), String>,
)
    requires
        answered(Some(before), action, after, r),
    ensures
        r matches Ok(told) ==> told.0@ == before.snapshot@ && !before.poisoned,
        action is Inspect ==> after == Some(before) && (r matches Ok(told) ==> told.1 is None),
        action is Inspect && !before.poisoned ==> r is Ok,
        !(action is Inspect) ==> (r matches Ok(told) ==> told.1 == Some(before.sequence)),
        !(action is Inspect) && !before.closed && before.queue@.len() < 16
            ==> after->0.queue@.len() == before.queue@.len() + 1 && after->0.queue@.last()
            == Command::Action(before.sequence, action) && after->0.queue@.drop_last()
            == before.queue@,
        !(action is Inspect) && !before.closed && before.queue@.len() < 16 && !before.poisoned
            ==> r is Ok,
        !(action is Inspect) && (before.closed || before.queue@.len() >= 16) ==> r is Err
            && after->0.queue@ == before.queue@,
{
    if !(action is Inspect) && !before.closed && before.queue@.len() < 16 {
        assert(after->0.queue@.drop_last() =~= before.queue@);
    }
}

/// Without a service nothing can be asked, and that is told.
pub proof fn actions_need_a_service(
    action: Action,
    after: Option<Service>,
    r: Result<(Snapshot, Option<u64>), String>,
)
    requires
        answered(None, action, after, r),
    ensures
        after is None,
        r matches Err(message) && message@ == "cleanup unavailable in this runtime"@,
{
}

/// Terminals own their directories, and what nobody has is owned by nobody.
pub proof fn terminals_own_their_directories(
    workspaces: Seq<OwnedWorkspace>,
    terminals: Seq<Seq<u8>>,
    i: int,
    path: Seq<u8>,
)
    ensures
        0 <= i < terminals.len() ==> owns(workspaces, terminals, terminals[i]),
        (forall|k: int|
            0 <= k < terminals.len() ==> components(#[trigger] terminals[k]) != components(path))
            && workspaces.len() == 0 ==> !owns(workspaces, terminals, path),
{
    let all = had(workspaces, terminals);
    let n = session_claims(workspaces, workspaces.len()).len();
    if 0 <= i < terminals.len() {
        assert(all[n + i] == terminals[i]);
    }
    if workspaces.len() == 0 {
        assert(all =~= terminals);
    }
}

/// Where nothing new is told, what was known of the reports stays as it was.
pub proof fn quiet_polls_keep_what_is_known(
    runtime: CleanupRuntime,
    service: Service,
    owned: Seq<Seq<u8>>,
    now: u64,
    after: CleanupRuntime,
    event: Option<Snapshot>,
)
    requires
        runtime.publishes(service, owned, now, after, event),
        event is None,
    ensures
        after.generation == runtime.generation,
        after.report_generation == runtime.report_generation,
        after.notice == runtime.notice,
{
}

} // verus!
