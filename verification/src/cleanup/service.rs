//! The background work of cleanup: one bounded queue of commands, what is published of it,
//! and when each repository is looked at.
use vstd::prelude::*;

use super::engine::copy_records;
use super::policy::{record_views, Policy, PolicyView, Record, RecordView};
use super::store::{
    lemma_registered, registered, registration_views, Registration, RegistrationView, Settings,
    SettingsView,
};
use crate::path::{all_components, components, same_path, same_paths};
use crate::runtime_provider::{absolute, copy_bytes};
use crate::text::{paths, same, starts_with, text_of};

verus! {

/// How many commands wait at most.
pub const QUEUE_CAPACITY: usize = 16;

/// How many operations are remembered.
pub const REMEMBERED_OPERATIONS: usize = 64;

/// What a caller can ask cleanup for.
#[allow(inconsistent_fields)]
#[derive(Debug, PartialEq, Eq)]
pub enum Action {
    Inspect,
    Register { repository: Vec<u8> },
    Preview { repository: Option<Vec<u8>> },
    Reconcile { repository: Option<Vec<u8>> },
    Configure { repository: Option<Vec<u8>>, policy: Policy },
}

/// Work that waits: paths that a session has published, or what a caller asked for.
#[derive(Debug, PartialEq, Eq)]
pub enum Command {
    Sync { paths: Vec<Vec<u8>>, trigger: String },
    Action(u64, Action),
}

/// What became of an action.
#[derive(Debug, PartialEq, Eq)]
pub struct Operation {
    pub id: u64,
    pub state: String,
    pub diagnostic: Option<String>,
}

#[verifier::ext_equal]
pub struct OperationView {
    pub id: u64,
    pub state: Seq<char>,
    pub diagnostic: Option<Seq<char>>,
}

impl View for Operation {
    type V = OperationView;

    open spec fn view(&self) -> OperationView {
        OperationView {
            id: self.id,
            state: self.state@,
            diagnostic: text_of(self.diagnostic),
        }
    }
}

pub open spec fn operation_views(values: Seq<Operation>) -> Seq<OperationView> {
    Seq::new(values.len(), |i: int| values[i]@)
}

/// What is published of cleanup.
#[derive(Debug)]
pub struct Snapshot {
    pub boot_id: String,
    pub report_generation: u64,
    pub generation: u64,
    pub busy: bool,
    pub settings: Settings,
    pub records: Vec<Record>,
    pub diagnostic: Option<String>,
    pub operations: Vec<Operation>,
}

#[verifier::ext_equal]
pub struct SnapshotView {
    pub boot_id: Seq<char>,
    pub report_generation: u64,
    pub generation: u64,
    pub busy: bool,
    pub settings: SettingsView,
    pub records: Seq<RecordView>,
    pub diagnostic: Option<Seq<char>>,
    pub operations: Seq<OperationView>,
}

impl View for Snapshot {
    type V = SnapshotView;

    open spec fn view(&self) -> SnapshotView {
        SnapshotView {
            boot_id: self.boot_id@,
            report_generation: self.report_generation,
            generation: self.generation,
            busy: self.busy,
            settings: self.settings@,
            records: record_views(self.records@),
            diagnostic: text_of(self.diagnostic),
            operations: operation_views(self.operations@),
        }
    }
}

impl Clone for Snapshot {
    fn clone(&self) -> (r: Self)
        ensures
            r@ == self@,
    {
        let mut operations: Vec<Operation> = Vec::new();
        let mut i: usize = 0;
        while i < self.operations.len()
            invariant
                i <= self.operations@.len(),
                operations@.len() == i,
                forall|j: int| 0 <= j < i ==> (#[trigger] operations@[j])@ == self.operations@[j]@,
            decreases self.operations@.len() - i,
        {
            let operation = &self.operations[i];
            operations.push(
                Operation {
                    id: operation.id,
                    state: operation.state.clone(),
                    diagnostic: operation.diagnostic.clone(),
                },
            );
            i = i + 1;
        }
        assert(operation_views(operations@) =~= operation_views(self.operations@));
        Snapshot {
            boot_id: self.boot_id.clone(),
            report_generation: self.report_generation,
            generation: self.generation,
            busy: self.busy,
            settings: self.settings.clone(),
            records: copy_records(&self.records),
            diagnostic: self.diagnostic.clone(),
            operations,
        }
    }
}

/// The state that callers and the worker of cleanup share.
pub struct Service {
    pub queue: Vec<Command>,
    pub snapshot: Snapshot,
    pub sync_pending: bool,
    pub sequence: u64,
    /// The worker is gone and takes nothing any more.
    pub closed: bool,
    /// A writer of the snapshot died in the middle of it.
    pub poisoned: bool,
}

impl Service {
    pub open spec fn wf(self) -> bool {
        &&& self.queue@.len() <= QUEUE_CAPACITY
        &&& self.snapshot.operations@.len() <= REMEMBERED_OPERATIONS + 1
        &&& !self.snapshot.busy ==> self.snapshot.operations@.len() <= REMEMBERED_OPERATIONS
    }

    /// Why a command is not taken, if it is not.
    pub open spec fn refusal(self) -> Option<Seq<char>> {
        if self.closed {
            Some("sending on a closed channel"@)
        } else if self.queue@.len() >= QUEUE_CAPACITY {
            Some("sending on a full channel"@)
        } else {
            None
        }
    }

    /// A service that was just started: nothing waits, and nothing was reported yet.
    pub open spec fn is_fresh(self, boot_id: Seq<char>) -> bool {
        &&& self.queue@.len() == 0
        &&& self.snapshot.boot_id@ == boot_id
        &&& self.snapshot.report_generation == 0
        &&& self.snapshot.generation == 0
        &&& !self.snapshot.busy
        &&& self.snapshot.settings@ == (SettingsView {
            policy: PolicyView::standard(),
            repositories: Seq::empty(),
        })
        &&& self.snapshot.records@.len() == 0
        &&& self.snapshot.diagnostic is None
        &&& self.snapshot.operations@.len() == 0
        &&& !self.sync_pending
        &&& self.sequence == 1
        &&& !self.closed
        &&& !self.poisoned
    }

    pub fn start(boot_id: String) -> (r: Self)
        ensures
            r.wf(),
            r.is_fresh(boot_id@),
    {
        Service {
            queue: Vec::new(),
            snapshot: Snapshot {
                boot_id,
                report_generation: 0,
                generation: 0,
                busy: false,
                settings: Settings::default(),
                records: Vec::new(),
                diagnostic: None,
                operations: Vec::new(),
            },
            sync_pending: false,
            sequence: 1,
            closed: false,
            poisoned: false,
        }
    }

    fn send(&mut self, command: Command) -> (r: Result<(), String>)
        requires
            old(self).wf(),
        ensures
            final(self).wf(),
            match old(self).refusal() {
                Some(message) => r matches Err(text) && text@ == message && *final(self) == *old(self),
                None => r is Ok && *final(self) == (Service {
                    queue: final(self).queue,
                    ..*old(self)
                }) && final(self).queue@ == old(self).queue@.push(command),
            },
    {
        if self.closed {
            return Err("sending on a closed channel".to_owned());
        }
        if self.queue.len() >= QUEUE_CAPACITY {
            return Err("sending on a full channel".to_owned());
        }
        self.queue.push(command);
        Ok(())
    }

    /// Publish the paths of a session, unless an earlier list still waits.
    pub fn sync(&mut self, published: Vec<Vec<u8>>, trigger: String) -> (r: Result<(), String>)
        requires
            old(self).wf(),
        ensures
            final(self).wf(),
            old(self).sync_pending ==> r is Ok && *final(self) == *old(self),
            !old(self).sync_pending ==> (match old(self).refusal() {
                Some(message) => r matches Err(text) && text@ == message && *final(self) == *old(self),
                None => r is Ok && *final(self) == (Service {
                    queue: final(self).queue,
                    sync_pending: true,
                    ..*old(self)
                }) && final(self).queue@ == old(self).queue@.push(
                    Command::Sync { paths: published, trigger },
                ),
            }),
    {
        if self.sync_pending {
            return Ok(());
        }
        let result = self.send(Command::Sync { paths: published, trigger });
        if result.is_ok() {
            self.sync_pending = true;
        }
        result
    }

    /// Ask for an action. Every request uses up an id.
    pub fn submit(&mut self, action: Action) -> (r: Result<u64, String>)
        requires
            old(self).wf(),
        ensures
            final(self).wf(),
            final(self).sequence == old(self).sequence.wrapping_add(1),
            match old(self).refusal() {
                Some(message) => r matches Err(text) && text@ == message && *final(self) == (
                Service { sequence: final(self).sequence, ..*old(self) }),
                None => r == Ok::<u64, String>(old(self).sequence) && *final(self) == (Service {
                    sequence: final(self).sequence,
                    queue: final(self).queue,
                    ..*old(self)
                }) && final(self).queue@ == old(self).queue@.push(
                    Command::Action(old(self).sequence, action),
                ),
            },
    {
        let id: u64 = self.sequence;
        self.sequence = self.sequence.wrapping_add(1);
        match self.send(Command::Action(id, action)) {
            Ok(_) => Ok(id),
            Err(message) => Err(message),
        }
    }

    /// What is published.
    pub fn snapshot(&self) -> (r: Result<Snapshot, String>)
        ensures
            r is Ok <==> !self.poisoned,
            r matches Ok(snapshot) ==> snapshot@ == self.snapshot@,
            r matches Err(message) ==> message@ == "cleanup snapshot unavailable"@,
    {
        if self.poisoned {
            return Err("cleanup snapshot unavailable".to_owned());
        }
        Ok(self.snapshot.clone())
    }

    /// The worker takes the next command, if one waits; if none does, it looks after the
    /// repositories all the same. What it takes runs from here on.
    pub fn begin(&mut self) -> (r: Option<Command>)
        requires
            old(self).wf(),
            !old(self).snapshot.busy,
        ensures
            final(self).wf(),
            r is Some <==> old(self).queue@.len() > 0,
            r matches Some(command) ==> command == old(self).queue@[0] && final(self).queue@
                == old(self).queue@.skip(1),
            r is None ==> final(self).queue@ == old(self).queue@,
            final(self).sequence == old(self).sequence,
            final(self).closed == old(self).closed,
            final(self).poisoned == old(self).poisoned,
            final(self).sync_pending == (old(self).sync_pending && !(r matches Some(
                Command::Sync { .. },
            ))),
            final(self).snapshot@ == (SnapshotView {
                busy: true,
                operations: match r {
                    Some(Command::Action(id, _)) => old(self).snapshot@.operations.push(
                        OperationView { id, state: "running"@, diagnostic: None },
                    ),
                    _ => old(self).snapshot@.operations,
                },
                ..old(self).snapshot@
            }),
    {
        self.snapshot.busy = true;
        if self.queue.len() == 0 {
            return None;
        }
        let command = self.queue.remove(0);
        assert(self.queue@ =~= old(self).queue@.skip(1));
        match &command {
            Command::Sync { .. } => {
                self.sync_pending = false;
            },
            Command::Action(id, _) => {
                let operation = Operation {
                    id: *id,
                    state: "running".to_owned(),
                    diagnostic: None,
                };
                let ghost before = self.snapshot.operations@;
                let ghost added = operation@;
                self.snapshot.operations.push(operation);
                assert(operation_views(self.snapshot.operations@) =~= operation_views(before).push(
                    added,
                ));
            },
        }
        Some(command)
    }
}

/// The first operation, from `i` on, with an id.
pub open spec fn operation_at(operations: Seq<OperationView>, id: u64, i: nat) -> Option<nat>
    decreases operations.len() - i,
{
    if i >= operations.len() {
        None
    } else if operations[i as int].id == id {
        Some(i)
    } else {
        operation_at(operations, id, i + 1)
    }
}

/// The operations once the one with an id has come to an end.
pub open spec fn with_outcome(
    operations: Seq<OperationView>,
    id: Option<u64>,
    diagnostic: Option<Seq<char>>,
) -> Seq<OperationView> {
    match id {
        None => operations,
        Some(id) => match operation_at(operations, id, 0) {
            None => operations,
            Some(at) => operations.update(
                at as int,
                OperationView {
                    id,
                    state: if diagnostic is Some {
                        "failed"@
                    } else {
                        "completed"@
                    },
                    diagnostic,
                },
            ),
        },
    }
}

/// The last ones of the operations, as many as are remembered.
pub open spec fn remembered(operations: Seq<OperationView>) -> Seq<OperationView> {
    if operations.len() > REMEMBERED_OPERATIONS {
        operations.skip(operations.len() - REMEMBERED_OPERATIONS)
    } else {
        operations
    }
}

pub open spec fn next_generation(n: u64) -> u64 {
    if n == u64::MAX {
        n
    } else {
        (n + 1) as u64
    }
}

impl Service {
    /// What the worker did has come to an end. `id` is that of the action it was, if it was
    /// one.
    pub fn finish(&mut self, id: Option<u64>, result: Result<(), String>)
        requires
            old(self).wf(),
        ensures
            final(self).wf(),
            *final(self) == (Service { snapshot: final(self).snapshot, ..*old(self) }),
            ({
                let diagnostic = match result {
                    Ok(_) => None,
                    Err(message) => Some(message@),
                };
                final(self).snapshot@ == (SnapshotView {
                    busy: false,
                    generation: next_generation(old(self).snapshot.generation),
                    diagnostic,
                    operations: remembered(
                        with_outcome(old(self).snapshot@.operations, id, diagnostic),
                    ),
                    ..old(self).snapshot@
                })
            }),
    {
        self.snapshot.busy = false;
        self.snapshot.generation = self.snapshot.generation.saturating_add(1);
        self.snapshot.diagnostic = match result {
            Ok(_) => None,
            Err(message) => Some(message),
        };
        let ghost diagnostic = text_of(self.snapshot.diagnostic);
        let ghost before = operation_views(self.snapshot.operations@);
        let mut operations: Vec<Operation> = Vec::new();
        std::mem::swap(&mut operations, &mut self.snapshot.operations);
        if let Some(id) = id {
            let mut i: usize = 0;
            let mut found: bool = false;
            while i < operations.len() && !found
                invariant
                    i <= operations@.len(),
                    operation_views(operations@) == before,
                    operation_at(before, id, 0) == operation_at(before, id, i as nat),
                    found ==> i < operations@.len() && operations@[i as int].id == id,
                decreases operations@.len() - i, if found { 0int } else { 1int },
            {
                assert(before[i as int] == operations@[i as int]@);
                if operations[i].id == id {
                    found = true;
                } else {
                    i = i + 1;
                }
            }
            if found {
                assert(before[i as int] == operations@[i as int]@);
                let state = if self.snapshot.diagnostic.is_some() {
                    "failed".to_owned()
                } else {
                    "completed".to_owned()
                };
                operations.set(
                    i,
                    Operation { id, state, diagnostic: self.snapshot.diagnostic.clone() },
                );
                assert(operation_views(operations@) =~= with_outcome(before, Some(id), diagnostic));
            }
        }
        assert(operation_views(operations@) =~= with_outcome(before, id, diagnostic));
        assert(operations@.len() == before.len());
        if operations.len() > REMEMBERED_OPERATIONS {
            let ghost all = operations@;
            let kept = operations.split_off(operations.len() - REMEMBERED_OPERATIONS);
            assert(operation_views(kept@) =~= operation_views(all).skip(
                all.len() - REMEMBERED_OPERATIONS,
            ));
            operations = kept;
        }
        self.snapshot.operations = operations;
    }

    /// Publish the settings alone. This is all that an inspection does.
    pub fn publish_settings(&mut self, settings: Settings)
        requires
            old(self).wf(),
        ensures
            final(self).wf(),
            *final(self) == (Service { snapshot: final(self).snapshot, ..*old(self) }),
            final(self).snapshot@ == (SnapshotView {
                settings: settings@,
                ..old(self).snapshot@
            }),
    {
        self.snapshot.settings = settings;
    }

    /// Publish what a round over the repositories came to. A round without records leaves
    /// the last report in place.
    pub fn publish_round(&mut self, settings: Settings, records: Vec<Record>)
        requires
            old(self).wf(),
        ensures
            final(self).wf(),
            *final(self) == (Service { snapshot: final(self).snapshot, ..*old(self) }),
            final(self).snapshot@ == (if records@.len() == 0 {
                SnapshotView { settings: settings@, ..old(self).snapshot@ }
            } else {
                SnapshotView {
                    settings: settings@,
                    report_generation: next_generation(old(self).snapshot.report_generation),
                    records: record_views(records@),
                    ..old(self).snapshot@
                }
            }),
    {
        self.snapshot.settings = settings;
        if records.len() > 0 {
            self.snapshot.report_generation = self.snapshot.report_generation.saturating_add(1);
            self.snapshot.records = records;
        }
    }
}

/// What a command asks of the round over the repositories that follows it.
pub struct Prepared {
    pub settings: Settings,
    pub preview: bool,
    pub selected: Option<Vec<u8>>,
    pub trigger: String,
    pub force: bool,
}

/// The settings with one more repository, unless it is registered already.
pub open spec fn with_repository(settings: SettingsView, root: Seq<u8>) -> SettingsView {
    if registered(settings.repositories, root, 0) is Some {
        settings
    } else {
        SettingsView {
            repositories: settings.repositories.push(
                RegistrationView { repository: root, policy: None, next_attempt: 0, failures: 0 },
            ),
            ..settings
        }
    }
}

/// The settings with the repositories of the first `n` paths, where they belong to one.
pub open spec fn with_repositories(
    settings: SettingsView,
    roots: Seq<Option<Vec<u8>>>,
    n: nat,
) -> SettingsView
    decreases n,
{
    if n == 0 {
        settings
    } else {
        let before = with_repositories(settings, roots, (n - 1) as nat);
        match roots[n - 1] {
            Some(root) => with_repository(before, root@),
            None => before,
        }
    }
}

fn register(settings: &mut Settings, root: &Vec<u8>)
    ensures
        final(settings)@ == with_repository(old(settings)@, root@),
{
    if settings.position(root).is_none() {
        let entry = Registration {
            repository: copy_bytes(root),
            policy: None,
            next_attempt: 0,
            failures: 0,
        };
        let ghost added = entry@;
        let ghost before = settings.repositories@;
        settings.repositories.push(entry);
        assert(registration_views(settings.repositories@) =~= registration_views(before).push(
            added,
        ));
        assert(settings@ =~= with_repository(old(settings)@, root@));
    }
}

/// Some of the first `n` paths are not absolute.
pub open spec fn any_relative(values: Seq<Seq<u8>>, n: nat) -> bool
    decreases n,
{
    n > 0 && (any_relative(values, (n - 1) as nat) || !absolute(values[n - 1]))
}

/// The paths, each in its canonical form where it has one.
pub open spec fn canonical_paths(
    values: Seq<Seq<u8>>,
    canonical: Seq<Option<Vec<u8>>>,
) -> Seq<Seq<u8>> {
    Seq::new(
        values.len(),
        |i: int|
            match canonical[i] {
                Some(path) => path@,
                None => values[i],
            },
    )
}

/// What the worker of cleanup knows between rounds.
pub struct Worker {
    /// A session has published what it owns. Nothing is removed before.
    pub ready: bool,
    pub owned_paths: Vec<Vec<u8>>,
    /// What the references of each repository were when it was last looked at, by its shared
    /// Git directory.
    pub fingerprints: Vec<(Vec<u8>, String)>,
}

impl Worker {
    pub fn new() -> (r: Self)
        ensures
            !r.ready,
            r.owned_paths@.len() == 0,
            r.fingerprints@.len() == 0,
    {
        Worker { ready: false, owned_paths: Vec::new(), fingerprints: Vec::new() }
    }

    /// Whether a command only inspects. An inspection publishes the settings, and no round
    /// over the repositories follows it.
    pub fn only_inspects(command: &Option<Command>) -> (r: bool)
        ensures
            r == (command matches Some(Command::Action(_, Action::Inspect))),
    {
        match command {
            Some(Command::Action(_, Action::Inspect)) => true,
            _ => false,
        }
    }

    /// The round without a command.
    pub fn periodic(settings: Settings) -> (r: Prepared)
        ensures
            r.settings@ == settings@,
            !r.preview,
            r.selected is None,
            r.trigger@ == "periodic"@,
            !r.force,
    {
        Prepared {
            settings,
            preview: false,
            selected: None,
            trigger: "periodic".to_owned(),
            force: false,
        }
    }

    /// A session has published its paths, and its ownership was saved. `roots` are the
    /// primary checkouts of the repositories that the paths belong to; paths outside a
    /// repository register none.
    pub fn synchronize(
        &mut self,
        settings: Settings,
        published: Vec<Vec<u8>>,
        trigger: String,
        roots: &Vec<Option<Vec<u8>>>,
    ) -> (r: Prepared)
        requires
            roots@.len() == published@.len(),
        ensures
            final(self).ready,
            paths(final(self).owned_paths@) == paths(published@),
            final(self).fingerprints == old(self).fingerprints,
            r.force == (!old(self).ready || all_components(paths(old(self).owned_paths@))
                != all_components(paths(published@))),
            r.settings@ == (if r.force {
                with_repositories(settings@, roots@, roots@.len())
            } else {
                settings@
            }),
            !r.preview,
            r.selected is None,
            r.trigger == trigger,
    {
        let changed: bool = !same_paths(&self.owned_paths, &published);
        let force: bool = !self.ready || changed;
        self.owned_paths = published;
        self.ready = true;
        let mut settings = settings;
        let ghost start = settings@;
        if force {
            let mut i: usize = 0;
            while i < roots.len()
                invariant
                    i <= roots@.len(),
                    settings@ == with_repositories(start, roots@, i as nat),
                decreases roots@.len() - i,
            {
                if let Some(root) = &roots[i] {
                    register(&mut settings, root);
                }
                i = i + 1;
            }
        }
        Prepared { settings, preview: false, selected: None, trigger, force }
    }

    /// A repository is to be looked after. `root` is its primary checkout.
    pub fn register_repository(settings: Settings, root: &Vec<u8>) -> (r: Prepared)
        ensures
            r.settings@ == with_repository(settings@, root@),
            !r.preview,
            r.selected is None,
            r.trigger@ == "repository_registered"@,
            !r.force,
    {
        let mut settings = settings;
        register(&mut settings, root);
        Prepared {
            settings,
            preview: false,
            selected: None,
            trigger: "repository_registered".to_owned(),
            force: false,
        }
    }

    /// A policy is to hold, for a repository or for all. `canonical` are the canonical forms
    /// of the paths that it retains, and `root` the primary checkout of the repository, if
    /// one was named.
    pub fn configure(
        settings: Settings,
        policy: Policy,
        canonical: &Vec<Option<Vec<u8>>>,
        root: &Option<Vec<u8>>,
    ) -> (r: Result<Prepared, String>)
        requires
            canonical@.len() == policy.retained_worktrees@.len(),
        ensures
            ({
                let held = PolicyView {
                    retained_worktrees: canonical_paths(policy@.retained_worktrees, canonical@),
                    ..policy@
                };
                if any_relative(policy@.retained_worktrees, policy@.retained_worktrees.len()) {
                    r matches Err(message) && message@
                        == "retained worktree paths must be absolute"@
                } else {
                    match root {
                        Some(root) => match registered(settings@.repositories, root@, 0) {
                            None => r matches Err(message) && message@
                                == "repository must be registered before configuring"@,
                            Some(at) => r matches Ok(prepared) && prepared.configured(
                                SettingsView {
                                    repositories: settings@.repositories.update(
                                        at as int,
                                        RegistrationView {
                                            policy: Some(held),
                                            next_attempt: 0,
                                            ..settings@.repositories[at as int]
                                        },
                                    ),
                                    ..settings@
                                },
                            ),
                        },
                        None => r matches Ok(prepared) && prepared.configured(
                            SettingsView { policy: held, ..settings@ },
                        ),
                    }
                }
            }),
    {
        let ghost given = policy@;
        let mut retained: Vec<Vec<u8>> = Vec::new();
        let mut i: usize = 0;
        while i < policy.retained_worktrees.len()
            invariant
                i <= policy.retained_worktrees@.len() == canonical@.len(),
                given == policy@,
                !any_relative(given.retained_worktrees, i as nat),
                retained@.len() == i,
                forall|j: int|
                    0 <= j < i ==> (#[trigger] retained@[j])@ == canonical_paths(
                        given.retained_worktrees,
                        canonical@,
                    )[j],
            decreases policy.retained_worktrees@.len() - i,
        {
            let path = &policy.retained_worktrees[i];
            assert(given.retained_worktrees[i as int] == path@);
            if path.len() == 0 || path[0] != 0x2f {
                proof {
                    lemma_any_relative(
                        given.retained_worktrees,
                        i as int,
                        given.retained_worktrees.len(),
                    );
                }
                return Err("retained worktree paths must be absolute".to_owned());
            }
            match &canonical[i] {
                Some(found) => {
                    retained.push(copy_bytes(found));
                },
                None => {
                    retained.push(copy_bytes(path));
                },
            }
            i = i + 1;
        }
        let mut policy = policy;
        policy.retained_worktrees = retained;
        assert(paths(retained@) =~= canonical_paths(given.retained_worktrees, canonical@));
        let ghost held = policy@;
        let mut settings = settings;
        let ghost before = settings@;
        if let Some(root) = root {
            match settings.position(root) {
                None => {
                    return Err("repository must be registered before configuring".to_owned());
                },
                Some(at) => {
                    let entry = Registration {
                        repository: copy_bytes(&settings.repositories[at].repository),
                        policy: Some(policy),
                        next_attempt: 0,
                        failures: settings.repositories[at].failures,
                    };
                    let ghost added = entry@;
                    let ghost all = settings.repositories@;
                    assert(registration_views(all)[at as int] == all[at as int]@);
                    settings.repositories.set(at, entry);
                    assert(registration_views(settings.repositories@) =~= registration_views(
                        all,
                    ).update(at as int, added));
                },
            }
        } else {
            settings.policy = policy;
        }
        Ok(
            Prepared {
                settings,
                preview: false,
                selected: None,
                trigger: "configuration_changed".to_owned(),
                force: true,
            },
        )
    }

    /// Repositories are to be looked at, in a preview or for good.
    pub fn requested(settings: Settings, repository: Option<Vec<u8>>, preview: bool) -> (r: Prepared)
        ensures
            r.settings@ == settings@,
            r.preview == preview,
            r.selected == repository,
            r.trigger@ == (if preview {
                "preview"@
            } else {
                "manual"@
            }),
            r.force,
    {
        let trigger = if preview {
            "preview".to_owned()
        } else {
            "manual".to_owned()
        };
        Prepared { settings, preview, selected: repository, trigger, force: true }
    }
}

proof fn lemma_any_relative(values: Seq<Seq<u8>>, i: int, n: nat)
    requires
        0 <= i < n <= values.len(),
        !absolute(values[i]),
    ensures
        any_relative(values, n),
    decreases n,
{
    if i < n - 1 {
        lemma_any_relative(values, i, (n - 1) as nat);
    }
}

impl Prepared {
    /// A policy has changed: that alone is a reason to look at every repository.
    pub open spec fn configured(self, settings: SettingsView) -> bool {
        &&& self.settings@ == settings
        &&& !self.preview
        &&& self.selected is None
        &&& self.trigger@ == "configuration_changed"@
        &&& self.force
    }
}

/// What Git and the file system say of what a command names.
pub struct CommandFacts {
    /// The primary checkout of the repository that each published path belongs to.
    pub roots: Vec<Option<Vec<u8>>>,
    /// The canonical form of each path that a policy retains.
    pub canonical: Vec<Option<Vec<u8>>>,
    /// The primary checkout of the repository that is named, or why it could not be opened.
    pub root: Option<Result<Vec<u8>, String>>,
}

impl CommandFacts {
    /// These facts are about what `command` names.
    pub open spec fn about(self, command: Option<Command>) -> bool {
        match command {
            Some(Command::Sync { paths: published, .. }) => self.roots@.len() == published@.len(),
            Some(Command::Action(_, action)) => match action {
                Action::Register { .. } => self.root is Some,
                Action::Configure { repository, policy } => {
                    &&& self.canonical@.len() == policy.retained_worktrees@.len()
                    &&& repository is Some <==> self.root is Some
                },
                Action::Inspect => false,
                _ => true,
            },
            None => true,
        }
    }
}

impl Prepared {
    pub open spec fn asks(
        self,
        settings: SettingsView,
        trigger: Seq<char>,
        preview: bool,
        selected: Option<Vec<u8>>,
        force: bool,
    ) -> bool {
        &&& self.settings@ == settings
        &&& self.trigger@ == trigger
        &&& self.preview == preview
        &&& self.selected == selected
        &&& self.force == force
    }
}

/// The settings once a policy was configured, or why it was not.
pub open spec fn configured(settings: SettingsView, policy: PolicyView, facts: CommandFacts) -> Result<
    SettingsView,
    Seq<char>,
> {
    let held = PolicyView {
        retained_worktrees: canonical_paths(policy.retained_worktrees, facts.canonical@),
        ..policy
    };
    if any_relative(policy.retained_worktrees, policy.retained_worktrees.len()) {
        Err("retained worktree paths must be absolute"@)
    } else {
        match facts.root {
            Some(Err(message)) => Err(message@),
            Some(Ok(root)) => match registered(settings.repositories, root@, 0) {
                None => Err("repository must be registered before configuring"@),
                Some(at) => Ok(
                    SettingsView {
                        repositories: settings.repositories.update(
                            at as int,
                            RegistrationView {
                                policy: Some(held),
                                next_attempt: 0,
                                ..settings.repositories[at as int]
                            },
                        ),
                        ..settings
                    },
                ),
            },
            None => Ok(SettingsView { policy: held, ..settings }),
        }
    }
}

impl Worker {
    /// What a command makes of the settings, and what it asks of the round that follows.
    pub open spec fn prepares(
        self,
        settings: SettingsView,
        command: Option<Command>,
        facts: CommandFacts,
        after: Self,
        r: Result<Prepared, String>,
    ) -> bool {
        match command {
            None => after == self && (r matches Ok(prepared) && prepared.asks(
                settings,
                "periodic"@,
                false,
                None,
                false,
            )),
            Some(Command::Sync { paths: published, trigger }) => {
                let force = !self.ready || all_components(paths(self.owned_paths@)) != all_components(
                    paths(published@),
                );
                &&& after.ready
                &&& paths(after.owned_paths@) == paths(published@)
                &&& after.fingerprints == self.fingerprints
                &&& r matches Ok(prepared) && prepared.asks(
                    if force {
                        with_repositories(settings, facts.roots@, facts.roots@.len())
                    } else {
                        settings
                    },
                    trigger@,
                    false,
                    None,
                    force,
                )
            },
            Some(Command::Action(_, action)) => after == self && match action {
                Action::Register { .. } => match facts.root->0 {
                    Ok(root) => r matches Ok(prepared) && prepared.asks(
                        with_repository(settings, root@),
                        "repository_registered"@,
                        false,
                        None,
                        false,
                    ),
                    Err(error) => r matches Err(message) && message@ == error@,
                },
                Action::Configure { policy, .. } => match configured(settings, policy@, facts) {
                    Ok(changed) => r matches Ok(prepared) && prepared.asks(
                        changed,
                        "configuration_changed"@,
                        false,
                        None,
                        true,
                    ),
                    Err(error) => r matches Err(message) && message@ == error,
                },
                Action::Preview { repository } => r matches Ok(prepared) && prepared.asks(
                    settings,
                    "preview"@,
                    true,
                    repository,
                    true,
                ),
                Action::Reconcile { repository } => r matches Ok(prepared) && prepared.asks(
                    settings,
                    "manual"@,
                    false,
                    repository,
                    true,
                ),
                Action::Inspect => true,
            },
        }
    }

    /// Take a command up, or none for the periodic round. An inspection asks for no round.
    pub fn prepare(
        &mut self,
        settings: Settings,
        command: Option<Command>,
        facts: CommandFacts,
    ) -> (r: Result<Prepared, String>)
        requires
            facts.about(command),
        ensures
            old(self).prepares(settings@, command, facts, *final(self), r),
    {
        let action = match command {
            None => {
                return Ok(Worker::periodic(settings));
            },
            Some(Command::Sync { paths: published, trigger }) => {
                return Ok(self.synchronize(settings, published, trigger, &facts.roots));
            },
            Some(Command::Action(_, action)) => action,
        };
        match action {
            Action::Inspect => Ok(Worker::periodic(settings)),
            Action::Register { .. } => match facts.root {
                Some(Ok(root)) => Ok(Worker::register_repository(settings, &root)),
                Some(Err(message)) => Err(message),
                None => Ok(Worker::periodic(settings)),
            },
            Action::Configure { policy, .. } => {
                let root: Option<Vec<u8>> = match facts.root {
                    Some(Ok(root)) => Some(root),
                    Some(Err(message)) => {
                        // Paths that cannot be retained are told before a repository that
                        // cannot be opened.
                        return match Worker::configure(
                            settings,
                            policy,
                            &facts.canonical,
                            &None,
                        ) {
                            Ok(_) => Err(message),
                            Err(relative) => Err(relative),
                        };
                    },
                    None => None,
                };
                Worker::configure(settings, policy, &facts.canonical, &root)
            },
            Action::Preview { repository } => Ok(Worker::requested(settings, repository, true)),
            Action::Reconcile { repository } => Ok(Worker::requested(settings, repository, false)),
        }
    }
}

impl Worker {
    /// Whether a round is made at all, and for a repository that is registered. `selected` is
    /// the primary checkout of the one that was asked for, if one was.
    pub fn admitted(&self, settings: &Settings, selected: &Option<Vec<u8>>) -> (r: Result<
        (),
        String,
    >)
        ensures
            r is Ok <==> self.ready && (selected matches Some(root) ==> registered(
                settings@.repositories,
                root@,
                0,
            ) is Some),
            r matches Err(message) ==> message@ == (if !self.ready {
                "waiting for authoritative session ownership"@
            } else {
                "repository is not registered"@
            }),
    {
        if !self.ready {
            return Err("waiting for authoritative session ownership".to_owned());
        }
        if let Some(root) = selected {
            if settings.position(root).is_none() {
                return Err("repository is not registered".to_owned());
            }
        }
        Ok(())
    }

    /// Whether a registered repository takes part in a round: it is the one that was asked
    /// for, and cleanup is enabled for it or only previewed.
    pub fn takes_part(
        settings: &Settings,
        registration: &Registration,
        selected: &Option<Vec<u8>>,
        preview: bool,
    ) -> (r: bool)
        ensures
            r == ((selected matches Some(root) ==> components(root@) == components(
                registration@.repository,
            )) && (preview
                || (match registration@.policy {
                Some(policy) => policy.enabled,
                None => settings@.policy.enabled,
            }))),
    {
        if let Some(root) = selected {
            if !same_path(root, &registration.repository) {
                return false;
            }
        }
        let enabled: bool = match &registration.policy {
            Some(policy) => policy.enabled,
            None => settings.policy.enabled,
        };
        preview || enabled
    }
}

/// The first fingerprint, from `i` on, of a repository.
pub open spec fn fingerprint_of(
    fingerprints: Seq<(Vec<u8>, String)>,
    common: Seq<u8>,
    i: nat,
) -> Option<Seq<char>>
    decreases fingerprints.len() - i,
{
    if i >= fingerprints.len() {
        None
    } else if components(fingerprints[i as int].0@) == components(common) {
        Some(fingerprints[i as int].1@)
    } else {
        fingerprint_of(fingerprints, common, i + 1)
    }
}

proof fn lemma_fingerprint_of(
    fingerprints: Seq<(Vec<u8>, String)>,
    common: Seq<u8>,
    i: nat,
    at: int,
)
    requires
        i <= at < fingerprints.len(),
        components(fingerprints[at].0@) == components(common),
        forall|j: int|
            i <= j < at ==> components((#[trigger] fingerprints[j]).0@) != components(common),
    ensures
        fingerprint_of(fingerprints, common, i) == Some(fingerprints[at].1@),
    decreases at - i,
{
    if i < at {
        lemma_fingerprint_of(fingerprints, common, i + 1, at);
    }
}

proof fn lemma_other_fingerprint(
    before: Seq<(Vec<u8>, String)>,
    after: Seq<(Vec<u8>, String)>,
    common: Seq<u8>,
    i: nat,
)
    requires
        i <= before.len() <= after.len(),
        forall|j: int|
            0 <= j < before.len() ==> components((#[trigger] after[j]).0@) == components(
                before[j].0@,
            ) && (components(before[j].0@) == components(common) ==> after[j].1@ == before[j].1@),
        forall|j: int|
            before.len() <= j < after.len() ==> components((#[trigger] after[j]).0@) != components(
                common,
            ),
    ensures
        fingerprint_of(after, common, i) == fingerprint_of(before, common, i),
    decreases after.len() - i,
{
    if i < before.len() {
        if components(before[i as int].0@) != components(common) {
            lemma_other_fingerprint(before, after, common, i + 1);
        }
    } else {
        lemma_no_fingerprint(after, common, i);
    }
}

proof fn lemma_no_fingerprint(after: Seq<(Vec<u8>, String)>, common: Seq<u8>, i: nat)
    requires
        forall|j: int|
            i <= j < after.len() ==> components((#[trigger] after[j]).0@) != components(common),
    ensures
        fingerprint_of(after, common, i) is None,
    decreases after.len() - i,
{
    if i < after.len() {
        lemma_no_fingerprint(after, common, i + 1);
    }
}

impl Worker {
    /// Take note of the references of a repository, and say whether they have changed since
    /// it was last looked at.
    pub fn note_fingerprint(&mut self, common: &Vec<u8>, fingerprint: &str) -> (r: bool)
        ensures
            r == (fingerprint_of(old(self).fingerprints@, common@, 0) != Some(fingerprint@)),
            forall|other: Seq<u8>| #[trigger]
                fingerprint_of(final(self).fingerprints@, other, 0) == (if components(other)
                    == components(common@) {
                    Some(fingerprint@)
                } else {
                    fingerprint_of(old(self).fingerprints@, other, 0)
                }),
            final(self).ready == old(self).ready,
            final(self).owned_paths == old(self).owned_paths,
    {
        let ghost before = self.fingerprints@;
        let mut i: usize = 0;
        while i < self.fingerprints.len()
            invariant
                i <= self.fingerprints@.len(),
                *self == *old(self),
                before == self.fingerprints@,
                forall|j: int|
                    0 <= j < i ==> components((#[trigger] before[j]).0@) != components(common@),
                fingerprint_of(before, common@, 0) == fingerprint_of(before, common@, i as nat),
            decreases self.fingerprints@.len() - i,
        {
            if same_path(&self.fingerprints[i].0, common) {
                let changed: bool = !same(self.fingerprints[i].1.as_str(), fingerprint);
                self.fingerprints.set(i, (copy_bytes(common), fingerprint.to_owned()));
                proof {
                    let after = self.fingerprints@;
                    assert forall|other: Seq<u8>| #[trigger]
                        fingerprint_of(after, other, 0) == (if components(other) == components(
                            common@,
                        ) {
                            Some(fingerprint@)
                        } else {
                            fingerprint_of(before, other, 0)
                        }) by {
                        if components(other) == components(common@) {
                            lemma_fingerprint_of(after, other, 0, i as int);
                        } else {
                            lemma_other_fingerprint(before, after, other, 0);
                        }
                    }
                }
                return changed;
            }
            i = i + 1;
        }
        self.fingerprints.push((copy_bytes(common), fingerprint.to_owned()));
        proof {
            let after = self.fingerprints@;
            assert forall|other: Seq<u8>| #[trigger]
                fingerprint_of(after, other, 0) == (if components(other) == components(common@) {
                    Some(fingerprint@)
                } else {
                    fingerprint_of(before, other, 0)
                }) by {
                if components(other) == components(common@) {
                    lemma_fingerprint_of(after, other, 0, before.len() as int);
                } else {
                    lemma_other_fingerprint(before, after, other, 0);
                }
            }
        }
        true
    }

    /// Whether a repository is looked at now: it was asked for, its time has come, or its
    /// references have changed since the last look that did not fail.
    pub fn is_due(force: bool, changed: bool, registration: &Registration, now: u64) -> (r: bool)
        ensures
            r == (force || registration.next_attempt <= now || (changed && registration.failures
                == 0)),
    {
        force || registration.next_attempt <= now || (changed && registration.failures == 0)
    }
}

/// What sets off the look at a repository.
pub fn look_trigger(changed: bool, trigger: &str) -> (r: String)
    ensures
        r@ == (if changed {
            "git_references_changed"@
        } else {
            trigger@
        }),
{
    if changed {
        "git_references_changed".to_owned()
    } else {
        trigger.to_owned()
    }
}

/// A record says that the remote could not be reached.
pub open spec fn offline(record: RecordView) -> bool {
    "integration unavailable:"@.is_prefix_of(record.reason)
}

pub open spec fn any_offline(records: Seq<RecordView>) -> bool {
    exists|i: int| 0 <= i < records.len() && offline(#[trigger] records[i])
}

fn has_offline(records: &Vec<Record>) -> (r: bool)
    ensures
        r == any_offline(record_views(records@)),
{
    let ghost views = record_views(records@);
    let mut i: usize = 0;
    while i < records.len()
        invariant
            i <= records@.len(),
            views == record_views(records@),
            forall|j: int| 0 <= j < i ==> !offline(#[trigger] views[j]),
        decreases records@.len() - i,
    {
        assert(views[i as int] == records@[i as int]@);
        if starts_with(records[i].reason.as_str(), "integration unavailable:") {
            assert(offline(views[i as int]));
            return true;
        }
        i = i + 1;
    }
    false
}

/// How long a repository is left alone, in seconds: five minutes, or twice as long after
/// each failure, from one minute up to an hour.
pub open spec fn pause(failures: u32) -> u64 {
    if failures == 0 {
        300
    } else if failures == 1 {
        60
    } else if failures == 2 {
        120
    } else if failures == 3 {
        240
    } else if failures == 4 {
        480
    } else if failures == 5 {
        960
    } else if failures == 6 {
        1920
    } else {
        3600
    }
}

fn pause_of(failures: u32) -> (r: u64)
    ensures
        r == pause(failures),
{
    if failures == 0 {
        return 300;
    }
    let doublings: u32 = if failures < 7 {
        failures
    } else {
        7
    };
    let mut seconds: u64 = 30;
    let mut i: u32 = 0;
    while i < doublings
        invariant
            i <= doublings <= 7,
            i == 0 ==> seconds == 30,
            i == 1 ==> seconds == 60,
            i == 2 ==> seconds == 120,
            i == 3 ==> seconds == 240,
            i == 4 ==> seconds == 480,
            i == 5 ==> seconds == 960,
            i == 6 ==> seconds == 1920,
            i == 7 ==> seconds == 3840,
        decreases doublings - i,
    {
        seconds = seconds * 2;
        i = i + 1;
    }
    if seconds < 3600 {
        seconds
    } else {
        3600
    }
}

impl Registration {
    /// What is known of a repository's failures once it was looked at.
    pub open spec fn failures_after(self, failed: bool) -> u32 {
        if !failed {
            0
        } else if self.failures == u32::MAX {
            u32::MAX
        } else {
            (self.failures + 1) as u32
        }
    }

    /// Take note of what a look at the repository came to: when it is looked at next depends
    /// on how often it failed in a row. A remote that cannot be reached counts as a failure.
    pub fn settle(&mut self, outcome: &Result<Vec<Record>, String>, now: u64)
        ensures
            ({
                let failed = match outcome {
                    Ok(records) => any_offline(record_views(records@)),
                    Err(_) => true,
                };
                let failures = old(self).failures_after(failed);
                *final(self) == (Registration {
                    failures,
                    next_attempt: if now + pause(failures) > u64::MAX {
                        u64::MAX
                    } else {
                        (now + pause(failures)) as u64
                    },
                    ..*old(self)
                })
            }),
    {
        let failed: bool = match outcome {
            Ok(records) => has_offline(records),
            Err(_) => true,
        };
        self.failures = if failed {
            self.failures.saturating_add(1)
        } else {
            0
        };
        self.next_attempt = now.saturating_add(pause_of(self.failures));
    }
}

/// Settings with the schedule that the first `n` updates give; policies stay as they are.
pub open spec fn rescheduled(
    fresh: Seq<RegistrationView>,
    updates: Seq<RegistrationView>,
    n: nat,
) -> Seq<RegistrationView>
    decreases n,
{
    if n == 0 {
        fresh
    } else {
        let before = rescheduled(fresh, updates, (n - 1) as nat);
        match registered(before, updates[n - 1].repository, 0) {
            Some(at) => before.update(
                at as int,
                RegistrationView {
                    next_attempt: updates[n - 1].next_attempt,
                    failures: updates[n - 1].failures,
                    ..before[at as int]
                },
            ),
            None => before,
        }
    }
}

/// Put the schedule of a round into settings that may have been changed meanwhile.
pub fn merge_schedule(fresh: Settings, updates: &Vec<Registration>) -> (r: Settings)
    ensures
        r@ == (SettingsView {
            repositories: rescheduled(
                fresh@.repositories,
                registration_views(updates@),
                updates@.len(),
            ),
            ..fresh@
        }),
{
    let ghost start = fresh@;
    let ghost changes = registration_views(updates@);
    let mut merged = fresh;
    let mut i: usize = 0;
    while i < updates.len()
        invariant
            i <= updates@.len(),
            changes == registration_views(updates@),
            merged@ == (SettingsView {
                repositories: rescheduled(start.repositories, changes, i as nat),
                ..start
            }),
        decreases updates@.len() - i,
    {
        let update = &updates[i];
        assert(changes[i as int] == update@);
        let ghost all = merged.repositories@;
        if let Some(at) = merged.position(&update.repository) {
            assert(registration_views(all)[at as int] == all[at as int]@);
            let mut entry = merged.repositories[at].clone();
            entry.next_attempt = update.next_attempt;
            entry.failures = update.failures;
            let ghost added = entry@;
            merged.repositories.set(at, entry);
            assert(registration_views(merged.repositories@) =~= registration_views(all).update(
                at as int,
                added,
            ));
        }
        i = i + 1;
    }
    merged
}

/// The texts of what went wrong, joined.
pub open spec fn joined_texts(values: Seq<Seq<char>>, n: nat) -> Seq<char>
    decreases n,
{
    if n == 0 {
        Seq::empty()
    } else if n == 1 {
        values[0]
    } else {
        joined_texts(values, (n - 1) as nat) + "; "@ + values[n - 1]
    }
}

/// What a round comes to: nothing went wrong, or all that did.
pub fn round_result(diagnostics: &Vec<String>) -> (r: Result<(), String>)
    ensures
        r is Ok <==> diagnostics@.len() == 0,
        r matches Err(message) ==> message@ == joined_texts(
            crate::text::texts(diagnostics@),
            diagnostics@.len(),
        ),
{
    if diagnostics.len() == 0 {
        return Ok(());
    }
    let ghost views = crate::text::texts(diagnostics@);
    let mut out = diagnostics[0].clone();
    let mut i: usize = 1;
    assert(views[0] == diagnostics@[0]@);
    while i < diagnostics.len()
        invariant
            1 <= i <= diagnostics@.len(),
            views == crate::text::texts(diagnostics@),
            out@ == joined_texts(views, i as nat),
        decreases diagnostics@.len() - i,
    {
        assert(views[i as int] == diagnostics@[i as int]@);
        out = out.concat("; ").concat(diagnostics[i].as_str());
        i = i + 1;
    }
    Err(out)
}

/// A round that reschedules repositories keeps every policy, and registers or drops none.
pub proof fn rescheduling_keeps_policies(
    fresh: Seq<RegistrationView>,
    updates: Seq<RegistrationView>,
    n: nat,
)
    requires
        n <= updates.len(),
    ensures
        rescheduled(fresh, updates, n).len() == fresh.len(),
        forall|i: int|
            0 <= i < fresh.len() ==> (#[trigger] rescheduled(fresh, updates, n)[i]).policy
                == fresh[i].policy && rescheduled(fresh, updates, n)[i].repository
                == fresh[i].repository,
    decreases n,
{
    if n > 0 {
        rescheduling_keeps_policies(fresh, updates, (n - 1) as nat);
        let before = rescheduled(fresh, updates, (n - 1) as nat);
        lemma_registered(before, updates[n - 1].repository, 0);
        assert forall|i: int| 0 <= i < fresh.len() implies (
        #[trigger] rescheduled(fresh, updates, n)[i]).policy == fresh[i].policy && rescheduled(
            fresh,
            updates,
            n,
        )[i].repository == fresh[i].repository by {
            assert(before[i].policy == fresh[i].policy);
        }
    }
}

proof fn lemma_operation_at(operations: Seq<OperationView>, id: u64, i: nat, k: int)
    requires
        i <= k < operations.len(),
        operations[k].id == id,
    ensures
        operation_at(operations, id, i) matches Some(at) && i <= at <= k && operations[at as int].id
            == id,
    decreases operations.len() - i,
{
    if operations[i as int].id != id {
        lemma_operation_at(operations, id, i + 1, k);
    }
}

proof fn lemma_no_operation(operations: Seq<OperationView>, id: u64, i: nat)
    requires
        forall|k: int| i <= k < operations.len() ==> (#[trigger] operations[k]).id != id,
    ensures
        operation_at(operations, id, i) is None,
    decreases operations.len() - i,
{
    if i < operations.len() {
        assert(operations[i as int].id != id);
        lemma_no_operation(operations, id, i + 1);
    }
}

/// An operation that ended is told of under its number, as failed with what went wrong or as
/// completed, and no other operation changes.
pub proof fn operations_are_told_how_they_ended(
    operations: Seq<OperationView>,
    id: u64,
    diagnostic: Option<Seq<char>>,
    k: int,
    other: int,
)
    requires
        0 <= k < operations.len(),
        operations[k].id == id,
        forall|j: int| 0 <= j < operations.len() && j != k ==> (#[trigger] operations[j]).id != id,
        0 <= other < operations.len(),
        other != k,
    ensures
        with_outcome(operations, Some(id), diagnostic).len() == operations.len(),
        with_outcome(operations, Some(id), diagnostic)[k].id == id,
        with_outcome(operations, Some(id), diagnostic)[k].diagnostic == diagnostic,
        diagnostic is Some ==> with_outcome(operations, Some(id), diagnostic)[k].state
            == "failed"@,
        diagnostic is None ==> with_outcome(operations, Some(id), diagnostic)[k].state
            == "completed"@,
        with_outcome(operations, Some(id), diagnostic)[other] == operations[other],
        with_outcome(operations, None, diagnostic) == operations,
{
    lemma_operation_at(operations, id, 0, k);
}

/// The newest sixty-four operations are remembered, in their order.
pub proof fn newest_operations_are_remembered(operations: Seq<OperationView>, k: int)
    ensures
        remembered(operations).len() <= 64,
        operations.len() <= 64 ==> remembered(operations) == operations,
        operations.len() > 64 ==> remembered(operations).len() == 64,
        operations.len() > 64 && 0 <= k < 64 ==> remembered(operations)[k] == operations[
            operations.len() - 64 + k],
{
}

/// Each time the snapshot changes its number grows, up to the largest there is.
pub proof fn generations_only_grow(n: u64)
    ensures
        n < u64::MAX ==> next_generation(n) == n + 1,
        next_generation(u64::MAX) == u64::MAX,
{
}

/// The queue holds sixteen commands; a command is refused where it is full or where nobody
/// reads it any more, and for no other reason.
pub proof fn commands_are_refused_where_the_queue_is_full(service: Service)
    ensures
        service.closed ==> service.refusal() == Some("sending on a closed channel"@),
        !service.closed && service.queue@.len() >= 16 ==> service.refusal() == Some(
            "sending on a full channel"@,
        ),
        !service.closed && service.queue@.len() < 16 ==> service.refusal() is None,
{
}

/// Registering a repository leaves it registered, once: one that is known stays as it is, a
/// new one comes last, without a policy of its own and due at once.
pub proof fn repositories_are_registered_once(settings: SettingsView, root: Seq<u8>, i: int)
    ensures
        with_repository(settings, root).policy == settings.policy,
        settings.repositories.is_prefix_of(with_repository(settings, root).repositories),
        0 <= i < settings.repositories.len() && components(settings.repositories[i].repository)
            == components(root) ==> with_repository(settings, root) == settings,
        (forall|k: int|
            0 <= k < settings.repositories.len() ==> components(
                (#[trigger] settings.repositories[k]).repository,
            ) != components(root)) ==> with_repository(settings, root).repositories.len()
            == settings.repositories.len() + 1 && with_repository(
            settings,
            root,
        ).repositories.last().repository == root && with_repository(
            settings,
            root,
        ).repositories.last().policy is None && with_repository(
            settings,
            root,
        ).repositories.last().next_attempt == 0 && with_repository(
            settings,
            root,
        ).repositories.last().failures == 0,
        registered(with_repository(settings, root).repositories, root, 0) is Some,
{
    if 0 <= i < settings.repositories.len() && components(settings.repositories[i].repository)
        == components(root) {
        lemma_registered_somewhere(settings.repositories, root, 0, i);
    }
    if forall|k: int|
        0 <= k < settings.repositories.len() ==> components(
            (#[trigger] settings.repositories[k]).repository,
        ) != components(root) {
        lemma_not_registered(settings.repositories, root, 0);
    }
    let after = with_repository(settings, root).repositories;
    if registered(settings.repositories, root, 0) is None {
        assert(after[settings.repositories.len() as int].repository == root);
        lemma_registered_somewhere(after, root, 0, settings.repositories.len() as int);
    }
}

proof fn lemma_registered_somewhere(
    repositories: Seq<RegistrationView>,
    root: Seq<u8>,
    i: nat,
    k: int,
)
    requires
        i <= k < repositories.len(),
        components(repositories[k].repository) == components(root),
    ensures
        registered(repositories, root, i) is Some,
    decreases repositories.len() - i,
{
    if components(repositories[i as int].repository) != components(root) {
        lemma_registered_somewhere(repositories, root, i + 1, k);
    }
}

proof fn lemma_not_registered(repositories: Seq<RegistrationView>, root: Seq<u8>, i: nat)
    requires
        forall|k: int|
            i <= k < repositories.len() ==> components((#[trigger] repositories[k]).repository)
                != components(root),
    ensures
        registered(repositories, root, i) is None,
    decreases repositories.len() - i,
{
    if i < repositories.len() {
        assert(components(repositories[i as int].repository) != components(root));
        lemma_not_registered(repositories, root, i + 1);
    }
}

proof fn lemma_still_registered(
    before: Seq<RegistrationView>,
    after: Seq<RegistrationView>,
    root: Seq<u8>,
    i: nat,
)
    requires
        before.is_prefix_of(after),
        i <= before.len(),
        registered(before, root, i) is Some,
    ensures
        registered(after, root, i) is Some,
    decreases before.len() - i,
{
    if i < before.len() {
        assert(after[i as int] == before[i as int]);
        if components(before[i as int].repository) != components(root) {
            lemma_still_registered(before, after, root, i + 1);
        }
    }
}

/// Every repository that a published path belongs to becomes registered, and none is lost.
pub proof fn published_repositories_are_registered(
    settings: SettingsView,
    roots: Seq<Option<Vec<u8>>>,
    n: nat,
    i: int,
)
    requires
        n <= roots.len(),
    ensures
        with_repositories(settings, roots, n).policy == settings.policy,
        settings.repositories.is_prefix_of(with_repositories(settings, roots, n).repositories),
        0 <= i < n ==> (roots[i] matches Some(root) ==> registered(
            with_repositories(settings, roots, n).repositories,
            root@,
            0,
        ) is Some),
    decreases n,
{
    if n > 0 {
        published_repositories_are_registered(settings, roots, (n - 1) as nat, i);
        let before = with_repositories(settings, roots, (n - 1) as nat);
        let after = with_repositories(settings, roots, n);
        match roots[n - 1] {
            Some(root) => {
                repositories_are_registered_once(before, root@, 0);
                if 0 <= i < n - 1 && roots[i] is Some {
                    lemma_still_registered(
                        before.repositories,
                        after.repositories,
                        roots[i]->0@,
                        0,
                    );
                }
            },
            None => {},
        }
    }
}

proof fn lemma_relative(values: Seq<Seq<u8>>, n: nat)
    requires
        n <= values.len(),
    ensures
        any_relative(values, n) <==> exists|i: int| 0 <= i < n && !absolute(#[trigger] values[i]),
    decreases n,
{
    if n > 0 {
        lemma_relative(values, (n - 1) as nat);
        if !absolute(values[n - 1]) {
            assert(0 <= n - 1 < n);
        }
    }
}

/// A policy is configured as it was given, with its retained paths in their canonical form:
/// for one repository, which must be registered, or for all that have none of their own. A
/// retained path that is not absolute is refused.
pub proof fn policies_are_configured_as_given(
    settings: SettingsView,
    policy: PolicyView,
    facts: CommandFacts,
    i: int,
)
    requires
        facts.canonical@.len() == policy.retained_worktrees.len(),
    ensures
        0 <= i < policy.retained_worktrees.len() && !absolute(policy.retained_worktrees[i])
            ==> configured(settings, policy, facts) == Err::<SettingsView, Seq<char>>(
            "retained worktree paths must be absolute"@,
        ),
        configured(settings, policy, facts) matches Ok(after) ==> {
            let given = if facts.root is None {
                after.policy
            } else {
                after.policy_of(facts.root->0->Ok_0@)->0
            };
            &&& given.enabled == policy.enabled
            &&& given.remote == policy.remote
            &&& given.integration_branch == policy.integration_branch
            &&& given.protected_branches == policy.protected_branches
            &&& given.retained_branches == policy.retained_branches
            &&& given.github_merge_evidence == policy.github_merge_evidence
            &&& given.retained_worktrees.len() == policy.retained_worktrees.len()
            &&& 0 <= i < policy.retained_worktrees.len() ==> given.retained_worktrees[i] == (
            match facts.canonical@[i] {
                Some(path) => path@,
                None => policy.retained_worktrees[i],
            })
            &&& after.repositories.len() == settings.repositories.len()
            &&& facts.root is Some ==> after.policy == settings.policy && after.repositories[
            registered(settings.repositories, facts.root->0->Ok_0@, 0)->0 as int].next_attempt == 0
            &&& facts.root is None ==> after.repositories == settings.repositories
        },
        (facts.root matches Some(Ok(root)) && registered(settings.repositories, root@, 0) is None)
            ==> configured(settings, policy, facts) is Err,
        (facts.root matches Some(Err(_))) ==> configured(settings, policy, facts) is Err,
        (forall|k: int|
            0 <= k < policy.retained_worktrees.len() ==> absolute(
                #[trigger] policy.retained_worktrees[k],
            )) && facts.root is None ==> configured(settings, policy, facts) is Ok,
{
    lemma_relative(policy.retained_worktrees, policy.retained_worktrees.len());
    if configured(settings, policy, facts) is Ok && facts.root is Some {
        let root = facts.root->0->Ok_0@;
        let after = configured(settings, policy, facts)->Ok_0;
        lemma_registered(settings.repositories, root, 0);
        let at = registered(settings.repositories, root, 0)->0;
        lemma_same_place(settings.repositories, after.repositories, root, 0);
    }
}

proof fn lemma_same_place(
    before: Seq<RegistrationView>,
    after: Seq<RegistrationView>,
    root: Seq<u8>,
    i: nat,
)
    requires
        before.len() == after.len(),
        i <= before.len(),
        forall|k: int|
            0 <= k < before.len() ==> (#[trigger] after[k]).repository == before[k].repository,
    ensures
        registered(after, root, i) == registered(before, root, i),
    decreases before.len() - i,
{
    if i < before.len() {
        assert(after[i as int].repository == before[i as int].repository);
        lemma_same_place(before, after, root, i + 1);
    }
}

/// What a command asks for is what is prepared: a preview previews, a request looks at what
/// it names whatever the schedule says, and the rounds that come by themselves do neither.
pub proof fn commands_ask_for_what_they_say(
    worker: Worker,
    settings: SettingsView,
    facts: CommandFacts,
    after: Worker,
    prepared: Prepared,
    id: u64,
    repository: Option<Vec<u8>>,
)
    ensures
        worker.prepares(
            settings,
            Some(Command::Action(id, Action::Preview { repository })),
            facts,
            after,
            Ok(prepared),
        ) ==> prepared.preview && prepared.force && prepared.selected == repository
            && prepared.settings@ == settings && prepared.trigger@ == "preview"@ && after == worker,
        worker.prepares(
            settings,
            Some(Command::Action(id, Action::Reconcile { repository })),
            facts,
            after,
            Ok(prepared),
        ) ==> !prepared.preview && prepared.force && prepared.selected == repository
            && prepared.settings@ == settings && prepared.trigger@ == "manual"@ && after == worker,
        worker.prepares(settings, None, facts, after, Ok(prepared)) ==> !prepared.preview
            && !prepared.force && prepared.selected is None && prepared.settings@ == settings
            && prepared.trigger@ == "periodic"@ && after == worker,
{
}

/// Once a session has published what it owns, the worker is ready; what it owns is kept, and
/// where that changed, or nothing was known before, every repository is looked at.
pub proof fn published_paths_are_kept(
    worker: Worker,
    settings: SettingsView,
    facts: CommandFacts,
    after: Worker,
    prepared: Prepared,
    published: Vec<Vec<u8>>,
    trigger: String,
)
    requires
        worker.prepares(
            settings,
            Some(Command::Sync { paths: published, trigger }),
            facts,
            after,
            Ok(prepared),
        ),
    ensures
        after.ready,
        paths(after.owned_paths@) == paths(published@),
        after.fingerprints == worker.fingerprints,
        !worker.ready ==> prepared.force,
        paths(worker.owned_paths@).len() != paths(published@).len() ==> prepared.force,
        worker.ready && paths(worker.owned_paths@) == paths(published@) ==> !prepared.force
            && prepared.settings@ == settings,
        !prepared.preview,
        prepared.selected is None,
        prepared.trigger@ == trigger@,
{
    assert(all_components(paths(worker.owned_paths@)).len() == paths(worker.owned_paths@).len());
    assert(all_components(paths(published@)).len() == paths(published@).len());
}

/// A pause doubles with each failure, from one minute, and stops at an hour; without a
/// failure it is five minutes.
pub proof fn pauses_double_up_to_an_hour(failures: u32)
    ensures
        pause(0) == 300,
        pause(1) == 60,
        1 <= failures < 6 ==> pause((failures + 1) as u32) == 2 * pause(failures),
        failures > 6 ==> pause(failures) == 3600,
        pause(failures) <= 3600,
{
}

/// A repository failed where one of its records says that the integration was not available.
pub proof fn missing_integrations_are_failures(records: Seq<RecordView>, i: int, reason: Seq<char>)
    requires
        0 <= i < records.len(),
    ensures
        records[i].reason == "integration unavailable: "@ + reason ==> any_offline(records),
        (forall|k: int|
            0 <= k < records.len() ==> !"integration unavailable:"@.is_prefix_of(
                (#[trigger] records[k]).reason,
            )) ==> !any_offline(records),
{
    if records[i].reason == "integration unavailable: "@ + reason {
        reveal_strlit("integration unavailable: ");
        reveal_strlit("integration unavailable:");
        assert("integration unavailable:"@ =~= "integration unavailable: "@.take(24));
        assert("integration unavailable:"@.is_prefix_of(records[i].reason)) by {
            assert(records[i].reason.take(24) =~= "integration unavailable: "@.take(24));
        }
        assert(offline(records[i]));
    }
}

/// A repository that was looked at takes over when it is looked at next, and how often it
/// failed.
pub proof fn schedules_are_taken_over(
    fresh: Seq<RegistrationView>,
    update: RegistrationView,
    at: int,
)
    requires
        0 <= at < fresh.len(),
        components(fresh[at].repository) == components(update.repository),
        forall|k: int|
            0 <= k < at ==> components((#[trigger] fresh[k]).repository) != components(
                update.repository,
            ),
    ensures
        rescheduled(fresh, seq![update], 1)[at].next_attempt == update.next_attempt,
        rescheduled(fresh, seq![update], 1)[at].failures == update.failures,
        forall|k: int|
            0 <= k < fresh.len() && k != at ==> #[trigger] rescheduled(fresh, seq![update], 1)[k]
                == fresh[k],
{
    reveal_with_fuel(rescheduled, 2);
    lemma_registered_at(fresh, update.repository, 0, at);
}

proof fn lemma_registered_at(repositories: Seq<RegistrationView>, root: Seq<u8>, i: nat, at: int)
    requires
        i <= at < repositories.len(),
        components(repositories[at].repository) == components(root),
        forall|k: int|
            i <= k < at ==> components((#[trigger] repositories[k]).repository) != components(root),
    ensures
        registered(repositories, root, i) == Some(at as nat),
    decreases repositories.len() - i,
{
    if i < at {
        assert(components(repositories[i as int].repository) != components(root));
        lemma_registered_at(repositories, root, i + 1, at);
    }
}

/// The references of a repository are remembered under its shared directory.
pub proof fn fingerprints_are_found_by_directory(
    fingerprints: Seq<(Vec<u8>, String)>,
    common: Seq<u8>,
    i: nat,
    at: int,
)
    requires
        i <= at < fingerprints.len(),
        components(fingerprints[at].0@) == components(common),
        forall|k: int|
            i <= k < at ==> components((#[trigger] fingerprints[k]).0@) != components(common),
    ensures
        fingerprint_of(fingerprints, common, i) == Some(fingerprints[at].1@),
    decreases fingerprints.len() - i,
{
    if i < at {
        assert(components(fingerprints[i as int].0@) != components(common));
        fingerprints_are_found_by_directory(fingerprints, common, i + 1, at);
    }
}

/// All that went wrong is told, one after the other, in order.
pub proof fn diagnostics_are_told_in_order(values: Seq<Seq<char>>, n: nat)
    requires
        0 < n < values.len(),
    ensures
        joined_texts(values, 1) == values[0],
        joined_texts(values, n + 1) == joined_texts(values, n) + "; "@ + values[n as int],
{
}

/// A repository that is registered by name is looked at when it is due; a policy that was
/// configured is a reason to look at every repository at once.
pub proof fn settings_are_changed_as_asked(
    worker: Worker,
    settings: SettingsView,
    facts: CommandFacts,
    after: Worker,
    prepared: Prepared,
    id: u64,
    repository: Vec<u8>,
    named: Option<Vec<u8>>,
    policy: Policy,
)
    ensures
        worker.prepares(
            settings,
            Some(Command::Action(id, Action::Register { repository })),
            facts,
            after,
            Ok(prepared),
        ) ==> facts.root->0 is Ok && prepared.settings@ == with_repository(
            settings,
            facts.root->0->Ok_0@,
        ) && !prepared.preview && !prepared.force && prepared.selected is None
            && prepared.trigger@ == "repository_registered"@ && after == worker,
        worker.prepares(
            settings,
            Some(Command::Action(id, Action::Configure { repository: named, policy })),
            facts,
            after,
            Ok(prepared),
        ) ==> configured(settings, policy@, facts) == Ok::<SettingsView, Seq<char>>(
            prepared.settings@,
        ) && !prepared.preview && prepared.force && prepared.selected is None
            && prepared.trigger@ == "configuration_changed"@ && after == worker,
{
}

/// A service starts with the usual policy, nothing registered, nothing queued and nothing
/// remembered.
pub proof fn services_start_afresh(service: Service, boot_id: Seq<char>)
    requires
        service.is_fresh(boot_id),
    ensures
        service.queue@.len() == 0,
        service.snapshot.boot_id@ == boot_id,
        service.snapshot.generation == 0,
        service.snapshot.report_generation == 0,
        !service.snapshot.busy,
        service.snapshot.settings@.policy == PolicyView::standard(),
        service.snapshot.settings@.repositories.len() == 0,
        service.snapshot.records@.len() == 0,
        service.snapshot.diagnostic is None,
        service.snapshot.operations@.len() == 0,
        service.sequence == 1,
        !service.sync_pending && !service.closed && !service.poisoned,
{
}

} // verus!
