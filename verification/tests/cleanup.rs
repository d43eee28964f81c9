use herdr::app::cleanup::{answer_action, cleanup_owned_paths, CleanupRuntime};
use herdr::cleanup::engine::{CleanupProcessUse, Engine, Event, Step};
use herdr::cleanup::evidence::{github_repository, pull_requests, EvidenceStep};
use herdr::cleanup::git::{
    command_result, parse_worktrees, removes_variable, IntegrationStep, ProcessCommand,
    Repository, WorktreeDetails,
};
use herdr::cleanup::ownership::{self, Admission, OwnedWorkspace, Owner};
use herdr::cleanup::policy::{
    retention_reason, Candidate, MergeEvidence, Policy, Record, State,
};
use herdr::cleanup::round::{Round, RoundEvent, RoundStep};
use herdr::cleanup::service::{Action, Command, CommandFacts, Service, Worker};
use herdr::cleanup::store::{Registration, Settings};
use herdr::cleanup::worktree::{
    named_directories, primary_checkout, unfinished_names, worktree_list, LocalReports, Marker,
};

const ROOT: &str = "/work/repo";

const COMMON: &str = "/work/repo/.git";

const OWNERSHIP: &str = "/work/ownership";

fn bytes(text: &str) -> Vec<u8> {
    text.as_bytes().to_vec()
}

fn text(bytes: &[u8]) -> String {
    String::from_utf8(bytes.to_vec()).unwrap()
}

#[derive(Clone)]
struct Worktree {
    path: String,
    branch: Option<String>,
    detached_at: usize,
    locked: bool,
    status: String,
    flags: String,
    unfinished: Vec<String>,
}

/// A Git repository in memory, as far as cleanup asks for it.
struct Git {
    parents: Vec<Option<usize>>,
    branches: Vec<(String, usize)>,
    remote: Option<usize>,
    tracking: Option<usize>,
    worktrees: Vec<Worktree>,
    replaced: Option<(usize, usize)>,
    remote_url: String,
}

fn sha(commit: usize) -> String {
    format!("{:040x}", commit + 1)
}

fn commit_of(sha: &str) -> Option<usize> {
    usize::from_str_radix(sha, 16).ok().map(|number| number - 1)
}

impl Git {
    fn new() -> Self {
        Git {
            parents: vec![None],
            branches: vec![("main".into(), 0)],
            remote: Some(0),
            tracking: None,
            worktrees: vec![Worktree {
                path: ROOT.into(),
                branch: Some("main".into()),
                detached_at: 0,
                locked: false,
                status: String::new(),
                flags: String::new(),
                unfinished: Vec::new(),
            }],
            replaced: None,
            remote_url: "/work/remote.git".into(),
        }
    }

    fn branch(&self, name: &str) -> Option<usize> {
        self.branches
            .iter()
            .find(|branch| branch.0 == name)
            .map(|branch| branch.1)
    }

    fn set_branch(&mut self, name: &str, commit: usize) {
        self.branches.retain(|branch| branch.0 != name);
        self.branches.push((name.into(), commit));
        self.branches.sort();
    }

    fn worktree(&mut self, path: &str) -> &mut Worktree {
        self.worktrees
            .iter_mut()
            .find(|worktree| worktree.path == path)
            .expect("worktree")
    }

    fn head(&self, worktree: &Worktree) -> usize {
        match &worktree.branch {
            Some(branch) => self.branch(branch).expect("branch"),
            None => worktree.detached_at,
        }
    }

    fn commit(&mut self, path: &str) -> usize {
        let worktree = self.worktree(path).clone();
        let parent = self.head(&worktree);
        self.parents.push(Some(parent));
        let commit = self.parents.len() - 1;
        match worktree.branch {
            Some(branch) => self.set_branch(&branch, commit),
            None => self.worktree(path).detached_at = commit,
        }
        commit
    }

    fn ancestor(&self, commit: usize, of: usize, replacements: bool) -> bool {
        let mut at = Some(of);
        while let Some(known) = at {
            let seen = match self.replaced {
                Some((from, to)) if replacements && from == known => to,
                _ => known,
            };
            if seen == commit || known == commit {
                return true;
            }
            at = self.parents[seen];
        }
        false
    }

    fn answer(&mut self, run: &ProcessCommand) -> Result<String, String> {
        let replacements = !run
            .set
            .iter()
            .any(|entry| entry.0 == "GIT_NO_REPLACE_OBJECTS" && entry.1 == "1");
        let args: Vec<&str> = run.args.iter().map(|arg| arg.as_str()).collect();
        let cwd = text(&run.cwd);
        let known = self.worktrees.iter().any(|worktree| worktree.path == cwd);
        if run.program != "git" || !known {
            return Err("cannot be run here".into());
        }
        match args.as_slice() {
            ["worktree", "list", "--porcelain", "-z"] => {
                let mut out = String::new();
                for worktree in &self.worktrees {
                    out.push_str(&format!("worktree {}\0", worktree.path));
                    out.push_str(&format!("HEAD {}\0", sha(self.head(worktree))));
                    match &worktree.branch {
                        Some(branch) => out.push_str(&format!("branch refs/heads/{branch}\0")),
                        None => out.push_str("detached\0"),
                    }
                    if worktree.locked {
                        out.push_str("locked\0");
                    }
                    out.push('\0');
                }
                Ok(out)
            }
            ["for-each-ref", "--format=%(refname)%00%(objectname)%00%(symref)", "refs/heads/"] => {
                Ok(self
                    .branches
                    .iter()
                    .map(|branch| format!("refs/heads/{}\0{}\0\n", branch.0, sha(branch.1)))
                    .collect())
            }
            ["for-each-ref", "--format=%(refname)", reference] => Ok(self
                .branches
                .iter()
                .map(|branch| format!("refs/heads/{}", branch.0))
                .filter(|name| name == reference)
                .map(|name| format!("{name}\n"))
                .collect()),
            ["rev-parse", "--path-format=absolute", "--git-common-dir", "--git-dir"] => {
                Ok(format!("{COMMON}\n{COMMON}/worktrees{cwd}\n").replace("line\nbreak", "line-break"))
            }
            ["ls-remote", "--symref", "origin", "HEAD"] => match self.remote {
                Some(commit) => Ok(format!(
                    "ref: refs/heads/main\tHEAD\n{}\tHEAD\n",
                    sha(commit)
                )),
                None => Err("repository not found".into()),
            },
            ["check-ref-format", _] => Ok(String::new()),
            ["fetch", "--no-tags", "origin", "+refs/heads/main:refs/remotes/origin/main"] => {
                self.tracking = self.remote;
                Ok(String::new())
            }
            ["rev-parse", "--verify", "refs/remotes/origin/main^{commit}"]
            | ["rev-parse", "--verify", "refs/remotes/origin/main"] => match self.tracking {
                Some(commit) => Ok(format!("{}\n", sha(commit))),
                None => Err("unknown revision".into()),
            },
            ["merge-base", "--is-ancestor", commit, of] => {
                match (commit_of(commit), commit_of(of)) {
                    (Some(commit), Some(of)) if self.ancestor(commit, of, replacements) => {
                        Ok(String::new())
                    }
                    _ => Err(String::new()),
                }
            }
            ["remote", "get-url", "origin"] => Ok(format!("{}\n", self.remote_url)),
            ["status", ..] => Ok(self.worktree(&cwd).status.clone()),
            ["ls-files", ..] => Ok(self.worktree(&cwd).flags.clone()),
            ["submodule", ..] => Ok(String::new()),
            ["worktree", "remove", "--", path] => {
                self.worktrees.retain(|worktree| worktree.path != *path);
                Ok(String::new())
            }
            ["update-ref", "--no-deref", "-d", reference, expected] => {
                let name = reference.strip_prefix("refs/heads/").unwrap();
                if self.branch(name).map(sha).as_deref() != Some(*expected) {
                    return Err("reference moved".into());
                }
                self.branches.retain(|branch| branch.0 != name);
                Ok(String::new())
            }
            _ => Err(format!("unexpected {args:?}")),
        }
    }

    fn run(&mut self, run: &ProcessCommand) -> Result<String, String> {
        match self.answer(run) {
            Ok(out) => command_result("git", true, &out.into_bytes(), ""),
            Err(error) => command_result("git", false, &Vec::new(), &error),
        }
    }
}

struct Fixture {
    git: Git,
    repo: Repository,
    policy: Policy,
    settings: Option<Settings>,
    history: Vec<Record>,
    owners: Vec<Owner>,
    /// Locks that launches share, and locks that are held exclusively.
    shared: Vec<Vec<u8>>,
    exclusive: Vec<Vec<u8>>,
    audit: Vec<State>,
    now: u64,
}

impl Fixture {
    fn new() -> Self {
        let mut git = Git::new();
        let listed = git.run(&worktree_list(&bytes(ROOT))).unwrap();
        let root = primary_checkout(&listed).unwrap();
        Fixture {
            git,
            repo: Repository::open(bytes(COMMON), bytes(&root)),
            policy: Policy {
                github_merge_evidence: false,
                ..Policy::default()
            },
            settings: None,
            history: Vec::new(),
            owners: Vec::new(),
            shared: Vec::new(),
            exclusive: Vec::new(),
            audit: Vec::new(),
            now: 1_000,
        }
    }

    fn worktree(&mut self, name: &str) -> String {
        let path = format!("/work/{name}");
        let main = self.git.branch("main").unwrap();
        self.git.set_branch(name, main);
        self.git.worktrees.push(Worktree {
            path: path.clone(),
            branch: Some(name.into()),
            detached_at: 0,
            locked: false,
            status: String::new(),
            flags: String::new(),
            unfinished: Vec::new(),
        });
        path
    }

    fn present(&self, path: &str) -> bool {
        self.git
            .worktrees
            .iter()
            .any(|worktree| worktree.path == path)
    }

    fn discover(&mut self) -> Vec<Candidate> {
        let listed = self.git.run(&worktree_list(&self.repo.root)).unwrap();
        let entries = parse_worktrees(&listed).unwrap();
        let mut details = Vec::new();
        for entry in &entries {
            let path = bytes(&entry.path);
            let printed = self
                .git
                .run(&Repository::worktree_directories(&path))
                .unwrap();
            let (common, git_dir) = named_directories(&printed).unwrap();
            let marker = Marker {
                symlink: false,
                directory_identity: format!("1:{}", entry.path.len()),
                marker_identity: "2:3".into(),
                contents: format!("gitdir: {git_dir}"),
            };
            let found = self
                .repo
                .worktree_identity(&bytes(&common), bytes(&git_dir), &marker)
                .ok();
            details.push(WorktreeDetails { path, found });
        }
        let refs = self.git.run(&self.repo.branch_list()).unwrap();
        self.repo.discover(entries, &details, &refs).unwrap()
    }

    fn candidate(&mut self, path: &str) -> Candidate {
        self.discover()
            .into_iter()
            .find(|candidate| candidate.path == Some(bytes(path)))
            .expect("candidate")
    }

    fn integration(&mut self) -> Result<(String, String), String> {
        let (mut search, mut step) = self.repo.integration(&self.policy, Ok(false));
        loop {
            match step {
                IntegrationStep::Done(found) => return found,
                IntegrationStep::Run(run) => {
                    let printed = self.git.run(&run);
                    step = search.advance(&self.repo, printed);
                }
            }
        }
    }

    fn evidence(
        &mut self,
        candidate: &Candidate,
        branch: &str,
        integration: &str,
    ) -> Option<MergeEvidence> {
        let (mut search, run) = self
            .repo
            .evidence(candidate, &self.policy, branch, integration);
        let mut run = run;
        loop {
            let printed = self.git.run(&run);
            match search.advance(&self.repo, printed) {
                EvidenceStep::Done(found) => return found,
                EvidenceStep::Run(next) => run = next,
            }
        }
    }

    fn reports(&mut self, candidate: &Candidate) -> LocalReports {
        let path = candidate.path.clone().unwrap_or_else(|| bytes(ROOT));
        let (status, flags, submodules) = Repository::local_commands(&path);
        let open = match &candidate.path {
            Some(path) if self.present(&text(path)) => {
                self.git.worktree(&text(path)).unfinished.clone()
            }
            _ => Vec::new(),
        };
        LocalReports {
            status: self.git.run(&status),
            flags: self.git.run(&flags),
            unfinished: unfinished_names()
                .iter()
                .map(|name| Ok(open.contains(name)))
                .collect(),
            submodules: self.git.run(&submodules),
        }
    }

    fn owned(
        &self,
        candidate: &Candidate,
        processes: &CleanupProcessUse,
    ) -> Result<Option<String>, String> {
        let sessions = match &candidate.path {
            Some(path) => ownership::reason(&self.owners, path),
            None => None,
        };
        Engine::ownership_reason(candidate, Ok(sessions), processes)
    }

    fn remove_worktree(&mut self, candidate: &Candidate) -> Result<(), String> {
        let current = self.discover();
        let reports = self.reports(candidate);
        let run = self.repo.remove_worktree(candidate, &current, &reports)?;
        self.git.run(&run)?;
        let path = text(candidate.path.as_ref().unwrap());
        Repository::worktree_removed(Ok(self.present(&path)))
    }

    fn remove_branch(&mut self, branch: &str, expected: &str) -> Result<(), String> {
        let current = self.discover();
        let run = self.repo.remove_branch(branch, expected, &current)?;
        self.git.run(&run)?;
        let listed = self.git.run(&self.repo.branch_lookup(branch))?;
        Repository::branch_removed(branch, &listed)
    }

    fn pass(
        &mut self,
        engine: Engine,
        processes: CleanupProcessUse,
    ) -> Result<Vec<Record>, String> {
        let integration = self.integration();
        let candidates = self.discover();
        let history = self.history.clone();
        let (mut pass, mut step) =
            engine.reconcile(&self.settings, history, integration, candidates, self.now)?;
        loop {
            self.now += 1;
            let event = match step {
                Step::Save(record) => {
                    self.audit.push(record.state);
                    self.history = Engine::record(std::mem::take(&mut self.history), &record);
                    Event::Settled(Ok(()))
                }
                Step::FindEvidence(candidate, branch, commit) => {
                    Event::Evidence(self.evidence(&candidate, &branch, &commit))
                }
                Step::Inspect(candidate) => {
                    let reports = self.reports(&candidate);
                    Event::Inspected(
                        self.owned(&candidate, &processes),
                        self.repo.local_reason(&candidate, &reports),
                    )
                }
                Step::Lease(path) => {
                    let lock = ownership::path_lock(&bytes(OWNERSHIP), &path);
                    let taken = self.shared.contains(&lock) || self.exclusive.contains(&lock);
                    Event::Settled(if taken {
                        Err("ownership unavailable".into())
                    } else {
                        Ok(())
                    })
                }
                Step::Verify(candidate) => {
                    let current = self.discover();
                    Event::Settled(self.repo.unchanged(&candidate, &current))
                }
                Step::Resolve(reference) => {
                    let run = self.repo.git(&["rev-parse", "--verify", &reference]);
                    Event::Printed(self.git.run(&run))
                }
                Step::Ancestor(commit, integration) => {
                    let run = self.repo.ancestor(&commit, &integration);
                    Event::Answered(self.git.run(&run).is_ok())
                }
                Step::CheckOwner(candidate) => Event::Owned(self.owned(&candidate, &processes)),
                Step::RemoveWorktree(candidate) => {
                    assert!(pass.holds_lease());
                    Event::Settled(self.remove_worktree(&candidate))
                }
                Step::RemoveBranch(branch, commit) => {
                    Event::Settled(self.remove_branch(&branch, &commit))
                }
                Step::CheckAbsent(candidate) => {
                    let on_disk = match &candidate.path {
                        Some(path) => self.present(&text(path)),
                        None => false,
                    };
                    let current = Ok(self.discover());
                    Event::Absent(Engine::resources_absent(&candidate, Ok(on_disk), &current))
                }
                Step::Finished(records) => return Ok(records),
                Step::Failed(message) => return Err(message),
            };
            step = pass.next(event, self.now);
        }
    }

    fn engine(&self, trigger: &str, preview: bool) -> Engine {
        Engine {
            repository: Repository::open(self.repo.common.clone(), self.repo.root.clone()),
            policy: self.policy.clone(),
            trigger: trigger.into(),
            preview,
        }
    }

    fn reconcile(&mut self, preview: bool) -> Vec<Record> {
        let engine = self.engine("test", preview);
        self.pass(engine, CleanupProcessUse::Clear).unwrap()
    }

    fn enter(&mut self, session: &str, path: &str) -> Result<Vec<Vec<u8>>, String> {
        let admission = Admission::at(&bytes(OWNERSHIP), &bytes(session), &bytes(path));
        if admission
            .leases
            .iter()
            .any(|lease| self.exclusive.contains(lease))
        {
            return Err("worktree cleanup in progress".into());
        }
        self.shared.extend(admission.leases.iter().cloned());
        let known = self
            .owners
            .iter()
            .position(|owner| owner.session == bytes(session));
        let mut owner = match known {
            Some(at) => self.owners.remove(at),
            None => Owner::new(),
        };
        owner.claim(&bytes(session), bytes(path));
        self.owners.push(owner);
        Ok(admission.leases)
    }

    fn release(&mut self, leases: Vec<Vec<u8>>) {
        for lease in leases {
            let at = self.shared.iter().position(|held| *held == lease).unwrap();
            self.shared.remove(at);
        }
    }

    fn sync(&mut self, session: &str, published: &[&str]) {
        let at = self
            .owners
            .iter()
            .position(|owner| owner.session == bytes(session));
        let previous = match at {
            Some(at) => self.owners.remove(at),
            None => Owner::new(),
        };
        let held = previous
            .paths
            .iter()
            .map(|path| {
                self.shared
                    .contains(&ownership::path_lock(&bytes(OWNERSHIP), path))
            })
            .collect();
        let published = published.iter().map(|path| bytes(path)).collect();
        self.owners
            .push(ownership::sync(&bytes(session), &published, &previous, &held));
    }
}

fn names(git: &Git) -> Vec<String> {
    git.branches.iter().map(|branch| branch.0.clone()).collect()
}

#[test]
fn cleanup_removes_merged_shell_created_worktree_and_branch_preserves_primary_and_remote() {
    let mut f = Fixture::new();
    let path = f.worktree("merged");
    let records = f.reconcile(false);
    assert!(!f.present(&path));
    assert!(records
        .iter()
        .any(|r| r.candidate.branch.as_deref() == Some("merged")
            && r.state == State::Removed
            && r.branch_removed));
    assert!(f.present(ROOT));
    assert_eq!(names(&f.git), vec!["main".to_string()]);
    assert!(f.git.remote.is_some());
    assert!(f.reconcile(false).iter().all(|r| r.state != State::Removed));
}

#[test]
fn cleanup_preview_and_local_work_are_preserved() {
    let mut f = Fixture::new();
    let clean = f.worktree("clean");
    let dirty = f.worktree("dirty");
    let ignored = f.worktree("ignored");
    f.git.worktree(&dirty).status = "?? draft\0".into();
    f.git.worktree(&ignored).status = "!! secret\0".into();
    f.reconcile(true);
    assert!(f.present(&clean));
    let results = f.reconcile(false);
    assert!(!f.present(&clean));
    assert!(f.present(&dirty));
    assert!(f.present(&ignored));
    assert_eq!(
        results
            .iter()
            .filter(|r| r.reason.contains("local files"))
            .count(),
        2
    );
}

#[test]
fn cleanup_preserves_locked_protected_and_unmerged_worktrees() {
    let mut f = Fixture::new();
    let locked = f.worktree("locked");
    let protected = f.worktree("protected");
    let retained = f.worktree("retained");
    let unmerged = f.worktree("unmerged");
    f.git.worktree(&locked).locked = true;
    f.policy.protected_branches.push("protected".into());
    f.policy.retained_worktrees.push(bytes(&retained));
    f.git.commit(&unmerged);
    f.reconcile(false);
    assert!(f.present(&locked) && f.present(&protected) && f.present(&retained) && f.present(&unmerged));
}

#[test]
fn cleanup_ownership_blocks_removal_and_admission_while_exclusive() {
    let mut f = Fixture::new();
    let path = f.worktree("owned");
    let admission = f.enter("/work/session", &path).unwrap();
    f.reconcile(false);
    assert!(f.present(&path));
    f.release(admission);
    assert!(ownership::reason(&f.owners, &bytes(&path)).is_some());
    f.reconcile(false);
    assert!(f.present(&path));
    f.sync("/work/session", &[]);
    let lock = ownership::path_lock(&bytes(OWNERSHIP), &bytes(&path));
    f.exclusive.push(lock);
    assert!(f.enter("/work/session", &path).is_err());
    f.exclusive.clear();
    f.reconcile(false);
    assert!(!f.present(&path));
}

#[test]
fn cleanup_rechecks_candidate_commit_and_branch_checkout() {
    let mut f = Fixture::new();
    let path = f.worktree("changed");
    let old = f.candidate(&path);
    f.git.commit(&path);
    assert!(f.remove_worktree(&old).is_err());
    assert!(f.remove_branch("changed", &old.commit).is_err());
    let main = f.git.branch("main").unwrap();
    f.git.set_branch("loose", main);
    let original = sha(main);
    let changed = f.git.branch("changed").unwrap();
    f.git.set_branch("loose", changed);
    assert!(f.remove_branch("loose", &original).is_err());
    assert!(f.present(&path));
}

#[test]
fn cleanup_repository_lock_and_offline_remote_defer_without_mutation() {
    let mut f = Fixture::new();
    let path = f.worktree("merged");
    assert_eq!(text(&f.repo.state_dir()), "/work/repo/.git/herdr-cleanup");
    f.git.remote = None;
    let records = f.reconcile(false);
    assert!(records.iter().all(|r| r.state == State::Deferred));
    assert!(records
        .iter()
        .all(|r| r.reason.starts_with("integration unavailable:")));
    assert!(f.present(&path));
}

#[test]
fn cleanup_strict_discovery_preserves_newline_paths() {
    let mut f = Fixture::new();
    let path = "/work/line\nbreak";
    f.git.worktrees.push(Worktree {
        path: path.into(),
        branch: None,
        detached_at: 0,
        locked: false,
        status: String::new(),
        flags: String::new(),
        unfinished: Vec::new(),
    });
    assert!(f
        .discover()
        .iter()
        .any(|c| c.path == Some(bytes(path)) && !c.unavailable));
    f.reconcile(false);
    assert!(!f.present(path));
}

fn host_answer(source: &str, base: &str, merge: &str, merged_at: &str) -> String {
    format!(
        "[{{\"number\": 1, \"head\": {{\"sha\": \"{source}\"}}, \"base\": {{\"ref\": \"{base}\"}}, \
         \"merge_commit_sha\": \"{merge}\", \"merged_at\": \"{merged_at}\"}}]"
    )
}

#[test]
fn cleanup_squash_evidence_requires_exact_source_and_integrated_merge() {
    let mut f = Fixture::new();
    let path = f.worktree("squashed");
    f.git.commit(&path);
    let candidate = f.candidate(&path);
    let integration = sha(f.git.commit(ROOT));
    let run = f.repo.ancestor(&candidate.commit, &integration);
    assert!(f.git.run(&run).is_err());
    let answer = host_answer(
        &candidate.commit,
        "main",
        &integration,
        "2026-09-12T00:00:00Z",
    );
    let pulls = pull_requests(&answer).expect("pull requests");
    let integrated = |f: &mut Fixture, integration: &str| {
        let run = f
            .repo
            .ancestor(pulls[0].merge.as_deref().unwrap(), integration);
        vec![f.git.run(&run).is_ok()]
    };
    let merges = integrated(&mut f, &integration);
    assert_eq!(
        f.repo
            .github_evidence(&candidate, "main", &integration, &pulls, &merges),
        Some(MergeEvidence::Github {
            integration: integration.clone(),
            pull_request: 1,
            source: candidate.commit.clone(),
            merge: integration.clone(),
        })
    );
    f.git.commit(&path);
    let newer = f.candidate(&path);
    assert!(f
        .repo
        .github_evidence(&newer, "main", &integration, &pulls, &merges)
        .is_none());
    assert!(f
        .repo
        .github_evidence(&candidate, "other", &integration, &pulls, &merges)
        .is_none());
    let elsewhere = integrated(&mut f, &candidate.commit);
    assert!(f
        .repo
        .github_evidence(&candidate, "main", &candidate.commit, &pulls, &elsewhere)
        .is_none());
    let open = pull_requests(&host_answer(&candidate.commit, "main", &integration, "")).unwrap();
    assert!(f
        .repo
        .github_evidence(&candidate, "main", &integration, &open, &merges)
        .is_none());
}

#[test]
fn cleanup_recovers_after_worktree_removal_and_preserves_recreated_branch() {
    let mut f = Fixture::new();
    let path = f.worktree("interrupted");
    let candidate = f.candidate(&path);
    let state = Record {
        repository: f.repo.root.clone(),
        candidate: candidate.clone(),
        evidence: Some(MergeEvidence::Ancestor {
            integration: candidate.commit.clone(),
        }),
        trigger: "interrupted".into(),
        timestamp: 1,
        attempts: 1,
        state: State::Removing,
        reason: "before removal".into(),
        worktree_removed: false,
        branch_removed: false,
    };
    f.history = vec![state.clone()];
    assert!(f.remove_worktree(&candidate).is_ok());
    let results = f.reconcile(false);
    assert!(results
        .iter()
        .any(|r| r.candidate == candidate && r.state == State::Removed));
    let main = f.git.branch("main").unwrap();
    f.git.set_branch("interrupted", main);
    let new = f.worktree("new");
    let commit = f.git.commit(&new);
    f.git.set_branch("interrupted", commit);
    f.history = vec![state];
    f.reconcile(false);
    assert_eq!(f.git.branch("interrupted"), f.git.branch("new"));
}

#[test]
fn cleanup_unknown_process_visibility_and_unfinished_operation_defer() {
    let mut f = Fixture::new();
    let path = f.worktree("process");
    let engine = f.engine("test", false);
    let result = f
        .pass(engine, CleanupProcessUse::Unknown("access denied".into()))
        .unwrap();
    assert!(result.iter().any(|r| r.reason.contains("access denied")));
    assert!(f.present(&path));
    f.git.worktree(&path).unfinished.push("MERGE_HEAD".into());
    let result = f.reconcile(false);
    assert!(result
        .iter()
        .any(|r| r.reason == "unfinished Git operation: MERGE_HEAD"));
    assert!(f.present(&path));
}

#[test]
fn cleanup_policy_is_independent_of_agent_tool_and_trigger() {
    let mut f = Fixture::new();
    f.worktree("eligible");
    let mut expected = None;
    for trigger in [
        "merge",
        "agent_exit",
        "startup",
        "periodic",
        "shell",
        "provider",
    ] {
        let engine = f.engine(trigger, true);
        let records = f.pass(engine, CleanupProcessUse::Clear).unwrap();
        let decisions: Vec<_> = records
            .into_iter()
            .map(|r| (r.candidate, r.state, r.reason))
            .collect();
        if let Some(expected) = &expected {
            assert_eq!(&decisions, expected);
        } else {
            expected = Some(decisions);
        }
    }
}

#[test]
fn cleanup_stale_session_snapshot_cannot_erase_a_new_admission() {
    let mut f = Fixture::new();
    let path = f.worktree("new-session");
    let admission = f.enter("/work/session", &path).unwrap();
    f.sync("/work/session", &[]);
    assert!(ownership::reason(&f.owners, &bytes(&path)).is_some());
    f.release(admission);
    f.sync("/work/session", &[]);
    assert!(ownership::reason(&f.owners, &bytes(&path)).is_none());
}

#[test]
fn cleanup_preserves_tracked_changes_hidden_by_index_flags() {
    for flag in ["h tracked\0", "S tracked\0"] {
        let mut f = Fixture::new();
        let path = f.worktree("hidden");
        f.git.worktree(&path).flags = flag.into();
        assert!(f
            .reconcile(false)
            .iter()
            .any(|r| r.reason.contains("index flags")));
        assert!(f.present(&path));
    }
}

#[test]
fn cleanup_stale_policy_is_rejected_under_settings_lease() {
    let mut f = Fixture::new();
    let path = f.worktree("retained-later");
    f.settings = Some(Settings {
        policy: Policy {
            enabled: false,
            ..Policy::default()
        },
        repositories: vec![Registration {
            repository: f.repo.root.clone(),
            policy: None,
            next_attempt: 0,
            failures: 0,
        }],
    });
    let engine = f.engine("old-policy", false);
    assert!(f
        .pass(engine, CleanupProcessUse::Clear)
        .unwrap_err()
        .contains("policy changed"));
    assert!(f.present(&path));
    f.settings = Some(Settings::default());
    let engine = f.engine("old-policy", false);
    assert_eq!(
        f.pass(engine, CleanupProcessUse::Clear).unwrap_err(),
        "repository registration changed"
    );
}

/// The worker takes up the next command and makes the round that it asks for.
fn step(
    f: &mut Fixture,
    service: &mut Service,
    worker: &mut Worker,
    stored: &mut Settings,
) -> Result<(), String> {
    let command = service.begin();
    let id = match &command {
        Some(Command::Action(id, _)) => Some(*id),
        _ => None,
    };
    let result = round(f, service, worker, stored, command);
    service.finish(id, result.clone());
    result
}

fn round(
    f: &mut Fixture,
    service: &mut Service,
    worker: &mut Worker,
    stored: &mut Settings,
    command: Option<Command>,
) -> Result<(), String> {
    if Worker::only_inspects(&command) {
        service.publish_settings(stored.clone());
        return Ok(());
    }
    let root = f.repo.root.clone();
    let open = |path: &Vec<u8>| {
        if path.starts_with(&root) {
            Ok(root.clone())
        } else {
            Err("not a repository".to_string())
        }
    };
    let mut facts = CommandFacts {
        roots: Vec::new(),
        canonical: Vec::new(),
        root: None,
    };
    match &command {
        Some(Command::Sync { paths, .. }) => {
            facts.roots = paths.iter().map(|path| open(path).ok()).collect();
        }
        Some(Command::Action(_, Action::Register { repository })) => {
            facts.root = Some(open(repository));
        }
        Some(Command::Action(_, Action::Configure { repository, policy })) => {
            facts.canonical = policy.retained_worktrees.iter().map(|_| None).collect();
            facts.root = repository.as_ref().map(|path| open(path));
        }
        _ => {}
    }
    let prepared = worker.prepare(stored.clone(), command, facts)?;
    *stored = prepared.settings.clone();
    service.publish_settings(stored.clone());
    let selected = prepared.selected.as_ref().map(|path| open(path));
    let (mut round, mut step) = Round::begin(worker, prepared, selected, f.now)?;
    loop {
        let event = match step {
            RoundStep::Open(path) => RoundEvent::Opened(open(&path).map(|root| {
                let refs = f.git.run(&f.repo.branch_list()).unwrap();
                (Repository::open(bytes(COMMON), root), refs)
            })),
            RoundStep::Reconcile(engine) => {
                f.settings = Some(stored.clone());
                RoundEvent::Reconciled(f.pass(engine, CleanupProcessUse::Clear))
            }
            RoundStep::Reread => RoundEvent::Reread(Ok(stored.clone())),
            RoundStep::Save(settings) => {
                *stored = settings;
                RoundEvent::Saved(Ok(()))
            }
            RoundStep::Done(settings, records, result) => {
                service.publish_round(settings, records);
                return result;
            }
            RoundStep::Failed(message) => return Err(message),
        };
        step = round.next(worker, event, f.now);
    }
}

#[test]
fn cleanup_worker_persists_registration_policy_and_reports_operations() {
    let mut f = Fixture::new();
    let mut stored = Settings {
        policy: Policy {
            enabled: false,
            ..Policy::default()
        },
        ..Default::default()
    };
    let mut service = Service::start("boot".into());
    let mut worker = Worker::new();
    service
        .sync(vec![f.repo.root.clone()], "startup".into())
        .unwrap();
    let operation = service
        .submit(Action::Preview {
            repository: Some(f.repo.root.clone()),
        })
        .unwrap();
    assert!(step(&mut f, &mut service, &mut worker, &mut stored).is_ok());
    assert!(step(&mut f, &mut service, &mut worker, &mut stored).is_ok());
    let snapshot = service.snapshot().unwrap();
    let op = snapshot
        .operations
        .iter()
        .find(|op| op.id == operation && op.state != "running")
        .expect("operation");
    assert_eq!(op.state, "completed", "{:?}", op.diagnostic);
    assert_eq!(snapshot.settings.repositories.len(), 1);
    assert!(!snapshot.settings.policy.enabled);
    assert_eq!(stored.repositories[0].repository, f.repo.root);
    assert_eq!(snapshot.report_generation, 1);
    assert_eq!(snapshot.records.len(), 1);
}

#[test]
fn cleanup_inspect_never_reconciles_or_removes_resources() {
    let mut f = Fixture::new();
    let path = f.worktree("inspect-only");
    let mut stored = Settings {
        policy: Policy::default(),
        repositories: vec![Registration {
            repository: f.repo.root.clone(),
            policy: None,
            next_attempt: 0,
            failures: 0,
        }],
    };
    let mut service = Service::start("boot".into());
    let mut worker = Worker::new();
    let operation = service.submit(Action::Inspect).unwrap();
    assert!(step(&mut f, &mut service, &mut worker, &mut stored).is_ok());
    let snapshot = service.snapshot().unwrap();
    assert!(snapshot
        .operations
        .iter()
        .any(|op| op.id == operation && op.state == "completed"));
    assert!(f.present(&path), "inspect must not remove an eligible worktree");
    assert!(f.audit.is_empty());
}

#[test]
fn cleanup_git_subprocess_ignores_inherited_repository_routing() {
    for name in ["GIT_DIR", "GIT_WORK_TREE", "GIT_INDEX_FILE", "GIT_NAMESPACE"] {
        assert!(removes_variable(name.as_bytes()));
    }
    assert!(!removes_variable(b"GITHUB_TOKEN"));
    assert!(!removes_variable(b"HERDR_CLEANUP_ENV_PROBE"));
    let run = Fixture::new().repo.git(&["rev-parse"]);
    assert_eq!(text(&run.cwd), ROOT);
    let set: Vec<&str> = run.set.iter().map(|entry| entry.0.as_str()).collect();
    assert_eq!(
        set,
        vec![
            "GIT_TERMINAL_PROMPT",
            "GIT_NO_REPLACE_OBJECTS",
            "GCM_INTERACTIVE",
            "GH_PROMPT_DISABLED"
        ]
    );
}

#[test]
fn cleanup_replacement_objects_do_not_manufacture_merge_evidence() {
    let mut f = Fixture::new();
    let path = f.worktree("unmerged");
    let commit = f.git.commit(&path);
    let integration = f.git.branch("main").unwrap();
    f.git.replaced = Some((integration, commit));
    let mut run = f.repo.ancestor(&sha(commit), &sha(integration));
    assert!(f.git.run(&run).is_err());
    f.reconcile(false);
    assert!(f.present(&path));
    // Without its environment, the same question would be answered otherwise.
    run.set.clear();
    assert!(f.git.run(&run).is_ok());
}

#[test]
fn intent_is_recorded_before_anything_is_removed() {
    let mut f = Fixture::new();
    f.worktree("merged");
    f.reconcile(false);
    let removing = f.audit.iter().position(|state| *state == State::Removing);
    let removed = f.audit.iter().position(|state| *state == State::Removed);
    assert!(removing.unwrap() < removed.unwrap());
    assert_eq!(f.history.len(), 2);
    assert!(f
        .history
        .iter()
        .any(|r| r.reason == "verified merged resources removed" && r.attempts == 1));
}

#[test]
fn a_shared_lock_defers_removal() {
    let mut f = Fixture::new();
    let path = f.worktree("locked-path");
    let lock = ownership::path_lock(&bytes(OWNERSHIP), &bytes(&path));
    f.shared.push(lock);
    let records = f.reconcile(false);
    assert!(records
        .iter()
        .any(|r| r.reason == "ownership unavailable" && r.state == State::Deferred));
    assert!(f.present(&path));
}

#[test]
fn a_process_in_a_worktree_keeps_it() {
    let mut f = Fixture::new();
    let path = f.worktree("busy");
    let engine = f.engine("test", false);
    let records = f.pass(engine, CleanupProcessUse::Active(42)).unwrap();
    assert!(records
        .iter()
        .any(|r| r.reason == "worktree in use by process 42"));
    assert!(f.present(&path));
}

#[test]
fn locks_are_named_by_the_digest_of_a_path() {
    let lock = text(&ownership::path_lock(&bytes("/own"), &bytes("/work")));
    assert_eq!(
        lock,
        format!("/own/leases/{}", ownership::key(&bytes("/work")))
    );
    let key = ownership::key(&bytes("abc"));
    assert_eq!(
        key,
        "ba7816bf8f01cfea414140de5dae2223b00361a396177a9cb410ff61f20015ad"
    );
    let admission = Admission::at(&bytes("/own"), &bytes("/session"), &bytes("/a/b"));
    assert_eq!(admission.leases.len(), 3);
    assert_eq!(
        admission.leases[1],
        ownership::path_lock(&bytes("/own"), &bytes("/a"))
    );
}

#[test]
fn a_host_answer_that_is_no_list_gives_no_evidence() {
    assert!(pull_requests("{\"number\": 1}").is_none());
    assert!(pull_requests("not json").is_none());
    assert_eq!(pull_requests("[]").unwrap().len(), 0);
    let pulls = pull_requests("[{\"number\": -1, \"head\": {}}]").unwrap();
    assert_eq!(pulls[0].number, None);
    assert_eq!(pulls[0].source, None);
    assert_eq!(pulls[0].merged_at, None);
}

#[test]
fn host_addresses_name_a_repository() {
    assert_eq!(
        github_repository("git@github.com:owner/name.git").as_deref(),
        Some("owner/name")
    );
    assert_eq!(
        github_repository("https://github.com/owner/name").as_deref(),
        Some("owner/name")
    );
    assert_eq!(github_repository("https://example.com/owner/name"), None);
    assert_eq!(github_repository("/work/remote.git"), None);
}

#[test]
fn a_repository_that_cannot_be_opened_is_told_by_its_path() {
    let mut f = Fixture::new();
    let mut stored = Settings {
        policy: Policy::default(),
        repositories: vec![
            Registration {
                repository: b"/gone/\xff".to_vec(),
                policy: None,
                next_attempt: 0,
                failures: 0,
            },
            Registration {
                repository: bytes("/also/gone"),
                policy: None,
                next_attempt: 0,
                failures: 6,
            },
        ],
    };
    let mut service = Service::start("boot".into());
    let mut worker = Worker::new();
    let waiting = step(&mut f, &mut service, &mut worker, &mut stored);
    assert_eq!(
        waiting.unwrap_err(),
        "waiting for authoritative session ownership"
    );
    service.sync(Vec::new(), "startup".into()).unwrap();
    let failed = step(&mut f, &mut service, &mut worker, &mut stored);
    assert_eq!(
        failed.unwrap_err(),
        "/gone/\u{fffd}: not a repository; /also/gone: not a repository"
    );
    assert_eq!(stored.repositories[0].failures, 1);
    assert_eq!(stored.repositories[0].next_attempt, f.now + 60);
    assert_eq!(stored.repositories[1].failures, 7);
    assert_eq!(stored.repositories[1].next_attempt, f.now + 3600);
}

#[test]
fn a_repository_is_left_alone_until_it_is_due() {
    let mut f = Fixture::new();
    let mut stored = Settings {
        policy: f.policy.clone(),
        repositories: Vec::new(),
    };
    let mut service = Service::start("boot".into());
    let mut worker = Worker::new();
    service
        .sync(vec![f.repo.root.clone()], "startup".into())
        .unwrap();
    assert!(step(&mut f, &mut service, &mut worker, &mut stored).is_ok());
    let looked = f.audit.len();
    assert!(looked > 0);
    // Nothing has changed and its time has not come.
    assert!(round(&mut f, &mut service, &mut worker, &mut stored, None).is_ok());
    assert_eq!(f.audit.len(), looked);
    // Its references have changed.
    f.worktree("merged");
    assert!(round(&mut f, &mut service, &mut worker, &mut stored, None).is_ok());
    assert!(f.audit.len() > looked);
    assert!(f.history.iter().any(|r| r.trigger == "git_references_changed"));
    assert!(!f.present("/work/merged"));
}

#[test]
fn configuration_is_checked_before_it_is_kept() {
    let mut f = Fixture::new();
    let mut stored = Settings::default();
    let mut service = Service::start("boot".into());
    let mut worker = Worker::new();
    service.sync(Vec::new(), "startup".into()).unwrap();
    assert!(step(&mut f, &mut service, &mut worker, &mut stored).is_ok());
    let relative = Policy {
        retained_worktrees: vec![bytes("here")],
        ..Policy::default()
    };
    service
        .submit(Action::Configure {
            repository: Some(bytes("/elsewhere")),
            policy: relative,
        })
        .unwrap();
    assert_eq!(
        step(&mut f, &mut service, &mut worker, &mut stored).unwrap_err(),
        "retained worktree paths must be absolute"
    );
    service
        .submit(Action::Configure {
            repository: Some(f.repo.root.clone()),
            policy: Policy::default(),
        })
        .unwrap();
    assert_eq!(
        step(&mut f, &mut service, &mut worker, &mut stored).unwrap_err(),
        "repository must be registered before configuring"
    );
    service
        .submit(Action::Register {
            repository: f.repo.root.clone(),
        })
        .unwrap();
    assert!(step(&mut f, &mut service, &mut worker, &mut stored).is_ok());
    let off = Policy {
        enabled: false,
        ..Policy::default()
    };
    service
        .submit(Action::Configure {
            repository: Some(f.repo.root.clone()),
            policy: off.clone(),
        })
        .unwrap();
    assert!(step(&mut f, &mut service, &mut worker, &mut stored).is_ok());
    assert_eq!(stored.repositories[0].policy, Some(off));
    assert!(stored.policy.enabled);
    service
        .submit(Action::Reconcile {
            repository: Some(bytes("/elsewhere")),
        })
        .unwrap();
    assert_eq!(
        step(&mut f, &mut service, &mut worker, &mut stored).unwrap_err(),
        "not a repository"
    );
}

#[test]
fn what_sessions_can_resume_is_owned_once() {
    let workspace = OwnedWorkspace {
        identity_cwd: bytes("/work/b"),
        checkout: Some(bytes("/work/a")),
        panes: vec![bytes("/work/b"), bytes("/work/a-b")],
    };
    let owned = cleanup_owned_paths(&vec![workspace], &vec![bytes("/work/a/c")]);
    let owned: Vec<String> = owned.iter().map(|path| text(path)).collect();
    assert_eq!(owned, vec!["/work/a", "/work/a/c", "/work/a-b", "/work/b"]);
}

#[test]
fn the_application_publishes_what_it_owns_and_tells_of_removals() {
    let mut f = Fixture::new();
    f.worktree("merged");
    let mut runtime = CleanupRuntime::new();
    let owned = vec![f.repo.root.clone()];
    let boot = || String::from("boot");
    assert!(runtime.poll_cleanup(false, owned.clone(), boot(), 5).is_none());
    assert!(runtime.service.is_none() && runtime.next_sync.is_none());
    assert!(runtime.poll_cleanup(true, owned.clone(), boot(), 5).is_none());
    assert_eq!(runtime.next_sync, Some(5_005));
    assert_eq!(runtime.last_paths, owned);
    let mut service = runtime.service.take().expect("service");
    assert_eq!(service.snapshot.boot_id, "boot");
    assert!(matches!(
        &service.queue[..],
        [Command::Sync { trigger, .. }] if trigger == "startup"
    ));
    let mut worker = Worker::new();
    let mut stored = Settings {
        policy: f.policy.clone(),
        repositories: Vec::new(),
    };
    assert!(step(&mut f, &mut service, &mut worker, &mut stored).is_ok());
    runtime.service = Some(service);
    assert!(runtime.poll_cleanup(true, owned.clone(), boot(), 5_004).is_none());
    let event = runtime
        .poll_cleanup(true, owned.clone(), boot(), 5_005)
        .expect("news");
    assert_eq!(event.generation, 1);
    assert!(runtime.poll_cleanup(true, Vec::new(), boot(), 10_005).is_none());
    assert!(runtime.last_paths.is_empty());
    let mut service = runtime.service.take().expect("service");
    assert!(matches!(
        &service.queue[..],
        [Command::Sync { trigger, .. }] if trigger == "periodic"
    ));
    service.queue.clear();
    service.sync_pending = false;
    service.closed = true;
    runtime.service = Some(service);
    assert!(runtime.poll_cleanup(true, owned.clone(), boot(), 20_000).is_none());
    assert!(runtime.last_paths.is_empty());
    let mut service = runtime.service.take().expect("service");
    service.closed = false;
    runtime.service = Some(service);
    assert!(runtime.poll_cleanup(true, owned, boot(), 30_000).is_none());
    let service = runtime.service.take().expect("service");
    assert!(matches!(
        &service.queue[..],
        [Command::Sync { trigger, .. }] if trigger == "session_ownership_changed"
    ));
    let notice = runtime.take_cleanup_notice().expect("notice");
    assert_eq!(
        notice,
        "Removed 1 merged items; retained 0. Details: herdr worktree cleanup inspect"
    );
    assert_eq!(runtime.take_cleanup_notice(), None);
    runtime.cleanup_trigger();
    assert_eq!(runtime.next_sync, None);
    let mut none = None;
    assert_eq!(
        answer_action(&mut none, Action::Inspect).unwrap_err(),
        "cleanup unavailable in this runtime"
    );
    let mut some = Some(service);
    let (_, submitted) = answer_action(
        &mut some,
        Action::Reconcile { repository: None },
    )
    .unwrap();
    assert!(submitted.is_some());
    let (_, inspected) = answer_action(&mut some, Action::Inspect).unwrap();
    assert!(inspected.is_none());
}

#[test]
fn the_first_reason_to_keep_a_candidate_is_told() {
    let mut f = Fixture::new();
    let path = f.worktree("kept");
    let mut candidate = f.candidate(&path);
    let evidence = Some(MergeEvidence::Ancestor {
        integration: sha(0),
    });
    let mut policy = Policy::default();
    let reason = |policy: &Policy,
                  candidate: &Candidate,
                  evidence: &Option<MergeEvidence>,
                  owned: Option<&str>,
                  local: Option<&str>| {
        retention_reason(
            policy,
            candidate,
            "main",
            evidence,
            &owned.map(|text| text.to_string()),
            &local.map(|text| text.to_string()),
        )
    };
    assert_eq!(reason(&policy, &candidate, &evidence, None, None), None);
    assert_eq!(
        reason(&policy, &candidate, &None, None, None).as_deref(),
        Some("merge not verified at current commit")
    );
    assert_eq!(
        reason(&policy, &candidate, &None, Some("owned"), Some("local")).as_deref(),
        Some("owned")
    );
    assert_eq!(
        reason(&policy, &candidate, &None, None, Some("local")).as_deref(),
        Some("local")
    );
    policy.retained_branches.push("kept".into());
    assert_eq!(
        reason(&policy, &candidate, &evidence, Some("owned"), None).as_deref(),
        Some("explicit retention exception")
    );
    policy.protected_branches.push("kept".into());
    assert_eq!(
        reason(&policy, &candidate, &evidence, None, None).as_deref(),
        Some("protected branch")
    );
    candidate.locked = true;
    assert_eq!(
        reason(&policy, &candidate, &evidence, None, None).as_deref(),
        Some("worktree locked")
    );
    candidate.unavailable = true;
    assert_eq!(
        reason(&policy, &candidate, &evidence, None, None).as_deref(),
        Some("worktree identity unavailable")
    );
    candidate.primary = true;
    assert_eq!(
        reason(&policy, &candidate, &evidence, None, None).as_deref(),
        Some("primary checkout")
    );
    policy.enabled = false;
    assert_eq!(
        reason(&policy, &candidate, &evidence, None, None).as_deref(),
        Some("automatic cleanup disabled")
    );
}

#[test]
fn a_request_of_the_api_publishes_first_and_then_answers() {
    let mut runtime = CleanupRuntime::new();
    let owned = vec![bytes("/work/repo")];
    let boot = || String::from("boot");
    let told = runtime.handle_cleanup_api(false, owned.clone(), boot(), Action::Inspect, 5);
    assert!(told.event.is_none());
    assert_eq!(
        told.answer.err().as_deref(),
        Some("cleanup unavailable in this runtime")
    );
    let told = runtime.handle_cleanup_api(true, owned.clone(), boot(), Action::Inspect, 5);
    let (snapshot, submitted) = told.answer.ok().expect("answer");
    assert_eq!(snapshot.boot_id, "boot");
    assert_eq!(submitted, None);
    assert_eq!(runtime.next_sync, Some(5_005));
    let action = Action::Reconcile { repository: None };
    let told = runtime.handle_cleanup_api(true, owned, boot(), action, 6);
    let (_, submitted) = told.answer.ok().expect("answer");
    assert_eq!(submitted, Some(1));
    let service = runtime.service.take().expect("service");
    assert!(matches!(
        &service.queue[..],
        [Command::Sync { .. }, Command::Action(1, Action::Reconcile { .. })]
    ));
}

#[test]
fn references_are_listed_and_resolved_noninteractively() {
    let f = Fixture::new();
    let listed = f.repo.references();
    assert_eq!(listed.program, "git");
    assert_eq!(
        listed.args,
        [
            "for-each-ref",
            "--format=%(refname) %(objectname)",
            "refs/heads/",
            "refs/remotes/"
        ]
    );
    assert_eq!(listed.cwd, f.repo.root);
    let resolved = f.repo.resolve("refs/remotes/origin/main");
    assert_eq!(
        resolved.args,
        ["rev-parse", "--verify", "refs/remotes/origin/main"]
    );
    assert_eq!(resolved.cwd, f.repo.root);
}

#[test]
fn paths_are_compared_by_their_components() {
    let candidate = |path: &str| Candidate {
        path: Some(bytes(path)),
        branch: Some("topic".into()),
        commit: sha(1),
        git_dir: None,
        identity: None,
        primary: false,
        locked: false,
        unavailable: false,
    };
    assert!(candidate("/w//a/./b/") == candidate("/w/a/b"));
    assert!(candidate("/w/a/b") != candidate("/w/a"));
    let policy = |path: &str| Policy {
        retained_worktrees: vec![bytes(path)],
        ..Policy::default()
    };
    assert!(policy("/w/") == policy("/w"));
    assert!(policy("./w") != policy("w"));

    let evidence = Some(MergeEvidence::Ancestor {
        integration: sha(0),
    });
    for (retained, kept) in [("/w/", true), ("/w//.", true), ("/w/..", false), ("w", false)] {
        let reason = retention_reason(
            &Policy {
                enabled: true,
                ..policy(retained)
            },
            &candidate("/w"),
            "main",
            &evidence,
            &None,
            &None,
        );
        assert_eq!(
            reason.as_deref() == Some("explicit retention exception"),
            kept,
            "{retained}"
        );
    }

    let session = bytes("/session");
    let mut owner = Owner::new();
    owner.claim(&session, bytes("/w/a"));
    owner.claim(&session, bytes("/w/a/"));
    owner.claim(&session, bytes("/w/b"));
    assert_eq!(owner.paths, [bytes("/w/a"), bytes("/w/b")]);

    let settings = Settings {
        policy: Policy::default(),
        repositories: vec![Registration {
            repository: bytes("/work/repo/"),
            policy: None,
            next_attempt: 0,
            failures: 0,
        }],
    };
    assert_eq!(settings.position(&bytes("/work//repo")), Some(0));
    assert_eq!(settings.position(&bytes("/work/repos")), None);
}

#[test]
fn a_pass_that_follows_at_once_removes_nothing() {
    let mut f = Fixture::new();
    f.worktree("merged");
    let first = f.reconcile(false);
    assert_eq!(
        first.iter().filter(|record| record.state == State::Removed).count(),
        1
    );
    let second = f.reconcile(false);
    assert!(second.iter().all(|record| record.state != State::Removed));
}

#[test]
fn a_policy_is_held_against_the_settings_before_anything_else() {
    let f = Fixture::new();
    let settings = |policy: Policy, repository: &str| {
        Some(Settings {
            policy,
            repositories: vec![Registration {
                repository: bytes(repository),
                policy: None,
                next_attempt: 0,
                failures: 0,
            }],
        })
    };
    let engine = f.engine("test", false);
    let root = format!("{ROOT}/");
    assert_eq!(engine.still_current(&None), Ok(()));
    assert_eq!(
        engine.still_current(&settings(f.policy.clone(), &root)),
        Ok(())
    );
    assert_eq!(
        engine.still_current(&settings(f.policy.clone(), "/other")),
        Err("repository registration changed".to_owned())
    );
    let changed = Policy {
        enabled: !f.policy.enabled,
        ..f.policy.clone()
    };
    assert_eq!(
        engine.still_current(&settings(changed, ROOT)),
        Err("cleanup policy changed; reconciliation deferred".to_owned())
    );
}

#[test]
fn previews_differ_in_trigger_time_and_attempts_alone() {
    let mut f = Fixture::new();
    f.worktree("eligible");
    let dirty = f.worktree("dirty");
    f.git.worktree(&dirty).status = "?? draft\0".into();
    let engine = f.engine("merge", true);
    let first = f.pass(engine, CleanupProcessUse::Clear).unwrap();
    f.now += 86_400;
    let engine = f.engine("periodic", true);
    let second = f.pass(engine, CleanupProcessUse::Clear).unwrap();
    assert_eq!(first.len(), second.len());
    assert!(first.iter().any(|record| record.reason.contains("local files")));
    for (a, b) in first.iter().zip(&second) {
        assert_eq!(a.repository, b.repository);
        assert_eq!(a.candidate, b.candidate);
        assert_eq!(a.evidence, b.evidence);
        assert_eq!(a.state, b.state);
        assert_eq!(a.reason, b.reason);
        assert!(!a.worktree_removed && !b.worktree_removed);
        assert!(!a.branch_removed && !b.branch_removed);
        assert_eq!((a.trigger.as_str(), b.trigger.as_str()), ("merge", "periodic"));
        assert!(a.timestamp < b.timestamp);
        assert_eq!((a.attempts, b.attempts), (1, 2));
    }
}
