//! What is kept and why: the policy of an owner, the candidates of a repository, and the
//! records of what was decided.
use vstd::prelude::*;

use crate::path::{all_components, names, names_path, place, same_path, same_paths};
use crate::runtime_provider::copy_bytes;
use crate::text::{contains_text, paths, same, text_of, texts};

verus! {

/// The bytes of an optional path.
pub open spec fn path_view(value: Option<Vec<u8>>) -> Option<Seq<u8>> {
    match value {
        Some(path) => Some(path@),
        None => None,
    }
}

pub fn copy_path(value: &Option<Vec<u8>>) -> (r: Option<Vec<u8>>)
    ensures
        path_view(r) == path_view(*value),
{
    match value {
        Some(path) => Some(copy_bytes(path)),
        None => None,
    }
}

/// Whether two optional paths are the same.
pub fn same_place(a: &Option<Vec<u8>>, b: &Option<Vec<u8>>) -> (r: bool)
    ensures
        r == (place(path_view(*a)) == place(path_view(*b))),
{
    match (a, b) {
        (Some(a), Some(b)) => same_path(a, b),
        (None, None) => true,
        _ => false,
    }
}

pub fn same_text(a: &Option<String>, b: &Option<String>) -> (r: bool)
    ensures
        r == (text_of(*a) == text_of(*b)),
{
    match (a, b) {
        (Some(a), Some(b)) => same(a.as_str(), b.as_str()),
        (None, None) => true,
        _ => false,
    }
}

fn same_texts(a: &Vec<String>, b: &Vec<String>) -> (r: bool)
    ensures
        r == (texts(a@) == texts(b@)),
{
    if a.len() != b.len() {
        assert(texts(a@).len() != texts(b@).len());
        return false;
    }
    let mut i: usize = 0;
    while i < a.len()
        invariant
            i <= a@.len() == b@.len(),
            forall|j: int| 0 <= j < i ==> (#[trigger] a@[j])@ == b@[j]@,
        decreases a@.len() - i,
    {
        if !same(a[i].as_str(), b[i].as_str()) {
            assert(texts(a@)[i as int] != texts(b@)[i as int]);
            return false;
        }
        i = i + 1;
    }
    assert(texts(a@) =~= texts(b@));
    true
}

fn copy_texts(values: &Vec<String>) -> (r: Vec<String>)
    ensures
        texts(r@) == texts(values@),
{
    let mut out: Vec<String> = Vec::new();
    let mut i: usize = 0;
    while i < values.len()
        invariant
            i <= values@.len(),
            out@.len() == i,
            forall|j: int| 0 <= j < i ==> (#[trigger] out@[j])@ == values@[j]@,
        decreases values@.len() - i,
    {
        out.push(values[i].clone());
        i = i + 1;
    }
    assert(texts(out@) =~= texts(values@));
    out
}

pub fn copy_paths(values: &Vec<Vec<u8>>) -> (r: Vec<Vec<u8>>)
    ensures
        paths(r@) == paths(values@),
{
    let mut out: Vec<Vec<u8>> = Vec::new();
    let mut i: usize = 0;
    while i < values.len()
        invariant
            i <= values@.len(),
            out@.len() == i,
            forall|j: int| 0 <= j < i ==> (#[trigger] out@[j])@ == values@[j]@,
        decreases values@.len() - i,
    {
        out.push(copy_bytes(&values[i]));
        i = i + 1;
    }
    assert(paths(out@) =~= paths(values@));
    out
}

/// What an owner wants kept, and where merges are looked for.
#[derive(Debug, Eq)]
pub struct Policy {
    pub enabled: bool,
    pub remote: String,
    /// Branch name on `remote`; absent means that the live remote HEAD is resolved.
    pub integration_branch: Option<String>,
    pub protected_branches: Vec<String>,
    pub retained_branches: Vec<String>,
    pub retained_worktrees: Vec<Vec<u8>>,
    pub github_merge_evidence: bool,
}

#[verifier::ext_equal]
pub struct PolicyView {
    pub enabled: bool,
    pub remote: Seq<char>,
    pub integration_branch: Option<Seq<char>>,
    pub protected_branches: Seq<Seq<char>>,
    pub retained_branches: Seq<Seq<char>>,
    pub retained_worktrees: Seq<Seq<u8>>,
    pub github_merge_evidence: bool,
}

impl View for Policy {
    type V = PolicyView;

    open spec fn view(&self) -> PolicyView {
        PolicyView {
            enabled: self.enabled,
            remote: self.remote@,
            integration_branch: text_of(self.integration_branch),
            protected_branches: texts(self.protected_branches@),
            retained_branches: texts(self.retained_branches@),
            retained_worktrees: paths(self.retained_worktrees@),
            github_merge_evidence: self.github_merge_evidence,
        }
    }
}

impl PolicyView {
    /// The policy of an owner who has configured none.
    pub open spec fn standard() -> Self {
        PolicyView {
            enabled: true,
            remote: "origin"@,
            integration_branch: None,
            protected_branches: seq![
                "main"@,
                "master"@,
                "develop"@,
                "development"@,
                "trunk"@,
            ],
            retained_branches: Seq::empty(),
            retained_worktrees: Seq::empty(),
            github_merge_evidence: true,
        }
    }
}

impl Default for Policy {
    fn default() -> (r: Self)
        ensures
            r@ == PolicyView::standard(),
    {
        let mut protected_branches: Vec<String> = Vec::new();
        protected_branches.push("main".to_owned());
        protected_branches.push("master".to_owned());
        protected_branches.push("develop".to_owned());
        protected_branches.push("development".to_owned());
        protected_branches.push("trunk".to_owned());
        let policy = Policy {
            enabled: true,
            remote: "origin".to_owned(),
            integration_branch: None,
            protected_branches,
            retained_branches: Vec::new(),
            retained_worktrees: Vec::new(),
            github_merge_evidence: true,
        };
        assert(policy@ =~~= PolicyView::standard());
        policy
    }
}

impl Clone for Policy {
    fn clone(&self) -> (r: Self)
        ensures
            r@ == self@,
    {
        Policy {
            enabled: self.enabled,
            remote: self.remote.clone(),
            integration_branch: self.integration_branch.clone(),
            protected_branches: copy_texts(&self.protected_branches),
            retained_branches: copy_texts(&self.retained_branches),
            retained_worktrees: copy_paths(&self.retained_worktrees),
            github_merge_evidence: self.github_merge_evidence,
        }
    }
}

impl PolicyView {
    /// Two policies say the same. Worktrees are compared as paths.
    pub open spec fn same_as(self, other: Self) -> bool {
        &&& self == (PolicyView { retained_worktrees: self.retained_worktrees, ..other })
        &&& all_components(self.retained_worktrees) == all_components(other.retained_worktrees)
    }
}

impl PartialEq for Policy {
    fn eq(&self, other: &Self) -> (r: bool) {
        self.equals(other)
    }
}

impl vstd::std_specs::cmp::PartialEqSpecImpl for Policy {
    open spec fn obeys_eq_spec() -> bool {
        true
    }

    open spec fn eq_spec(&self, other: &Self) -> bool {
        self@.same_as(other@)
    }
}

impl Policy {
    pub fn equals(&self, other: &Self) -> (r: bool)
        ensures
            r == self@.same_as(other@),
    {
        self.enabled == other.enabled && same(self.remote.as_str(), other.remote.as_str())
            && same_text(&self.integration_branch, &other.integration_branch) && same_texts(
            &self.protected_branches,
            &other.protected_branches,
        ) && same_texts(&self.retained_branches, &other.retained_branches) && same_paths(
            &self.retained_worktrees,
            &other.retained_worktrees,
        ) && self.github_merge_evidence == other.github_merge_evidence
    }
}

/// A worktree or a loose branch that may be removed.
#[derive(Debug, Eq)]
pub struct Candidate {
    pub path: Option<Vec<u8>>,
    pub branch: Option<String>,
    pub commit: String,
    pub git_dir: Option<Vec<u8>>,
    /// The contents and the file system identity of the worktree's marker, taken together.
    pub identity: Option<String>,
    pub primary: bool,
    pub locked: bool,
    pub unavailable: bool,
}

#[verifier::ext_equal]
pub struct CandidateView {
    pub path: Option<Seq<u8>>,
    pub branch: Option<Seq<char>>,
    pub commit: Seq<char>,
    pub git_dir: Option<Seq<u8>>,
    pub identity: Option<Seq<char>>,
    pub primary: bool,
    pub locked: bool,
    pub unavailable: bool,
}

impl View for Candidate {
    type V = CandidateView;

    open spec fn view(&self) -> CandidateView {
        CandidateView {
            path: path_view(self.path),
            branch: text_of(self.branch),
            commit: self.commit@,
            git_dir: path_view(self.git_dir),
            identity: text_of(self.identity),
            primary: self.primary,
            locked: self.locked,
            unavailable: self.unavailable,
        }
    }
}

impl Clone for Candidate {
    fn clone(&self) -> (r: Self)
        ensures
            r@ == self@,
    {
        Candidate {
            path: copy_path(&self.path),
            branch: self.branch.clone(),
            commit: self.commit.clone(),
            git_dir: copy_path(&self.git_dir),
            identity: self.identity.clone(),
            primary: self.primary,
            locked: self.locked,
            unavailable: self.unavailable,
        }
    }
}

impl CandidateView {
    /// Two candidates are the same. Their worktrees and Git directories are compared as paths.
    pub open spec fn same_as(self, other: Self) -> bool {
        &&& self == (CandidateView { path: self.path, git_dir: self.git_dir, ..other })
        &&& place(self.path) == place(other.path)
        &&& place(self.git_dir) == place(other.git_dir)
    }
}

impl PartialEq for Candidate {
    fn eq(&self, other: &Self) -> (r: bool) {
        self.equals(other)
    }
}

impl vstd::std_specs::cmp::PartialEqSpecImpl for Candidate {
    open spec fn obeys_eq_spec() -> bool {
        true
    }

    open spec fn eq_spec(&self, other: &Self) -> bool {
        self@.same_as(other@)
    }
}

impl Candidate {
    pub fn equals(&self, other: &Self) -> (r: bool)
        ensures
            r == self@.same_as(other@),
    {
        same_place(&self.path, &other.path) && same_text(&self.branch, &other.branch) && same(
            self.commit.as_str(),
            other.commit.as_str(),
        ) && same_place(&self.git_dir, &other.git_dir) && same_text(&self.identity, &other.identity)
            && self.primary == other.primary && self.locked == other.locked && self.unavailable
            == other.unavailable
    }
}

/// Why the commit of a candidate counts as merged.
#[derive(Debug, PartialEq, Eq)]
pub enum MergeEvidence {
    /// It is an ancestor of the integration commit.
    Ancestor { integration: String },
    /// A pull request took it as its exact source, and its merge is integrated.
    Github { integration: String, pull_request: u64, source: String, merge: String },
}

#[verifier::ext_equal]
pub enum EvidenceView {
    Ancestor { integration: Seq<char> },
    Github { integration: Seq<char>, pull_request: u64, source: Seq<char>, merge: Seq<char> },
}

impl EvidenceView {
    pub open spec fn at(self) -> Seq<char> {
        match self {
            EvidenceView::Ancestor { integration } => integration,
            EvidenceView::Github { integration, .. } => integration,
        }
    }
}

impl View for MergeEvidence {
    type V = EvidenceView;

    open spec fn view(&self) -> EvidenceView {
        match self {
            MergeEvidence::Ancestor { integration } => EvidenceView::Ancestor {
                integration: integration@,
            },
            MergeEvidence::Github { integration, pull_request, source, merge } => {
                EvidenceView::Github {
                    integration: integration@,
                    pull_request: *pull_request,
                    source: source@,
                    merge: merge@,
                }
            },
        }
    }
}

impl Clone for MergeEvidence {
    fn clone(&self) -> (r: Self)
        ensures
            r == *self,
    {
        match self {
            MergeEvidence::Ancestor { integration } => MergeEvidence::Ancestor {
                integration: integration.clone(),
            },
            MergeEvidence::Github { integration, pull_request, source, merge } => {
                MergeEvidence::Github {
                    integration: integration.clone(),
                    pull_request: *pull_request,
                    source: source.clone(),
                    merge: merge.clone(),
                }
            },
        }
    }
}

impl MergeEvidence {
    /// The integration commit that the evidence holds for.
    pub fn integration(&self) -> (r: &str)
        ensures
            r@ == self@.at(),
    {
        match self {
            MergeEvidence::Ancestor { integration } => integration.as_str(),
            MergeEvidence::Github { integration, .. } => integration.as_str(),
        }
    }
}

/// The evidence of a record, where it has some.
pub open spec fn evidence_view(value: Option<MergeEvidence>) -> Option<EvidenceView> {
    match value {
        Some(evidence) => Some(evidence@),
        None => None,
    }
}

#[derive(Clone, Copy, Debug, PartialEq, Eq, Structural)]
pub enum State {
    Pending,
    Deferred,
    Removing,
    Removed,
    Failed,
}

/// What was decided of a candidate, and what was done.
#[derive(Debug)]
pub struct Record {
    pub repository: Vec<u8>,
    pub candidate: Candidate,
    pub evidence: Option<MergeEvidence>,
    pub trigger: String,
    pub timestamp: u64,
    pub attempts: u32,
    pub state: State,
    pub reason: String,
    pub worktree_removed: bool,
    pub branch_removed: bool,
}

#[verifier::ext_equal]
pub struct RecordView {
    pub repository: Seq<u8>,
    pub candidate: CandidateView,
    pub evidence: Option<EvidenceView>,
    pub trigger: Seq<char>,
    pub timestamp: u64,
    pub attempts: u32,
    pub state: State,
    pub reason: Seq<char>,
    pub worktree_removed: bool,
    pub branch_removed: bool,
}

impl View for Record {
    type V = RecordView;

    open spec fn view(&self) -> RecordView {
        RecordView {
            repository: self.repository@,
            candidate: self.candidate@,
            evidence: evidence_view(self.evidence),
            trigger: self.trigger@,
            timestamp: self.timestamp,
            attempts: self.attempts,
            state: self.state,
            reason: self.reason@,
            worktree_removed: self.worktree_removed,
            branch_removed: self.branch_removed,
        }
    }
}

impl Clone for Record {
    fn clone(&self) -> (r: Self)
        ensures
            r@ == self@,
    {
        Record {
            repository: copy_bytes(&self.repository),
            candidate: self.candidate.clone(),
            evidence: self.evidence.clone(),
            trigger: self.trigger.clone(),
            timestamp: self.timestamp,
            attempts: self.attempts,
            state: self.state,
            reason: self.reason.clone(),
            worktree_removed: self.worktree_removed,
            branch_removed: self.branch_removed,
        }
    }
}

/// What some records say.
pub open spec fn record_views(records: Seq<Record>) -> Seq<RecordView> {
    Seq::new(records.len(), |i: int| records[i]@)
}

/// What some candidates are.
pub open spec fn candidate_views(candidates: Seq<Candidate>) -> Seq<CandidateView> {
    Seq::new(candidates.len(), |i: int| candidates[i]@)
}

/// A candidate is still among those that were discovered.
pub open spec fn still_there(current: Seq<CandidateView>, candidate: CandidateView) -> bool {
    exists|i: int| 0 <= i < current.len() && (#[trigger] current[i]).same_as(candidate)
}

/// A branch that is never removed.
pub open spec fn protects(
    policy: PolicyView,
    candidate: CandidateView,
    integration_branch: Seq<char>,
) -> bool {
    candidate.branch matches Some(branch) && (branch == integration_branch
        || policy.protected_branches.contains(branch))
}

/// A branch or a worktree that the owner keeps.
pub open spec fn retains(policy: PolicyView, candidate: CandidateView) -> bool {
    ||| candidate.branch matches Some(branch) && policy.retained_branches.contains(branch)
    ||| candidate.path matches Some(path) && names(policy.retained_worktrees, path)
}

/// Why a candidate is kept, if it is: the first reason in a fixed order, so that repeated
/// passes explain the same facts.
pub open spec fn retention(
    policy: PolicyView,
    candidate: CandidateView,
    integration_branch: Seq<char>,
    merged: bool,
    owned: Option<Seq<char>>,
    local: Option<Seq<char>>,
) -> Option<Seq<char>> {
    if !policy.enabled {
        Some("automatic cleanup disabled"@)
    } else if candidate.primary {
        Some("primary checkout"@)
    } else if candidate.unavailable {
        Some("worktree identity unavailable"@)
    } else if candidate.locked {
        Some("worktree locked"@)
    } else if protects(policy, candidate, integration_branch) {
        Some("protected branch"@)
    } else if retains(policy, candidate) {
        Some("explicit retention exception"@)
    } else if owned is Some {
        owned
    } else if local is Some {
        local
    } else if !merged {
        Some("merge not verified at current commit"@)
    } else {
        None
    }
}

/// Why a candidate is kept, if it is.
pub fn retention_reason(
    policy: &Policy,
    candidate: &Candidate,
    integration_branch: &str,
    evidence: &Option<MergeEvidence>,
    ownership_reason: &Option<String>,
    local_reason: &Option<String>,
) -> (r: Option<String>)
    ensures
        text_of(r) == retention(
            policy@,
            candidate@,
            integration_branch@,
            evidence is Some,
            text_of(*ownership_reason),
            text_of(*local_reason),
        ),
        !policy.enabled || candidate.primary || candidate.unavailable || candidate.locked
            || evidence is None || ownership_reason is Some || local_reason is Some ==> r is Some,
        candidate.branch matches Some(branch) ==> (branch@ == integration_branch@ ==> r is Some),
        candidate.branch matches Some(branch) ==> forall|i: int|
            0 <= i < policy.protected_branches@.len() && branch@
                == (#[trigger] policy.protected_branches@[i])@ ==> r is Some,
{
    if !policy.enabled {
        return Some("automatic cleanup disabled".to_owned());
    }
    if candidate.primary {
        return Some("primary checkout".to_owned());
    }
    if candidate.unavailable {
        return Some("worktree identity unavailable".to_owned());
    }
    if candidate.locked {
        return Some("worktree locked".to_owned());
    }
    if let Some(branch) = &candidate.branch {
        if same(branch.as_str(), integration_branch) || contains_text(
            &policy.protected_branches,
            branch.as_str(),
        ) {
            return Some("protected branch".to_owned());
        }
    }
    let branch_retained: bool = match &candidate.branch {
        Some(branch) => contains_text(&policy.retained_branches, branch.as_str()),
        None => false,
    };
    let path_retained: bool = match &candidate.path {
        Some(path) => names_path(&policy.retained_worktrees, path),
        None => false,
    };
    if branch_retained || path_retained {
        return Some("explicit retention exception".to_owned());
    }
    if ownership_reason.is_some() {
        return ownership_reason.clone();
    }
    if local_reason.is_some() {
        return local_reason.clone();
    }
    if evidence.is_none() {
        return Some("merge not verified at current commit".to_owned());
    }
    assert(forall|i: int|
        0 <= i < policy.protected_branches@.len() ==> (#[trigger] policy.protected_branches@[i])@
            == policy@.protected_branches[i]);
    None
}

/// Nothing is removed without merge evidence, nor while a session or a process owns it or
/// it holds local work, and never a primary checkout or a protected branch.
pub proof fn removal_needs_every_clearance(
    policy: PolicyView,
    candidate: CandidateView,
    integration_branch: Seq<char>,
    merged: bool,
    owned: Option<Seq<char>>,
    local: Option<Seq<char>>,
)
    ensures
        retention(policy, candidate, integration_branch, merged, owned, local) is None <==> {
            &&& policy.enabled
            &&& !candidate.primary
            &&& !candidate.unavailable
            &&& !candidate.locked
            &&& !protects(policy, candidate, integration_branch)
            &&& !retains(policy, candidate)
            &&& owned is None
            &&& local is None
            &&& merged
        },
{
}

/// The integration branch is never removed, whatever else holds of it, and neither is a branch
/// or a worktree that the policy names.
pub proof fn named_branches_and_worktrees_are_kept(
    policy: PolicyView,
    candidate: CandidateView,
    integration_branch: Seq<char>,
    merged: bool,
    owned: Option<Seq<char>>,
    local: Option<Seq<char>>,
)
    ensures
        candidate.branch == Some(integration_branch) ==> retention(
            policy,
            candidate,
            integration_branch,
            merged,
            owned,
            local,
        ) is Some,
        forall|i: int|
            0 <= i < policy.protected_branches.len() && candidate.branch == Some(
                #[trigger] policy.protected_branches[i],
            ) ==> retention(
                policy,
                candidate,
                integration_branch,
                merged,
                owned,
                local,
            ) is Some,
        forall|i: int|
            0 <= i < policy.retained_branches.len() && candidate.branch == Some(
                #[trigger] policy.retained_branches[i],
            ) ==> retention(
                policy,
                candidate,
                integration_branch,
                merged,
                owned,
                local,
            ) is Some,
        forall|i: int|
            0 <= i < policy.retained_worktrees.len() && candidate.path == Some(
                #[trigger] policy.retained_worktrees[i],
            ) ==> retention(
                policy,
                candidate,
                integration_branch,
                merged,
                owned,
                local,
            ) is Some,
{
}

/// What is owned, holds local work, is not known to be merged, or is no ordinary worktree is
/// kept, and so is everything once cleanup is switched off.
pub proof fn doubtful_candidates_are_kept(
    policy: PolicyView,
    candidate: CandidateView,
    integration_branch: Seq<char>,
    merged: bool,
    owned: Option<Seq<char>>,
    local: Option<Seq<char>>,
)
    ensures
        !policy.enabled || candidate.primary || candidate.unavailable || candidate.locked
            || owned is Some || local is Some || !merged ==> retention(
            policy,
            candidate,
            integration_branch,
            merged,
            owned,
            local,
        ) is Some,
{
}

/// A merged candidate that nothing speaks for is let go.
pub proof fn unclaimed_merged_candidates_are_let_go(
    policy: PolicyView,
    candidate: CandidateView,
    integration_branch: Seq<char>,
)
    requires
        policy.enabled,
        !candidate.primary && !candidate.unavailable && !candidate.locked,
        candidate.branch != Some(integration_branch),
        forall|i: int|
            0 <= i < policy.protected_branches.len() ==> candidate.branch != Some(
                #[trigger] policy.protected_branches[i],
            ),
        forall|i: int|
            0 <= i < policy.retained_branches.len() ==> candidate.branch != Some(
                #[trigger] policy.retained_branches[i],
            ),
        candidate.path is None || policy.retained_worktrees.len() == 0,
    ensures
        retention(policy, candidate, integration_branch, true, None, None) is None,
{
}

/// Facts that speak for a candidate are told in a fixed order, the first one that holds: the
/// policy's switch, the primary checkout, an unknown identity, a lock, protection, an exception,
/// an owner, local work, and at last that no merge was verified.
pub proof fn the_first_reason_is_told(
    policy: PolicyView,
    candidate: CandidateView,
    integration_branch: Seq<char>,
    merged: bool,
    owned: Option<Seq<char>>,
    local: Option<Seq<char>>,
    i: int,
)
    ensures
        ({
            let told = retention(policy, candidate, integration_branch, merged, owned, local);
            let ordinary = policy.enabled && !candidate.primary && !candidate.unavailable
                && !candidate.locked;
            let unnamed = ordinary && candidate.branch is None && candidate.path is None;
            &&& !policy.enabled ==> told == Some("automatic cleanup disabled"@)
            &&& policy.enabled && candidate.primary ==> told == Some("primary checkout"@)
            &&& policy.enabled && !candidate.primary && candidate.unavailable ==> told == Some(
                "worktree identity unavailable"@,
            )
            &&& policy.enabled && !candidate.primary && !candidate.unavailable && candidate.locked
                ==> told == Some("worktree locked"@)
            &&& ordinary && candidate.branch == Some(integration_branch) ==> told == Some(
                "protected branch"@,
            )
            &&& ordinary && 0 <= i < policy.protected_branches.len() && candidate.branch == Some(
                policy.protected_branches[i],
            ) ==> told == Some("protected branch"@)
            &&& ordinary && candidate.branch is None && 0 <= i < policy.retained_worktrees.len()
                && candidate.path == Some(policy.retained_worktrees[i]) ==> told == Some(
                "explicit retention exception"@,
            )
            &&& unnamed && owned is Some ==> told == owned
            &&& unnamed && owned is None && local is Some ==> told == local
            &&& unnamed && owned is None && local is None && !merged ==> told == Some(
                "merge not verified at current commit"@,
            )
        }),
{
}

/// Evidence stands for the integration commit that it was found at.
pub proof fn evidence_names_its_integration_commit(
    integration: Seq<char>,
    pull_request: u64,
    source: Seq<char>,
    merge: Seq<char>,
)
    ensures
        (EvidenceView::Ancestor { integration }).at() == integration,
        (EvidenceView::Github { integration, pull_request, source, merge }).at() == integration,
{
}

/// A candidate is another one once its branch, its commit or what is known of its worktree has
/// changed.
pub proof fn changed_candidates_are_told_apart(a: CandidateView, b: CandidateView)
    ensures
        a == b ==> a.same_as(b),
        a.same_as(b) ==> b.same_as(a),
        a.commit != b.commit || a.branch != b.branch || a.identity != b.identity || a.primary
            != b.primary || a.locked != b.locked || a.unavailable != b.unavailable || (a.path is Some)
            != (b.path is Some) || (a.git_dir is Some) != (b.git_dir is Some) ==> !a.same_as(b),
{
}

/// What is known of candidates, evidence and records is told field by field.
pub proof fn views_tell_every_field(
    policy: Policy,
    candidate: Candidate,
    evidence: MergeEvidence,
    record: Record,
)
    ensures
        policy@.enabled == policy.enabled && policy@.remote == policy.remote@
            && policy@.github_merge_evidence == policy.github_merge_evidence,
        policy@.integration_branch is Some <==> policy.integration_branch is Some,
        policy@.protected_branches.len() == policy.protected_branches@.len(),
        forall|i: int|
            0 <= i < policy.protected_branches@.len() ==> #[trigger] policy@.protected_branches[i]
                == policy.protected_branches@[i]@,
        policy@.retained_branches.len() == policy.retained_branches@.len(),
        forall|i: int|
            0 <= i < policy.retained_branches@.len() ==> #[trigger] policy@.retained_branches[i]
                == policy.retained_branches@[i]@,
        policy@.retained_worktrees.len() == policy.retained_worktrees@.len(),
        forall|i: int|
            0 <= i < policy.retained_worktrees@.len() ==> #[trigger] policy@.retained_worktrees[i]
                == policy.retained_worktrees@[i]@,
        candidate@.primary == candidate.primary && candidate@.locked == candidate.locked
            && candidate@.unavailable == candidate.unavailable && candidate@.commit
            == candidate.commit@,
        match candidate.branch {
            Some(branch) => candidate@.branch == Some(branch@),
            None => candidate@.branch is None,
        },
        match candidate.path {
            Some(path) => candidate@.path == Some(path@),
            None => candidate@.path is None,
        },
        record@.state == record.state && record@.reason == record.reason@ && record@.candidate
            == record.candidate@ && record@.worktree_removed == record.worktree_removed
            && record@.branch_removed == record.branch_removed && record@.attempts
            == record.attempts && record@.timestamp == record.timestamp && record@.trigger
            == record.trigger@,
        (record@.evidence is Some) == (record.evidence is Some),
        evidence is Ancestor <==> evidence@ is Ancestor,
{
}

/// A policy that says nothing protects the usual integration branches, takes part in cleanup
/// with the remote `origin`, and makes no exceptions.
pub proof fn standard_policy_protects_the_usual_branches(
    candidate: CandidateView,
    integration_branch: Seq<char>,
    merged: bool,
    owned: Option<Seq<char>>,
    local: Option<Seq<char>>,
)
    ensures
        candidate.branch == Some("main"@) || candidate.branch == Some("master"@)
            || candidate.branch == Some("develop"@) || candidate.branch == Some("development"@)
            || candidate.branch == Some("trunk"@) ==> retention(
            PolicyView::standard(),
            candidate,
            integration_branch,
            merged,
            owned,
            local,
        ) is Some,
        PolicyView::standard().enabled,
        PolicyView::standard().remote == "origin"@,
        PolicyView::standard().integration_branch is None,
        PolicyView::standard().retained_branches.len() == 0,
        PolicyView::standard().retained_worktrees.len() == 0,
{
    let named = PolicyView::standard().protected_branches;
    assert(named[0] == "main"@ && named[1] == "master"@ && named[2] == "develop"@ && named[3]
        == "development"@ && named[4] == "trunk"@);
}

} // verus!
