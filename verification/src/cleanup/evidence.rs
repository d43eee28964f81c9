//! Why a commit counts as merged: it is an ancestor of the integration commit, or a pull
//! request took it as its exact source and its merge is integrated.
use vstd::prelude::*;

use super::git::{arguments, command, CommandView, ProcessCommand, Repository};
use super::policy::{evidence_view, Candidate, EvidenceView, MergeEvidence, Policy};
use crate::json::{json_array, json_number, json_pointer, parse_array, read_text, text_at};
use crate::lines::{chars_of, ends_with, pieces, split, strip_prefix, strip_suffix, trim, trimmed};
use crate::text::{byte_count, byte_len, same, text_of, texts};

verus! {

/// What is read of a pull request.
#[derive(Debug, PartialEq, Eq)]
pub struct PullRequest {
    pub number: Option<u64>,
    pub source: Option<String>,
    pub base: Option<String>,
    pub merge: Option<String>,
    pub merged_at: Option<String>,
}

/// `pull` is what a JSON value says of a pull request.
pub open spec fn reads_as(value: serde_json::Value, pull: PullRequest) -> bool {
    &&& pull.number == (match json_pointer(value, "/number"@) {
        Some(found) => json_number(found),
        None => None,
    })
    &&& text_of(pull.source) == text_at(value, "/head/sha"@)
    &&& text_of(pull.base) == text_at(value, "/base/ref"@)
    &&& text_of(pull.merge) == text_at(value, "/merge_commit_sha"@)
    &&& text_of(pull.merged_at) == text_at(value, "/merged_at"@)
}

/// The pull requests of a host's answer, where it is an array.
pub fn pull_requests(answer: &str) -> (r: Option<Vec<PullRequest>>)
    ensures
        r is Some <==> json_array(answer@) is Some,
        r matches Some(pulls) ==> pulls@.len() == json_array(answer@)->0.len() && forall|i: int|
            0 <= i < pulls@.len() ==> reads_as(json_array(answer@)->0[i], #[trigger] pulls@[i]),
{
    let values = match parse_array(answer) {
        Some(values) => values,
        None => {
            return None;
        },
    };
    let mut pulls: Vec<PullRequest> = Vec::new();
    let mut i: usize = 0;
    while i < values.len()
        invariant
            i <= values@.len(),
            json_array(answer@) == Some(values@),
            pulls@.len() == i,
            forall|j: int| 0 <= j < i ==> reads_as(values@[j], #[trigger] pulls@[j]),
        decreases values@.len() - i,
    {
        let value = &values[i];
        let number: Option<u64> = match value.pointer("/number") {
            Some(found) => found.as_u64(),
            None => None,
        };
        pulls.push(
            PullRequest {
                number,
                source: read_text(value, "/head/sha"),
                base: read_text(value, "/base/ref"),
                merge: read_text(value, "/merge_commit_sha"),
                merged_at: read_text(value, "/merged_at"),
            },
        );
        i = i + 1;
    }
    Some(pulls)
}

/// A pull request that took `commit` as its exact source and was merged into `branch`.
pub open spec fn takes(pull: PullRequest, commit: Seq<char>, branch: Seq<char>) -> bool {
    &&& text_of(pull.source) == Some(commit)
    &&& pull.merge is Some
    &&& text_of(pull.base) == Some(branch)
    &&& pull.merged_at matches Some(merged) && merged@.len() > 0
}

fn is_taken(pull: &PullRequest, commit: &str, branch: &str) -> (r: bool)
    ensures
        r == takes(*pull, commit@, branch@),
{
    let source: bool = match &pull.source {
        Some(source) => same(source.as_str(), commit),
        None => false,
    };
    let base: bool = match &pull.base {
        Some(base) => same(base.as_str(), branch),
        None => false,
    };
    let merged: bool = match &pull.merged_at {
        Some(merged) => merged.as_str().unicode_len() > 0,
        None => false,
    };
    source && base && merged && pull.merge.is_some()
}

/// The evidence of the first pull request, from `i` on, that took the commit, has a number
/// and whose merge is integrated. `integrated` says of the first ones whether theirs is.
pub open spec fn first_merge(
    pulls: Seq<PullRequest>,
    integrated: Seq<bool>,
    commit: Seq<char>,
    branch: Seq<char>,
    integration: Seq<char>,
    i: nat,
) -> Option<EvidenceView>
    decreases integrated.len() - i,
{
    if i >= integrated.len() {
        None
    } else if takes(pulls[i as int], commit, branch) && integrated[i as int]
        && pulls[i as int].number is Some {
        Some(
            EvidenceView::Github {
                integration,
                pull_request: pulls[i as int].number->0,
                source: commit,
                merge: pulls[i as int].merge->0@,
            },
        )
    } else {
        first_merge(pulls, integrated, commit, branch, integration, i + 1)
    }
}

impl Repository {
    /// The evidence that some pull requests give for a candidate.
    pub fn github_evidence(
        &self,
        candidate: &Candidate,
        branch: &str,
        integration: &str,
        pulls: &Vec<PullRequest>,
        integrated: &Vec<bool>,
    ) -> (r: Option<MergeEvidence>)
        requires
            integrated@.len() <= pulls@.len(),
        ensures
            evidence_view(r) == first_merge(
                pulls@,
                integrated@,
                candidate@.commit,
                branch@,
                integration@,
                0,
            ),
    {
        let mut i: usize = 0;
        while i < integrated.len()
            invariant
                i <= integrated@.len() <= pulls@.len(),
                first_merge(pulls@, integrated@, candidate@.commit, branch@, integration@, 0)
                    == first_merge(
                    pulls@,
                    integrated@,
                    candidate@.commit,
                    branch@,
                    integration@,
                    i as nat,
                ),
            decreases integrated@.len() - i,
        {
            let pull = &pulls[i];
            if integrated[i] && is_taken(pull, candidate.commit.as_str(), branch) {
                if let (Some(number), Some(merge)) = (pull.number, &pull.merge) {
                    return Some(
                        MergeEvidence::Github {
                            integration: integration.to_owned(),
                            pull_request: number,
                            source: candidate.commit.clone(),
                            merge: merge.clone(),
                        },
                    );
                }
            }
            i = i + 1;
        }
        None
    }
}

/// A character of an owner's or a repository's name.
pub open spec fn name_char(c: char) -> bool {
    ||| 'a' <= c <= 'z'
    ||| 'A' <= c <= 'Z'
    ||| '0' <= c <= '9'
    ||| c == '-'
    ||| c == '_'
    ||| c == '.'
}

pub open spec fn name_part(part: Seq<char>) -> bool {
    part.len() > 0 && forall|i: int| 0 <= i < part.len() ==> name_char(#[trigger] part[i])
}

/// `name` without the endings `.git`.
pub open spec fn without_git(name: Seq<char>) -> Seq<char>
    decreases name.len(),
{
    if ends_with(name, seq!['.', 'g', 'i', 't']) {
        without_git(name.take(name.len() - 4))
    } else {
        name
    }
}

/// The owner and name of a repository on the host, from the address of a remote.
pub open spec fn hosted_name(remote: Seq<char>) -> Option<Seq<char>> {
    let name = if "https://github.com/"@.is_prefix_of(remote) {
        Some(without_git(remote.skip("https://github.com/"@.len() as int)))
    } else if "git@github.com:"@.is_prefix_of(remote) {
        Some(without_git(remote.skip("git@github.com:"@.len() as int)))
    } else {
        None
    };
    match name {
        Some(name) => {
            let parts = pieces(name, "/"@, 0);
            if parts.len() == 2 && name_part(parts[0]) && name_part(parts[1]) {
                Some(name)
            } else {
                None
            }
        },
        None => None,
    }
}

fn is_name_part(part: &str) -> (r: bool)
    ensures
        r == name_part(part@),
{
    let chars = chars_of(part);
    let mut i: usize = 0;
    while i < chars.len()
        invariant
            i <= chars@.len(),
            chars@ == part@,
            forall|j: int| 0 <= j < i ==> name_char(#[trigger] part@[j]),
        decreases chars@.len() - i,
    {
        let c: char = chars[i];
        let named: bool = ('a' <= c && c <= 'z') || ('A' <= c && c <= 'Z') || ('0' <= c && c
            <= '9') || c == '-' || c == '_' || c == '.';
        if !named {
            assert(!name_char(part@[i as int]));
            return false;
        }
        i = i + 1;
    }
    chars.len() > 0
}

fn strip_git(name: String) -> (r: String)
    ensures
        r@ == without_git(name@),
{
    proof {
        reveal_strlit(".git");
        assert(".git"@ =~= seq!['.', 'g', 'i', 't']);
    }
    let mut rest = name;
    let mut done: bool = false;
    while !done
        invariant
            ".git"@ == seq!['.', 'g', 'i', 't'],
            without_git(name@) == without_git(rest@),
            done ==> !ends_with(rest@, ".git"@),
        decreases rest@.len(), if done { 0int } else { 1int },
    {
        match strip_suffix(rest.as_str(), ".git") {
            Some(shorter) => {
                assert(rest@.len() >= 4);
                rest = shorter;
            },
            None => {
                done = true;
            },
        }
    }
    rest
}

/// The owner and name of a repository on the host, from the address of a remote.
pub fn github_repository(remote: &str) -> (r: Option<String>)
    ensures
        text_of(r) == hosted_name(remote@),
{
    let rest = match strip_prefix(remote, "https://github.com/") {
        Some(rest) => rest,
        None => match strip_prefix(remote, "git@github.com:") {
            Some(rest) => rest,
            None => {
                return None;
            },
        },
    };
    let name = strip_git(rest);
    proof {
        reveal_strlit("/");
    }
    let parts = split(name.as_str(), "/");
    let ghost cut = pieces(name@, "/"@, 0);
    assert(texts(parts@) == cut);
    assert(texts(parts@).len() == parts@.len());
    if parts.len() != 2 {
        return None;
    }
    assert(parts@[0]@ == cut[0] && parts@[1]@ == cut[1]);
    if is_name_part(parts[0].as_str()) && is_name_part(parts[1].as_str()) {
        Some(name)
    } else {
        None
    }
}

/// A hexadecimal digit of either case.
pub open spec fn any_hex_digit(c: char) -> bool {
    ||| '0' <= c <= '9'
    ||| 'a' <= c <= 'f'
    ||| 'A' <= c <= 'F'
}

/// A full object name.
pub open spec fn object_name(commit: Seq<char>) -> bool {
    &&& byte_len(commit) == 40 || byte_len(commit) == 64
    &&& forall|i: int| 0 <= i < commit.len() ==> any_hex_digit(#[trigger] commit[i])
}

fn is_object_name(commit: &str) -> (r: bool)
    ensures
        r == object_name(commit@),
{
    let length: usize = byte_count(commit);
    if length != 40 && length != 64 {
        return false;
    }
    let chars = chars_of(commit);
    let mut i: usize = 0;
    while i < chars.len()
        invariant
            i <= chars@.len(),
            chars@ == commit@,
            forall|j: int| 0 <= j < i ==> any_hex_digit(#[trigger] commit@[j]),
        decreases chars@.len() - i,
    {
        let c: char = chars[i];
        let digit: bool = ('0' <= c && c <= '9') || ('a' <= c && c <= 'f') || ('A' <= c && c
            <= 'F');
        if !digit {
            assert(!any_hex_digit(commit@[i as int]));
            return false;
        }
        i = i + 1;
    }
    true
}

#[derive(Clone, Copy, Debug, PartialEq, Eq, Structural)]
pub enum EvidencePhase {
    /// Git was asked whether the commit itself is integrated.
    Ancestor,
    /// Git was asked for the address of the remote.
    Remote,
    /// The host was asked for the pull requests of the commit.
    Pulls,
    /// Git was asked whether the merge of a pull request is integrated.
    Merges,
    Ended,
}

/// The search for merge evidence of a candidate.
pub struct EvidenceSearch {
    pub candidate: Candidate,
    pub remote: String,
    pub ask_host: bool,
    pub branch: String,
    pub integration: String,
    pub phase: EvidencePhase,
    pub pulls: Vec<PullRequest>,
    pub integrated: Vec<bool>,
}

/// What the search does next.
pub enum EvidenceStep {
    Run(ProcessCommand),
    Done(Option<MergeEvidence>),
}

impl EvidenceStep {
    pub open spec fn runs(
        self,
        program: Seq<char>,
        args: Seq<Seq<char>>,
        repository: Repository,
    ) -> bool {
        self matches EvidenceStep::Run(command) && command@ == (CommandView {
            program,
            args,
            cwd: repository.root@,
        }) && command.noninteractive()
    }

    pub open spec fn finds(self, evidence: Option<EvidenceView>) -> bool {
        self matches EvidenceStep::Done(found) && evidence_view(found) == evidence
    }
}

/// The first pull request, from `i` on, that took the commit.
pub open spec fn next_taken(
    pulls: Seq<PullRequest>,
    commit: Seq<char>,
    branch: Seq<char>,
    i: nat,
) -> nat
    decreases pulls.len() - i,
{
    if i >= pulls.len() || takes(pulls[i as int], commit, branch) {
        i
    } else {
        next_taken(pulls, commit, branch, i + 1)
    }
}

/// The request for the pull requests of a commit.
pub open spec fn pulls_endpoint(name: Seq<char>, commit: Seq<char>) -> Seq<char> {
    "repos/"@ + name + "/commits/"@ + commit + "/pulls?per_page=100"@
}

impl EvidenceSearch {
    /// Everything but the phase and what is known of pull requests.
    pub open spec fn same_search(self, other: Self) -> bool {
        &&& self.candidate@ == other.candidate@
        &&& self.remote@ == other.remote@
        &&& self.ask_host == other.ask_host
        &&& self.branch@ == other.branch@
        &&& self.integration@ == other.integration@
    }

    pub open spec fn wf(self) -> bool {
        &&& self.integrated@.len() <= self.pulls@.len()
        &&& self.phase == EvidencePhase::Merges ==> self.integrated@.len() < self.pulls@.len()
            && takes(
            self.pulls@[self.integrated@.len() as int],
            self.candidate@.commit,
            self.branch@,
        )
    }

    /// The evidence that is known so far.
    pub open spec fn found(self) -> Option<EvidenceView> {
        first_merge(
            self.pulls@,
            self.integrated@,
            self.candidate@.commit,
            self.branch@,
            self.integration@,
            0,
        )
    }

    /// What is known of the merges once the pull requests up to the next one that took the
    /// commit count as not integrated, and what is done then.
    pub open spec fn seeks(self, repository: Repository, after: Self, r: EvidenceStep) -> bool {
        let at = next_taken(
            self.pulls@,
            self.candidate@.commit,
            self.branch@,
            self.integrated@.len(),
        );
        &&& after.same_search(self)
        &&& after.pulls == self.pulls
        &&& if at >= self.pulls@.len() {
            r.finds(None) && after.phase == EvidencePhase::Ended
        } else {
            &&& after.phase == EvidencePhase::Merges
            &&& after.integrated@ == self.integrated@ + Seq::new(
                (at - self.integrated@.len()) as nat,
                |i: int| false,
            )
            &&& r.runs(
                "git"@,
                seq![
                    "merge-base"@,
                    "--is-ancestor"@,
                    self.pulls@[at as int].merge->0@,
                    self.integration@,
                ],
                repository,
            )
        }
    }

    fn seek(&mut self, repository: &Repository) -> (r: EvidenceStep)
        requires
            old(self).integrated@.len() <= old(self).pulls@.len(),
        ensures
            final(self).wf(),
            old(self).seeks(*repository, *final(self), r),
    {
        let ghost start = self.integrated@.len();
        while self.integrated.len() < self.pulls.len() && !is_taken(
            &self.pulls[self.integrated.len()],
            self.candidate.commit.as_str(),
            self.branch.as_str(),
        )
            invariant
                *self == (EvidenceSearch { integrated: self.integrated, ..*old(self) }),
                start == old(self).integrated@.len(),
                start <= self.integrated@.len() <= self.pulls@.len(),
                self.integrated@ == old(self).integrated@ + Seq::new(
                    (self.integrated@.len() - start) as nat,
                    |i: int| false,
                ),
                next_taken(self.pulls@, self.candidate@.commit, self.branch@, start)
                    == next_taken(
                    self.pulls@,
                    self.candidate@.commit,
                    self.branch@,
                    self.integrated@.len(),
                ),
            decreases self.pulls@.len() - self.integrated@.len(),
        {
            self.integrated.push(false);
            assert(self.integrated@ =~= old(self).integrated@ + Seq::new(
                (self.integrated@.len() - start) as nat,
                |i: int| false,
            ));
        }
        if self.integrated.len() < self.pulls.len() {
            if let Some(merge) = &self.pulls[self.integrated.len()].merge {
                let run = repository.ancestor(merge.as_str(), self.integration.as_str());
                self.phase = EvidencePhase::Merges;
                return EvidenceStep::Run(run);
            }
        }
        self.phase = EvidencePhase::Ended;
        EvidenceStep::Done(None)
    }

    /// Go on with what the last command printed, or with its failure, which is no evidence.
    pub fn advance(&mut self, repository: &Repository, printed: Result<String, String>) -> (r:
        EvidenceStep)
        requires
            old(self).wf(),
            old(self).phase != EvidencePhase::Ended,
        ensures
            final(self).wf(),
            final(self).same_search(*old(self)),
            match old(self).phase {
                EvidencePhase::Ancestor => if printed is Ok {
                    &&& final(self).phase == EvidencePhase::Ended
                    &&& r.finds(
                        Some(EvidenceView::Ancestor { integration: old(self).integration@ }),
                    )
                } else if !old(self).ask_host {
                    final(self).phase == EvidencePhase::Ended && r.finds(None)
                } else {
                    &&& final(self).phase == EvidencePhase::Remote
                    &&& r.runs(
                        "git"@,
                        seq!["remote"@, "get-url"@, old(self).remote@],
                        *repository,
                    )
                },
                EvidencePhase::Remote => {
                    let name = hosted_name(trimmed(printed->Ok_0@));
                    if printed is Err || name is None || !object_name(old(self).candidate@.commit) {
                        final(self).phase == EvidencePhase::Ended && r.finds(None)
                    } else {
                        &&& final(self).phase == EvidencePhase::Pulls
                        &&& r.runs(
                            "gh"@,
                            seq![
                                "api"@,
                                "--hostname"@,
                                "github.com"@,
                                "--method"@,
                                "GET"@,
                                pulls_endpoint(name->0, old(self).candidate@.commit),
                            ],
                            *repository,
                        )
                    }
                },
                EvidencePhase::Pulls => if printed is Err || json_array(printed->Ok_0@) is None {
                    final(self).phase == EvidencePhase::Ended && r.finds(None)
                } else {
                    exists|asked: EvidenceSearch| #[trigger]
                        asked.seeks(*repository, *final(self), r) && asked.same_search(*old(self))
                            && asked.integrated@.len() == 0 && asked.pulls@.len() == json_array(
                            printed->Ok_0@,
                        )->0.len() && forall|i: int|
                            0 <= i < asked.pulls@.len() ==> reads_as(
                                json_array(printed->Ok_0@)->0[i],
                                #[trigger] asked.pulls@[i],
                            )
                },
                _ => exists|known: EvidenceSearch|
                    #![trigger known.found()]
                    known.same_search(*old(self)) && known.pulls == old(self).pulls
                        && known.integrated@ == old(self).integrated@.push(printed is Ok) && (
                    if known.found() is Some {
                        final(self).phase == EvidencePhase::Ended && r.finds(known.found())
                    } else {
                        known.seeks(*repository, *final(self), r)
                    }),
            },
    {
        match self.phase {
            EvidencePhase::Ancestor => {
                if printed.is_ok() {
                    self.phase = EvidencePhase::Ended;
                    return EvidenceStep::Done(
                        Some(MergeEvidence::Ancestor { integration: self.integration.clone() }),
                    );
                }
                if !self.ask_host {
                    self.phase = EvidencePhase::Ended;
                    return EvidenceStep::Done(None);
                }
                self.phase = EvidencePhase::Remote;
                let run = repository.git(&["remote", "get-url", self.remote.as_str()]);
                assert(run@.args =~= seq!["remote"@, "get-url"@, self.remote@]);
                EvidenceStep::Run(run)
            },
            EvidencePhase::Remote => {
                let name = match printed {
                    Ok(address) => github_repository(trim(address.as_str()).as_str()),
                    Err(_) => None,
                };
                match name {
                    Some(name) if is_object_name(self.candidate.commit.as_str()) => {
                        self.phase = EvidencePhase::Pulls;
                        let endpoint = "repos/".to_owned().concat(name.as_str()).concat(
                            "/commits/",
                        ).concat(self.candidate.commit.as_str()).concat("/pulls?per_page=100");
                        let run = command(
                            "gh",
                            arguments(
                                &[
                                    "api",
                                    "--hostname",
                                    "github.com",
                                    "--method",
                                    "GET",
                                    endpoint.as_str(),
                                ],
                            ),
                            &repository.root,
                        );
                        assert(run@.args =~= seq![
                            "api"@,
                            "--hostname"@,
                            "github.com"@,
                            "--method"@,
                            "GET"@,
                            endpoint@,
                        ]);
                        EvidenceStep::Run(run)
                    },
                    _ => {
                        self.phase = EvidencePhase::Ended;
                        EvidenceStep::Done(None)
                    },
                }
            },
            EvidencePhase::Pulls => {
                let pulls = match printed {
                    Ok(answer) => pull_requests(answer.as_str()),
                    Err(_) => None,
                };
                match pulls {
                    Some(pulls) => {
                        self.pulls = pulls;
                        self.integrated = Vec::new();
                        let ghost asked = *self;
                        let r = self.seek(repository);
                        assert(asked.seeks(*repository, *self, r));
                        r
                    },
                    None => {
                        self.phase = EvidencePhase::Ended;
                        EvidenceStep::Done(None)
                    },
                }
            },
            _ => {
                self.integrated.push(printed.is_ok());
                let ghost known = *self;
                if let Some(evidence) = repository.github_evidence(
                    &self.candidate,
                    self.branch.as_str(),
                    self.integration.as_str(),
                    &self.pulls,
                    &self.integrated,
                ) {
                    self.phase = EvidencePhase::Ended;
                    assert(known.found() is Some);
                    return EvidenceStep::Done(Some(evidence));
                }
                assert(known.found() is None);
                self.seek(repository)
            },
        }
    }
}

impl Repository {
    /// Begin to look for merge evidence of a candidate.
    pub fn evidence(
        &self,
        candidate: &Candidate,
        policy: &Policy,
        branch: &str,
        integration: &str,
    ) -> (r: (EvidenceSearch, ProcessCommand))
        ensures
            r.0.wf(),
            r.0.candidate@ == candidate@,
            r.0.remote@ == policy@.remote,
            r.0.ask_host == policy@.github_merge_evidence,
            r.0.branch@ == branch@,
            r.0.integration@ == integration@,
            r.0.phase == EvidencePhase::Ancestor,
            r.1@ == (CommandView {
                program: "git"@,
                args: seq!["merge-base"@, "--is-ancestor"@, candidate@.commit, integration@],
                cwd: self.root@,
            }),
            r.1.noninteractive(),
    {
        let search = EvidenceSearch {
            candidate: candidate.clone(),
            remote: policy.remote.clone(),
            ask_host: policy.github_merge_evidence,
            branch: branch.to_owned(),
            integration: integration.to_owned(),
            phase: EvidencePhase::Ancestor,
            pulls: Vec::new(),
            integrated: Vec::new(),
        };
        (search, self.ancestor(candidate.commit.as_str(), integration))
    }
}

proof fn lemma_first_merge(
    pulls: Seq<PullRequest>,
    integrated: Seq<bool>,
    commit: Seq<char>,
    branch: Seq<char>,
    integration: Seq<char>,
    i: nat,
)
    requires
        i <= integrated.len() <= pulls.len(),
    ensures
        first_merge(pulls, integrated, commit, branch, integration, i) is Some <==> exists|k: int|
            i <= k < integrated.len() && takes(#[trigger] pulls[k], commit, branch) && integrated[k]
                && pulls[k].number is Some,
        first_merge(pulls, integrated, commit, branch, integration, i) matches Some(found)
            ==> exists|k: int|
            i <= k < integrated.len() && takes(#[trigger] pulls[k], commit, branch) && integrated[k]
                && pulls[k].number is Some && found == (EvidenceView::Github {
                integration,
                pull_request: pulls[k].number->0,
                source: commit,
                merge: pulls[k].merge->0@,
            }),
    decreases integrated.len() - i,
{
    if i < integrated.len() {
        if takes(pulls[i as int], commit, branch) && integrated[i as int]
            && pulls[i as int].number is Some {
            assert(takes(pulls[i as int], commit, branch));
        } else {
            lemma_first_merge(pulls, integrated, commit, branch, integration, i + 1);
        }
    }
}

/// A host's word that a commit was merged is believed only of a pull request whose source is
/// exactly that commit, that was merged into the branch asked about, and whose merge Git finds
/// in the integration commit. The evidence names that pull request, its merge and the two
/// commits.
pub proof fn merges_are_believed_where_git_confirms_them(
    pulls: Seq<PullRequest>,
    integrated: Seq<bool>,
    commit: Seq<char>,
    branch: Seq<char>,
    integration: Seq<char>,
)
    requires
        integrated.len() <= pulls.len(),
    ensures
        first_merge(pulls, integrated, commit, branch, integration, 0) matches Some(found)
            ==> exists|k: int|
            0 <= k < integrated.len() && integrated[k] && {
                let pull = #[trigger] pulls[k];
                &&& pull.source matches Some(source) && source@ == commit
                &&& pull.base matches Some(base) && base@ == branch
                &&& pull.merged_at matches Some(at) && at@.len() > 0
                &&& pull.merge matches Some(merge) && pull.number matches Some(number) && found == (
                EvidenceView::Github {
                    integration,
                    pull_request: number,
                    source: commit,
                    merge: merge@,
                })
            },
        (exists|k: int|
            0 <= k < integrated.len() && integrated[k] && {
                let pull = #[trigger] pulls[k];
                &&& pull.source matches Some(source) && source@ == commit
                &&& pull.base matches Some(base) && base@ == branch
                &&& pull.merged_at matches Some(at) && at@.len() > 0
                &&& pull.merge is Some
                &&& pull.number is Some
            }) ==> first_merge(pulls, integrated, commit, branch, integration, 0) is Some,
{
    lemma_first_merge(pulls, integrated, commit, branch, integration, 0);
}

proof fn lemma_next_taken(pulls: Seq<PullRequest>, commit: Seq<char>, branch: Seq<char>, i: nat)
    requires
        i <= pulls.len(),
    ensures
        i <= next_taken(pulls, commit, branch, i) <= pulls.len(),
        next_taken(pulls, commit, branch, i) < pulls.len() ==> takes(
            pulls[next_taken(pulls, commit, branch, i) as int],
            commit,
            branch,
        ),
        forall|k: int|
            i <= k < next_taken(pulls, commit, branch, i) ==> !takes(
                #[trigger] pulls[k],
                commit,
                branch,
            ),
    decreases pulls.len() - i,
{
    if i < pulls.len() && !takes(pulls[i as int], commit, branch) {
        lemma_next_taken(pulls, commit, branch, i + 1);
    }
}

/// No pull request that could show the merge is passed over: Git is asked about the next one,
/// and the search ends only where none is left.
pub proof fn no_pull_request_is_passed_over(
    pulls: Seq<PullRequest>,
    commit: Seq<char>,
    branch: Seq<char>,
    i: nat,
    k: int,
)
    requires
        i <= k < pulls.len(),
        pulls[k].source matches Some(source) && source@ == commit,
        pulls[k].base matches Some(base) && base@ == branch,
        pulls[k].merged_at matches Some(at) && at@.len() > 0,
        pulls[k].merge is Some,
    ensures
        i <= next_taken(pulls, commit, branch, i) <= k,
{
    lemma_next_taken(pulls, commit, branch, i);
    assert(takes(pulls[k], commit, branch));
}

proof fn lemma_without_git(name: Seq<char>)
    ensures
        without_git(name).is_prefix_of(name),
        !ends_with(without_git(name), seq!['.', 'g', 'i', 't']),
        !ends_with(name, seq!['.', 'g', 'i', 't']) ==> without_git(name) == name,
    decreases name.len(),
{
    if ends_with(name, seq!['.', 'g', 'i', 't']) {
        lemma_without_git(name.take(name.len() - 4));
    }
}

proof fn lemma_hosted(name: Seq<char>, remote: Seq<char>)
    requires
        !ends_with(name, seq!['.', 'g', 'i', 't']),
        remote == name || remote == name + seq!['.', 'g', 'i', 't'],
    ensures
        without_git(remote) == name,
{
    lemma_without_git(name);
    if remote == name + seq!['.', 'g', 'i', 't'] {
        assert(remote.subrange(remote.len() - 4, remote.len() as int) =~= seq!['.', 'g', 'i', 't']);
        assert(remote.take(remote.len() - 4) =~= name);
    }
}

proof fn lemma_web(rest: Seq<char>, name: Seq<char>)
    requires
        without_git(rest) == name,
        pieces(name, "/"@, 0).len() == 2,
        name_part(pieces(name, "/"@, 0)[0]),
        name_part(pieces(name, "/"@, 0)[1]),
    ensures
        hosted_name("https://github.com/"@ + rest) == Some(name),
{
    let web = "https://github.com/"@;
    assert(web.is_prefix_of(web + rest));
    assert((web + rest).skip(web.len() as int) =~= rest);
}

proof fn lemma_shell(rest: Seq<char>, name: Seq<char>)
    requires
        without_git(rest) == name,
        pieces(name, "/"@, 0).len() == 2,
        name_part(pieces(name, "/"@, 0)[0]),
        name_part(pieces(name, "/"@, 0)[1]),
    ensures
        hosted_name("git@github.com:"@ + rest) == Some(name),
{
    let shell = "git@github.com:"@;
    assert(shell.is_prefix_of(shell + rest));
    assert((shell + rest).skip(shell.len() as int) =~= rest);
    assert(!"https://github.com/"@.is_prefix_of(shell + rest)) by {
        reveal_strlit("https://github.com/");
        reveal_strlit("git@github.com:");
        assert((shell + rest)[0] == 'g');
    }
}

/// A repository on the host is named by its owner and its own name, whether the remote is
/// given as a web address or as one for secure shells, with or without the usual ending.
pub proof fn hosted_repositories_are_named_by_their_address(name: Seq<char>)
    requires
        pieces(name, "/"@, 0).len() == 2,
        name_part(pieces(name, "/"@, 0)[0]),
        name_part(pieces(name, "/"@, 0)[1]),
        !ends_with(name, seq!['.', 'g', 'i', 't']),
    ensures
        hosted_name("https://github.com/"@ + name) == Some(name),
        hosted_name("https://github.com/"@ + (name + seq!['.', 'g', 'i', 't'])) == Some(name),
        hosted_name("git@github.com:"@ + name) == Some(name),
        hosted_name("git@github.com:"@ + (name + seq!['.', 'g', 'i', 't'])) == Some(name),
{
    let ended = name + seq!['.', 'g', 'i', 't'];
    lemma_hosted(name, name);
    lemma_hosted(name, ended);
    lemma_web(name, name);
    lemma_web(ended, name);
    lemma_shell(name, name);
    lemma_shell(ended, name);
}

/// Only an address on the host names a repository there, and the name is an owner and a
/// repository, each of letters, digits, hyphens, underscores and dots.
pub proof fn only_addresses_on_the_host_name_repositories(remote: Seq<char>)
    requires
        hosted_name(remote) is Some,
    ensures
        "https://github.com/"@.is_prefix_of(remote) || "git@github.com:"@.is_prefix_of(remote),
        pieces(hosted_name(remote)->0, "/"@, 0).len() == 2,
        forall|p: int, i: int|
            0 <= p < 2 && 0 <= i < pieces(hosted_name(remote)->0, "/"@, 0)[p].len() ==> {
                let c = #[trigger] pieces(hosted_name(remote)->0, "/"@, 0)[p][i];
                ('a' <= c && c <= 'z') || ('A' <= c && c <= 'Z') || ('0' <= c && c <= '9') || c
                    == '-' || c == '_' || c == '.'
            },
        pieces(hosted_name(remote)->0, "/"@, 0)[0].len() > 0,
        pieces(hosted_name(remote)->0, "/"@, 0)[1].len() > 0,
        !ends_with(hosted_name(remote)->0, seq!['.', 'g', 'i', 't']),
{
    let web = "https://github.com/"@;
    let shell = "git@github.com:"@;
    if web.is_prefix_of(remote) {
        lemma_without_git(remote.skip(web.len() as int));
    } else {
        lemma_without_git(remote.skip(shell.len() as int));
    }
    let parts = pieces(hosted_name(remote)->0, "/"@, 0);
    assert forall|p: int, i: int| 0 <= p < 2 && 0 <= i < parts[p].len() implies {
        let c = #[trigger] parts[p][i];
        ('a' <= c && c <= 'z') || ('A' <= c && c <= 'Z') || ('0' <= c && c <= '9') || c == '-' || c
            == '_' || c == '.'
    } by {
        assert(name_part(parts[0]) && name_part(parts[1]));
        if p == 0 {
            assert(name_char(parts[0][i]));
        } else {
            assert(name_char(parts[1][i]));
        }
    }
}

/// A commit is named by forty or sixty-four hexadecimal digits and by nothing else.
pub proof fn commits_are_named_by_hexadecimal_digits(commit: Seq<char>, i: int)
    requires
        0 <= i < commit.len(),
    ensures
        object_name(commit) ==> byte_len(commit) == 40 || byte_len(commit) == 64,
        object_name(commit) ==> ('0' <= commit[i] && commit[i] <= '9') || ('a' <= commit[i]
            && commit[i] <= 'f') || ('A' <= commit[i] && commit[i] <= 'F'),
        (byte_len(commit) == 40 || byte_len(commit) == 64) && (forall|k: int|
            0 <= k < commit.len() ==> ('0' <= #[trigger] commit[k] && commit[k] <= '9') || ('a'
                <= commit[k] && commit[k] <= 'f') || ('A' <= commit[k] && commit[k] <= 'F'))
            ==> object_name(commit),
{
    if object_name(commit) {
        assert(any_hex_digit(commit[i]));
    }
}

/// The host is asked for the pull requests of the very commit, in the very repository.
pub proof fn host_is_asked_about_the_commit(name: Seq<char>, commit: Seq<char>)
    ensures
        pulls_endpoint(name, commit) == "repos/"@ + name + "/commits/"@ + commit
            + "/pulls?per_page=100"@,
{
}

/// A part of a repository's name is made of letters, digits, hyphens, underscores and dots,
/// and is not empty.
pub proof fn names_are_made_of_plain_characters(part: Seq<char>)
    ensures
        name_part(part) <==> part.len() > 0 && forall|i: int|
            0 <= i < part.len() ==> {
                let c = #[trigger] part[i];
                ('a' <= c && c <= 'z') || ('A' <= c && c <= 'Z') || ('0' <= c && c <= '9') || c
                    == '-' || c == '_' || c == '.'
            },
{
    if name_part(part) {
        assert forall|i: int| 0 <= i < part.len() implies {
            let c = #[trigger] part[i];
            ('a' <= c && c <= 'z') || ('A' <= c && c <= 'Z') || ('0' <= c && c <= '9') || c == '-'
                || c == '_' || c == '.'
        } by {
            assert(name_char(part[i]));
        }
    }
}

/// The search goes on with the next pull request that could show the merge: Git is asked, in
/// the repository, whether its merge is an ancestor of the integration commit; where none is
/// left nothing is found. What was searched for stays as it is.
pub proof fn searches_go_on_with_the_next_pull_request(
    search: EvidenceSearch,
    repository: Repository,
    after: EvidenceSearch,
    step: EvidenceStep,
)
    requires
        search.seeks(repository, after, step),
        search.integrated@.len() <= search.pulls@.len(),
    ensures
        after.candidate@ == search.candidate@,
        after.remote@ == search.remote@,
        after.branch@ == search.branch@,
        after.integration@ == search.integration@,
        after.pulls == search.pulls,
        ({
            let at = next_taken(
                search.pulls@,
                search.candidate@.commit,
                search.branch@,
                search.integrated@.len(),
            );
            &&& at >= search.pulls@.len() ==> (step matches EvidenceStep::Done(found) && found
                is None) && after.phase == EvidencePhase::Ended
            &&& at < search.pulls@.len() ==> after.phase == EvidencePhase::Merges
                && after.integrated@.len() == at && (step matches EvidenceStep::Run(command)
                && command@.program == "git"@ && command@.cwd == repository.root@
                && command@.args == seq![
                "merge-base"@,
                "--is-ancestor"@,
                search.pulls@[at as int].merge->0@,
                search.integration@,
            ])
            &&& at < search.pulls@.len() ==> forall|k: int|
                search.integrated@.len() <= k < at ==> !#[trigger] after.integrated@[k]
            &&& at < search.pulls@.len() ==> forall|k: int|
                0 <= k < search.integrated@.len() ==> #[trigger] after.integrated@[k]
                    == search.integrated@[k]
        }),
{
    lemma_next_taken(
        search.pulls@,
        search.candidate@.commit,
        search.branch@,
        search.integrated@.len(),
    );
}

/// What a host says of a pull request is read from its own places in the answer.
pub proof fn pull_requests_are_read_from_their_places(value: serde_json::Value, pull: PullRequest)
    requires
        reads_as(value, pull),
    ensures
        text_of(pull.source) == text_at(value, "/head/sha"@),
        text_of(pull.base) == text_at(value, "/base/ref"@),
        text_of(pull.merge) == text_at(value, "/merge_commit_sha"@),
        text_of(pull.merged_at) == text_at(value, "/merged_at"@),
        json_pointer(value, "/number"@) is None ==> pull.number is None,
        json_pointer(value, "/number"@) matches Some(found) ==> pull.number == json_number(found),
{
}

} // verus!
