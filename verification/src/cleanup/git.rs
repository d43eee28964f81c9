//! Strict Git discovery and removals that name the commit they expect. Every command is
//! noninteractive and bounded, and none goes through a shell.
//!
//! A command is a value here: whoever runs it hands back what came of it.
use vstd::prelude::*;
use vstd::utf8::*;

use super::policy::{candidate_views, Candidate, CandidateView, Policy};
use crate::lines::{
    chars_of, ends_with, lines, lines_of, pieces, split, strip_prefix, strip_suffix, trim, trimmed,
};
use crate::path::{join, joined};
use crate::runtime_provider::copy_bytes;
use crate::runtime_provider::settings::utf8_text;
use crate::text::{same, starts_with, text_of, texts};

verus! {

/// The most that is read of a command's output.
pub const OUTPUT_LIMIT: usize = 8_388_608;

/// The words of a command line.
pub open spec fn words(values: Seq<&str>) -> Seq<Seq<char>> {
    Seq::new(values.len(), |i: int| values[i]@)
}

pub(crate) fn arguments(values: &[&str]) -> (r: Vec<String>)
    ensures
        texts(r@) == words(values@),
{
    let mut out: Vec<String> = Vec::new();
    let mut i: usize = 0;
    while i < values.len()
        invariant
            i <= values@.len(),
            out@.len() == i,
            forall|j: int| 0 <= j < i ==> (#[trigger] out@[j])@ == values@[j]@,
        decreases values@.len() - i,
    {
        out.push(values[i].to_owned());
        i = i + 1;
    }
    assert(texts(out@) =~= words(values@));
    out
}

/// A process to be run: its standard input is closed, and the variables in `set` are set
/// after all that `removes_variable` names were taken out of its environment.
#[derive(Debug, PartialEq, Eq)]
pub struct ProcessCommand {
    pub program: String,
    pub args: Vec<String>,
    pub cwd: Vec<u8>,
    pub set: Vec<(String, String)>,
}

/// The program, the arguments and the working directory of a process.
#[verifier::ext_equal]
pub struct CommandView {
    pub program: Seq<char>,
    pub args: Seq<Seq<char>>,
    pub cwd: Seq<u8>,
}

impl View for ProcessCommand {
    type V = CommandView;

    open spec fn view(&self) -> CommandView {
        CommandView { program: self.program@, args: texts(self.args@), cwd: self.cwd@ }
    }
}

impl ProcessCommand {
    /// Nothing can prompt, and replacement objects are not looked through.
    pub open spec fn noninteractive(self) -> bool {
        &&& self.set@.len() == 4
        &&& self.set@[0].0@ == "GIT_TERMINAL_PROMPT"@ && self.set@[0].1@ == "0"@
        &&& self.set@[1].0@ == "GIT_NO_REPLACE_OBJECTS"@ && self.set@[1].1@ == "1"@
        &&& self.set@[2].0@ == "GCM_INTERACTIVE"@ && self.set@[2].1@ == "never"@
        &&& self.set@[3].0@ == "GH_PROMPT_DISABLED"@ && self.set@[3].1@ == "1"@
    }
}

/// A process of cleanup.
pub fn command(program: &str, args: Vec<String>, cwd: &Vec<u8>) -> (r: ProcessCommand)
    ensures
        r@ == (CommandView { program: program@, args: texts(args@), cwd: cwd@ }),
        r.noninteractive(),
{
    let mut set: Vec<(String, String)> = Vec::new();
    set.push(("GIT_TERMINAL_PROMPT".to_owned(), "0".to_owned()));
    set.push(("GIT_NO_REPLACE_OBJECTS".to_owned(), "1".to_owned()));
    set.push(("GCM_INTERACTIVE".to_owned(), "never".to_owned()));
    set.push(("GH_PROMPT_DISABLED".to_owned(), "1".to_owned()));
    ProcessCommand { program: program.to_owned(), args, cwd: copy_bytes(cwd), set }
}

/// Whether an inherited variable is taken out of a command's environment: Git lets its own
/// override the working directory and the configuration.
pub fn removes_variable(name: &[u8]) -> (r: bool)
    ensures
        r == seq![0x47u8, 0x49u8, 0x54u8, 0x5fu8].is_prefix_of(name@),
{
    let r: bool = name.len() >= 4 && name[0] == 0x47 && name[1] == 0x49 && name[2] == 0x54
        && name[3] == 0x5f;
    proof {
        let prefix = seq![0x47u8, 0x49u8, 0x54u8, 0x5fu8];
        if r {
            assert(prefix =~= name@.take(4));
        } else if prefix.is_prefix_of(name@) {
            assert(name@[0] == prefix[0] && name@[1] == prefix[1] && name@[2] == prefix[2]
                && name@[3] == prefix[3]);
        }
    }
    r
}

/// What is kept of a command's output: one byte more than is accepted, so that an output
/// that is too long can be told.
pub struct BoundedOutput {
    pub bytes: Vec<u8>,
}

impl BoundedOutput {
    pub open spec fn kept(bytes: Seq<u8>) -> Seq<u8> {
        if bytes.len() > OUTPUT_LIMIT + 1 {
            bytes.take(OUTPUT_LIMIT + 1)
        } else {
            bytes
        }
    }

    pub fn new() -> (r: Self)
        ensures
            r.bytes@ == Seq::<u8>::empty(),
    {
        BoundedOutput { bytes: Vec::new() }
    }

    pub fn push(&mut self, more: &[u8])
        requires
            old(self).bytes@.len() <= OUTPUT_LIMIT + 1,
        ensures
            final(self).bytes@ == BoundedOutput::kept(old(self).bytes@ + more@),
    {
        let ghost before = self.bytes@;
        let mut i: usize = 0;
        while i < more.len() && self.bytes.len() <= OUTPUT_LIMIT
            invariant
                i <= more@.len(),
                before.len() <= OUTPUT_LIMIT + 1,
                self.bytes@ == before + more@.take(i as int),
                self.bytes@.len() <= OUTPUT_LIMIT + 1,
            decreases more@.len() - i,
        {
            self.bytes.push(more[i]);
            i = i + 1;
            assert(self.bytes@ =~= before + more@.take(i as int));
        }
        assert(self.bytes@ =~= BoundedOutput::kept(before + more@));
    }
}

/// The text that a command printed, where it succeeded and printed text of an accepted
/// length. `error` is what it printed of its failure.
pub fn command_result(program: &str, success: bool, output: &Vec<u8>, error: &str) -> (r: Result<
    String,
    String,
>)
    ensures
        r is Ok <==> success && output@.len() <= OUTPUT_LIMIT && valid_utf8(output@),
        r matches Ok(text) ==> text@ == decode_utf8(output@),
        r matches Err(message) ==> message@ == (if !success {
            program@ + " failed: "@ + error@
        } else if output@.len() > OUTPUT_LIMIT {
            "Git output exceeds cleanup limit"@
        } else {
            "non-UTF-8 Git output; cleanup deferred"@
        }),
{
    if !success {
        return Err(program.to_owned().concat(" failed: ").concat(error));
    }
    if output.len() > OUTPUT_LIMIT {
        return Err("Git output exceeds cleanup limit".to_owned());
    }
    match utf8_text(output.as_slice()) {
        Some(text) => Ok(text),
        None => Err("non-UTF-8 Git output; cleanup deferred".to_owned()),
    }
}

/// A repository, by its primary checkout and the Git directory that its worktrees share.
#[derive(Debug, PartialEq, Eq)]
pub struct Repository {
    pub root: Vec<u8>,
    pub common: Vec<u8>,
}

/// What a worktree listing says of one worktree.
#[derive(Debug, PartialEq, Eq)]
pub struct WorktreeEntry {
    pub path: String,
    pub branch: Option<String>,
    pub commit: String,
    pub locked: bool,
    pub unavailable: bool,
}

#[verifier::ext_equal]
pub struct EntryView {
    pub path: Option<Seq<char>>,
    pub branch: Option<Seq<char>>,
    pub commit: Seq<char>,
    pub locked: bool,
    pub unavailable: bool,
}

impl View for WorktreeEntry {
    type V = EntryView;

    open spec fn view(&self) -> EntryView {
        EntryView {
            path: Some(self.path@),
            branch: text_of(self.branch),
            commit: self.commit@,
            locked: self.locked,
            unavailable: self.unavailable,
        }
    }
}

pub open spec fn entry_views(entries: Seq<WorktreeEntry>) -> Seq<EntryView> {
    Seq::new(entries.len(), |i: int| entries[i]@)
}

/// A worktree of which nothing was read yet.
pub open spec fn no_entry() -> EntryView {
    EntryView {
        path: None,
        branch: None,
        commit: Seq::empty(),
        locked: false,
        unavailable: false,
    }
}

/// A worktree once one more field of its listing was read. An unknown field is an error.
pub open spec fn read_field(entry: EntryView, field: Seq<char>) -> Option<EntryView> {
    if "worktree "@.is_prefix_of(field) {
        Some(EntryView { path: Some(field.skip("worktree "@.len() as int)), ..entry })
    } else if "HEAD "@.is_prefix_of(field) {
        Some(EntryView { commit: field.skip("HEAD "@.len() as int), ..entry })
    } else if "branch refs/heads/"@.is_prefix_of(field) {
        Some(EntryView { branch: Some(field.skip("branch refs/heads/"@.len() as int)), ..entry })
    } else if field == "locked"@ || "locked "@.is_prefix_of(field) {
        Some(EntryView { locked: true, ..entry })
    } else if field == "bare"@ || "prunable"@.is_prefix_of(field) {
        Some(EntryView { unavailable: true, ..entry })
    } else if field != "detached"@ && field.len() > 0 {
        None
    } else {
        Some(entry)
    }
}

/// A worktree once the first `n` fields of its listing were read.
pub open spec fn read_fields(fields: Seq<Seq<char>>, n: nat) -> Option<EntryView>
    decreases n,
{
    if n == 0 {
        Some(no_entry())
    } else {
        match read_fields(fields, (n - 1) as nat) {
            Some(entry) => read_field(entry, fields[n - 1]),
            None => None,
        }
    }
}

/// What one block of a worktree listing says, or what is wrong with it.
pub open spec fn read_block(block: Seq<char>) -> Result<EntryView, Seq<char>> {
    let fields = pieces(block, "\0"@, 0);
    match read_fields(fields, fields.len()) {
        None => Err("unknown worktree field"@),
        Some(entry) => if entry.path is None {
            Err("worktree path missing"@)
        } else {
            Ok(entry)
        },
    }
}

/// What the first `n` blocks of a worktree listing say. Empty blocks say nothing.
pub open spec fn read_blocks(blocks: Seq<Seq<char>>, n: nat) -> Result<Seq<EntryView>, Seq<char>>
    decreases n,
{
    if n == 0 {
        Ok(Seq::empty())
    } else {
        match read_blocks(blocks, (n - 1) as nat) {
            Err(message) => Err(message),
            Ok(entries) => if blocks[n - 1].len() == 0 {
                Ok(entries)
            } else {
                match read_block(blocks[n - 1]) {
                    Err(message) => Err(message),
                    Ok(entry) => Ok(entries.push(entry)),
                }
            },
        }
    }
}

/// What a worktree listing says.
pub open spec fn read_listing(raw: Seq<char>) -> Result<Seq<EntryView>, Seq<char>> {
    let blocks = pieces(raw, "\0\0"@, 0);
    read_blocks(blocks, blocks.len())
}

/// A failed reading of the first blocks fails the reading of all.
proof fn lemma_read_blocks_fails(blocks: Seq<Seq<char>>, n: nat, m: nat)
    requires
        n <= m,
        read_blocks(blocks, n) is Err,
    ensures
        read_blocks(blocks, m) == read_blocks(blocks, n),
    decreases m - n,
{
    if n < m {
        lemma_read_blocks_fails(blocks, n, (m - 1) as nat);
    }
}

proof fn lemma_read_fields_fails(fields: Seq<Seq<char>>, n: nat, m: nat)
    requires
        n <= m,
        read_fields(fields, n) is None,
    ensures
        read_fields(fields, m) is None,
    decreases m - n,
{
    if n < m {
        lemma_read_fields_fails(fields, n, (m - 1) as nat);
    }
}

fn parse_block(block: &str) -> (r: Result<WorktreeEntry, String>)
    ensures
        match read_block(block@) {
            Ok(entry) => r matches Ok(found) && found@ == entry,
            Err(message) => r matches Err(text) && text@ == message,
        },
{
    proof {
        reveal_strlit("\0");
    }
    let fields = split(block, "\0");
    let ghost cut = pieces(block@, "\0"@, 0);
    let mut path: Option<String> = None;
    let mut branch: Option<String> = None;
    let mut commit: String = String::new();
    let mut locked: bool = false;
    let mut unavailable: bool = false;
    let mut i: usize = 0;
    assert(commit@ =~= Seq::<char>::empty());
    while i < fields.len()
        invariant
            i <= fields@.len(),
            texts(fields@) == cut,
            cut == pieces(block@, "\0"@, 0),
            read_fields(cut, i as nat) == Some(
                EntryView {
                    path: text_of(path),
                    branch: text_of(branch),
                    commit: commit@,
                    locked,
                    unavailable,
                },
            ),
        decreases fields@.len() - i,
    {
        let field = fields[i].as_str();
        assert(texts(fields@)[i as int] == field@);
        let ghost entry = read_fields(cut, i as nat)->0;
        proof {
            assert(read_fields(cut, (i + 1) as nat) == read_field(entry, field@));
        }
        if let Some(value) = strip_prefix(field, "worktree ") {
            path = Some(value);
        } else if let Some(value) = strip_prefix(field, "HEAD ") {
            commit = value;
        } else if let Some(value) = strip_prefix(field, "branch refs/heads/") {
            branch = Some(value);
        } else if same(field, "locked") || starts_with(field, "locked ") {
            locked = true;
        } else if same(field, "bare") || starts_with(field, "prunable") {
            unavailable = true;
        } else if !same(field, "detached") && field.unicode_len() > 0 {
            proof {
                lemma_read_fields_fails(cut, (i + 1) as nat, cut.len());
            }
            return Err("unknown worktree field".to_owned());
        }
        i = i + 1;
    }
    assert(texts(fields@).len() == fields@.len());
    match path {
        Some(path) => Ok(WorktreeEntry { path, branch, commit, locked, unavailable }),
        None => Err("worktree path missing".to_owned()),
    }
}

/// Read the listing of a repository's worktrees.
pub fn parse_worktrees(raw: &str) -> (r: Result<Vec<WorktreeEntry>, String>)
    ensures
        match read_listing(raw@) {
            Ok(entries) => r matches Ok(found) && entry_views(found@) == entries,
            Err(message) => r matches Err(text) && text@ == message,
        },
{
    proof {
        reveal_strlit("\0\0");
    }
    let blocks = split(raw, "\0\0");
    let ghost cut = pieces(raw@, "\0\0"@, 0);
    let mut entries: Vec<WorktreeEntry> = Vec::new();
    let mut i: usize = 0;
    assert(entry_views(entries@) =~= Seq::empty());
    while i < blocks.len()
        invariant
            i <= blocks@.len(),
            texts(blocks@) == cut,
            cut == pieces(raw@, "\0\0"@, 0),
            read_blocks(cut, i as nat) == Ok::<Seq<EntryView>, Seq<char>>(entry_views(entries@)),
        decreases blocks@.len() - i,
    {
        let block = blocks[i].as_str();
        assert(texts(blocks@)[i as int] == block@);
        if block.unicode_len() > 0 {
            match parse_block(block) {
                Ok(entry) => {
                    let ghost before = entries@;
                    entries.push(entry);
                    assert(entry_views(entries@) =~= entry_views(before).push(entry@));
                },
                Err(message) => {
                    proof {
                        lemma_read_blocks_fails(cut, (i + 1) as nat, cut.len());
                    }
                    return Err(message);
                },
            }
        }
        i = i + 1;
    }
    assert(texts(blocks@).len() == blocks@.len());
    Ok(entries)
}

/// What is found where a worktree is listed: its canonical path, or the listed one where it
/// is gone, and its Git directory and identity, where it is a worktree of the repository.
#[derive(Debug, PartialEq, Eq)]
pub struct WorktreeDetails {
    pub path: Vec<u8>,
    pub found: Option<(Vec<u8>, String)>,
}

/// The candidate that a listed worktree is. The first one is the primary checkout.
pub open spec fn worktree_candidate(
    entry: EntryView,
    details: WorktreeDetails,
    primary: bool,
) -> CandidateView {
    CandidateView {
        path: Some(details.path@),
        branch: entry.branch,
        commit: entry.commit,
        git_dir: match details.found {
            Some(found) => Some(found.0@),
            None => None,
        },
        identity: match details.found {
            Some(found) => Some(found.1@),
            None => None,
        },
        primary,
        locked: entry.locked,
        unavailable: entry.unavailable || details.found is None,
    }
}

/// The candidates that the listed worktrees are.
pub open spec fn worktree_candidates(
    entries: Seq<EntryView>,
    details: Seq<WorktreeDetails>,
) -> Seq<CandidateView> {
    Seq::new(entries.len(), |i: int| worktree_candidate(entries[i], details[i], i == 0))
}

/// One of `candidates` is on `branch`.
pub open spec fn on_branch(candidates: Seq<CandidateView>, branch: Seq<char>) -> bool {
    exists|i: int|
        0 <= i < candidates.len() && (#[trigger] candidates[i]).branch == Some(branch)
}

/// The candidates once one more line of the branch listing was read: a branch that is not
/// checked out is a candidate of its own.
pub open spec fn with_branch(candidates: Seq<CandidateView>, line: Seq<char>) -> Result<
    Seq<CandidateView>,
    Seq<char>,
> {
    let fields = pieces(line, "\0"@, 0);
    if fields.len() != 3 {
        Err("invalid branch metadata"@)
    } else if !"refs/heads/"@.is_prefix_of(fields[0]) {
        Err("invalid branch ref"@)
    } else {
        let branch = fields[0].skip("refs/heads/"@.len() as int);
        if on_branch(candidates, branch) {
            Ok(candidates)
        } else {
            Ok(
                candidates.push(
                    CandidateView {
                        path: None,
                        branch: Some(branch),
                        commit: fields[1],
                        git_dir: None,
                        identity: None,
                        primary: false,
                        locked: false,
                        unavailable: fields[2].len() > 0,
                    },
                ),
            )
        }
    }
}

/// The candidates once the first `n` lines of the branch listing were read.
pub open spec fn with_branches(
    candidates: Seq<CandidateView>,
    listed: Seq<Seq<char>>,
    n: nat,
) -> Result<Seq<CandidateView>, Seq<char>>
    decreases n,
{
    if n == 0 {
        Ok(candidates)
    } else {
        match with_branches(candidates, listed, (n - 1) as nat) {
            Err(message) => Err(message),
            Ok(found) => with_branch(found, listed[n - 1]),
        }
    }
}

proof fn lemma_with_branches_fails(
    candidates: Seq<CandidateView>,
    listed: Seq<Seq<char>>,
    n: nat,
    m: nat,
)
    requires
        n <= m,
        with_branches(candidates, listed, n) is Err,
    ensures
        with_branches(candidates, listed, m) == with_branches(candidates, listed, n),
    decreases m - n,
{
    if n < m {
        lemma_with_branches_fails(candidates, listed, n, (m - 1) as nat);
    }
}

/// The candidates of a repository: its worktrees, and the branches of `refs` that none of
/// them has checked out.
pub open spec fn discovered(
    entries: Seq<EntryView>,
    details: Seq<WorktreeDetails>,
    refs: Seq<char>,
) -> Result<Seq<CandidateView>, Seq<char>> {
    with_branches(worktree_candidates(entries, details), lines_of(refs), lines_of(refs).len())
}

fn any_on_branch(candidates: &Vec<Candidate>, branch: &str) -> (r: bool)
    ensures
        r == on_branch(candidate_views(candidates@), branch@),
{
    let mut i: usize = 0;
    while i < candidates.len()
        invariant
            i <= candidates@.len(),
            forall|j: int|
                0 <= j < i ==> (#[trigger] candidate_views(candidates@)[j]).branch != Some(
                    branch@,
                ),
        decreases candidates@.len() - i,
    {
        assert(candidate_views(candidates@)[i as int] == candidates@[i as int]@);
        if let Some(other) = &candidates[i].branch {
            if same(other.as_str(), branch) {
                return true;
            }
        }
        i = i + 1;
    }
    false
}

impl Repository {
    /// A command in the primary checkout.
    pub fn git(&self, args: &[&str]) -> (r: ProcessCommand)
        ensures
            r@ == (CommandView { program: "git"@, args: words(args@), cwd: self.root@ }),
            r.noninteractive(),
    {
        command("git", arguments(args), &self.root)
    }

    /// Where the records of cleanup are kept.
    pub fn state_dir(&self) -> (r: Vec<u8>)
        ensures
            r@ == joined(self.common@, encode_utf8("herdr-cleanup"@)),
    {
        join(&self.common, "herdr-cleanup".as_bytes())
    }

    /// The candidates of a repository. `entries` were read from its worktree listing,
    /// `details` are what was found at each of them, and `refs` is its branch listing.
    pub fn discover(
        &self,
        entries: Vec<WorktreeEntry>,
        details: &Vec<WorktreeDetails>,
        refs: &str,
    ) -> (r: Result<Vec<Candidate>, String>)
        requires
            details@.len() == entries@.len(),
        ensures
            match discovered(entry_views(entries@), details@, refs@) {
                Ok(candidates) => r matches Ok(found) && candidate_views(found@) == candidates,
                Err(message) => r matches Err(text) && text@ == message,
            },
    {
        let mut candidates: Vec<Candidate> = Vec::new();
        let ghost views = entry_views(entries@);
        let mut i: usize = 0;
        while i < entries.len()
            invariant
                i <= entries@.len() == details@.len(),
                views == entry_views(entries@),
                candidates@.len() == i,
                forall|j: int|
                    0 <= j < i ==> (#[trigger] candidates@[j])@ == worktree_candidate(
                        views[j],
                        details@[j],
                        j == 0,
                    ),
            decreases entries@.len() - i,
        {
            let entry = &entries[i];
            let (git_dir, identity, unavailable) = match &details[i].found {
                Some(found) => (
                    Some(copy_bytes(&found.0)),
                    Some(found.1.clone()),
                    entry.unavailable,
                ),
                None => (None, None, true),
            };
            candidates.push(
                Candidate {
                    path: Some(copy_bytes(&details[i].path)),
                    branch: entry.branch.clone(),
                    commit: entry.commit.clone(),
                    git_dir,
                    identity,
                    primary: i == 0,
                    locked: entry.locked,
                    unavailable,
                },
            );
            i = i + 1;
        }
        let ghost base = worktree_candidates(views, details@);
        assert(candidate_views(candidates@) =~= base);
        let listed = lines(refs);
        let ghost listing = lines_of(refs@);
        proof {
            reveal_strlit("\0");
        }
        let mut k: usize = 0;
        while k < listed.len()
            invariant
                k <= listed@.len(),
                texts(listed@) == listing,
                listing == lines_of(refs@),
                "\0"@.len() > 0,
                base == worktree_candidates(views, details@),
                views == entry_views(entries@),
                with_branches(base, listing, k as nat) == Ok::<Seq<CandidateView>, Seq<char>>(
                    candidate_views(candidates@),
                ),
            decreases listed@.len() - k,
        {
            let line = listed[k].as_str();
            assert(texts(listed@)[k as int] == line@);
            assert(texts(listed@).len() == listed@.len());
            let fields = split(line, "\0");
            let ghost cut = pieces(line@, "\0"@, 0);
            assert(texts(fields@) == cut);
            assert(texts(fields@).len() == fields@.len());
            proof {
                assert(with_branches(base, listing, (k + 1) as nat) == with_branch(
                    candidate_views(candidates@),
                    line@,
                ));
            }
            if fields.len() != 3 {
                proof {
                    lemma_with_branches_fails(base, listing, (k + 1) as nat, listing.len());
                }
                return Err("invalid branch metadata".to_owned());
            }
            assert(fields@[0]@ == cut[0] && fields@[1]@ == cut[1] && fields@[2]@ == cut[2]);
            let branch = match strip_prefix(fields[0].as_str(), "refs/heads/") {
                Some(branch) => branch,
                None => {
                    proof {
                        lemma_with_branches_fails(base, listing, (k + 1) as nat, listing.len());
                    }
                    return Err("invalid branch ref".to_owned());
                },
            };
            if !any_on_branch(&candidates, branch.as_str()) {
                let ghost before = candidates@;
                let candidate = Candidate {
                    path: None,
                    branch: Some(branch),
                    commit: fields[1].clone(),
                    git_dir: None,
                    identity: None,
                    primary: false,
                    locked: false,
                    unavailable: fields[2].as_str().unicode_len() > 0,
                };
                let ghost added = candidate@;
                candidates.push(candidate);
                assert(candidate_views(candidates@) =~= candidate_views(before).push(added));
            }
            k = k + 1;
        }
        assert(texts(listed@).len() == listed@.len());
        Ok(candidates)
    }
}

/// The full name of a branch.
pub open spec fn branch_ref(branch: Seq<char>) -> Seq<char> {
    "refs/heads/"@ + branch
}

/// The full name of the branch of a remote, as it was last fetched.
pub open spec fn remote_ref(remote: Seq<char>, branch: Seq<char>) -> Seq<char> {
    "refs/remotes/"@ + remote + "/"@ + branch
}

pub(crate) fn branch_reference(branch: &str) -> (r: String)
    ensures
        r@ == branch_ref(branch@),
{
    "refs/heads/".to_owned().concat(branch)
}

pub(crate) fn remote_reference(remote: &str, branch: &str) -> (r: String)
    ensures
        r@ == remote_ref(remote@, branch@),
{
    "refs/remotes/".to_owned().concat(remote).concat("/").concat(branch)
}

/// The branch that one line of a remote's answer names as its HEAD.
pub open spec fn head_line(line: Seq<char>) -> Option<Seq<char>> {
    if "ref: refs/heads/"@.is_prefix_of(line) {
        let rest = line.skip("ref: refs/heads/"@.len() as int);
        if ends_with(rest, "\tHEAD"@) {
            Some(rest.take(rest.len() - "\tHEAD"@.len()))
        } else {
            None
        }
    } else {
        None
    }
}

/// The branch that the first line, from `i` on, names as the HEAD of a remote.
pub open spec fn head_branch(listed: Seq<Seq<char>>, i: nat) -> Option<Seq<char>>
    decreases listed.len() - i,
{
    if i >= listed.len() {
        None
    } else {
        match head_line(listed[i as int]) {
            Some(branch) => Some(branch),
            None => head_branch(listed, i + 1),
        }
    }
}

fn find_head_branch(answer: &str) -> (r: Option<String>)
    ensures
        text_of(r) == head_branch(lines_of(answer@), 0),
{
    let listed = lines(answer);
    let ghost cut = lines_of(answer@);
    let mut i: usize = 0;
    while i < listed.len()
        invariant
            i <= listed@.len(),
            texts(listed@) == cut,
            cut == lines_of(answer@),
            head_branch(cut, 0) == head_branch(cut, i as nat),
        decreases listed@.len() - i,
    {
        assert(texts(listed@)[i as int] == listed@[i as int]@);
        if let Some(rest) = strip_prefix(listed[i].as_str(), "ref: refs/heads/") {
            if let Some(branch) = strip_suffix(rest.as_str(), "\tHEAD") {
                return Some(branch);
            }
        }
        i = i + 1;
    }
    assert(texts(listed@).len() == listed@.len());
    None
}

#[derive(Clone, Copy, Debug, PartialEq, Eq, Structural)]
pub enum IntegrationPhase {
    /// The remote was asked for its HEAD.
    Head,
    /// The name of the branch is being checked.
    Format,
    Fetch,
    Resolve,
    Ended,
}

/// The search for the commit that merges are looked for in.
pub struct Integration {
    pub remote: String,
    pub branch: String,
    pub phase: IntegrationPhase,
}

/// What the search does next.
pub enum IntegrationStep {
    Run(ProcessCommand),
    /// The branch and its commit, or why there is none.
    Done(Result<(String, String), String>),
}

impl IntegrationStep {
    /// A Git command in the primary checkout.
    pub open spec fn runs(self, repository: Repository, args: Seq<Seq<char>>) -> bool {
        self matches IntegrationStep::Run(command) && command@ == (CommandView {
            program: "git"@,
            args,
            cwd: repository.root@,
        }) && command.noninteractive()
    }

    pub open spec fn fails(self, message: Seq<char>) -> bool {
        self matches IntegrationStep::Done(Err(text)) && text@ == message
    }
}

impl Integration {
    /// The search goes on with a branch whose name has to be checked.
    pub open spec fn checks(
        self,
        repository: Repository,
        branch: Seq<char>,
        step: IntegrationStep,
    ) -> bool {
        &&& self.branch@ == branch
        &&& self.phase == IntegrationPhase::Format
        &&& step.runs(repository, seq!["check-ref-format"@, branch_ref(branch)])
    }

    /// Go on with what the last command printed, or with why it failed. Any failure ends the
    /// search.
    pub fn advance(&mut self, repository: &Repository, printed: Result<String, String>) -> (r:
        IntegrationStep)
        requires
            old(self).phase != IntegrationPhase::Ended,
        ensures
            final(self).remote@ == old(self).remote@,
            match printed {
                Err(message) => final(self).phase == IntegrationPhase::Ended && r.fails(message@),
                Ok(text) => match old(self).phase {
                    IntegrationPhase::Head => match head_branch(lines_of(text@), 0) {
                        Some(branch) => final(self).checks(*repository, branch, r),
                        None => final(self).phase == IntegrationPhase::Ended && r.fails(
                            "remote default branch unavailable"@,
                        ),
                    },
                    IntegrationPhase::Format => {
                        &&& final(self).branch@ == old(self).branch@
                        &&& final(self).phase == IntegrationPhase::Fetch
                        &&& r.runs(
                            *repository,
                            seq![
                                "fetch"@,
                                "--no-tags"@,
                                old(self).remote@,
                                "+"@ + branch_ref(old(self).branch@) + ":"@ + remote_ref(
                                    old(self).remote@,
                                    old(self).branch@,
                                ),
                            ],
                        )
                    },
                    IntegrationPhase::Fetch => {
                        &&& final(self).branch@ == old(self).branch@
                        &&& final(self).phase == IntegrationPhase::Resolve
                        &&& r.runs(
                            *repository,
                            seq![
                                "rev-parse"@,
                                "--verify"@,
                                remote_ref(old(self).remote@, old(self).branch@)
                                    + "^{commit}"@,
                            ],
                        )
                    },
                    _ => {
                        &&& final(self).phase == IntegrationPhase::Ended
                        &&& r matches IntegrationStep::Done(Ok(found)) && found.0@ == old(self).branch@ && found.1@ == trimmed(text@)
                    },
                },
            },
    {
        let text = match printed {
            Ok(text) => text,
            Err(message) => {
                self.phase = IntegrationPhase::Ended;
                return IntegrationStep::Done(Err(message));
            },
        };
        match self.phase {
            IntegrationPhase::Head => match find_head_branch(text.as_str()) {
                Some(branch) => {
                    let reference = branch_reference(branch.as_str());
                    self.branch = branch;
                    self.phase = IntegrationPhase::Format;
                    let run = repository.git(&["check-ref-format", reference.as_str()]);
                    assert(run@.args =~= seq!["check-ref-format"@, reference@]);
                    IntegrationStep::Run(run)
                },
                None => {
                    self.phase = IntegrationPhase::Ended;
                    IntegrationStep::Done(Err("remote default branch unavailable".to_owned()))
                },
            },
            IntegrationPhase::Format => {
                self.phase = IntegrationPhase::Fetch;
                let remote_name = remote_reference(self.remote.as_str(), self.branch.as_str());
                let refspec = "+".to_owned().concat(
                    branch_reference(self.branch.as_str()).as_str(),
                ).concat(":").concat(remote_name.as_str());
                let run = repository.git(
                    &["fetch", "--no-tags", self.remote.as_str(), refspec.as_str()],
                );
                assert(run@.args =~= seq!["fetch"@, "--no-tags"@, self.remote@, refspec@]);
                IntegrationStep::Run(run)
            },
            IntegrationPhase::Fetch => {
                self.phase = IntegrationPhase::Resolve;
                let name = remote_reference(self.remote.as_str(), self.branch.as_str()).concat(
                    "^{commit}",
                );
                let run = repository.git(&["rev-parse", "--verify", name.as_str()]);
                assert(run@.args =~= seq!["rev-parse"@, "--verify"@, name@]);
                IntegrationStep::Run(run)
            },
            _ => {
                self.phase = IntegrationPhase::Ended;
                IntegrationStep::Done(Ok((self.branch.clone(), trim(text.as_str()))))
            },
        }
    }
}

/// A remote that could be taken for an option, or for none.
pub open spec fn bad_remote(remote: Seq<char>) -> bool {
    remote.len() == 0 || remote[0] == '-'
}

impl Repository {
    /// Begin to look for the commit that merges are looked for in. `grafts` says whether the
    /// repository has legacy grafts, as far as that can be told.
    pub fn integration(&self, policy: &Policy, grafts: Result<bool, String>) -> (r: (
        Integration,
        IntegrationStep,
    ))
        ensures
            r.0.remote@ == policy@.remote,
            match grafts {
                Err(message) => r.0.phase == IntegrationPhase::Ended && r.1.fails(message@),
                Ok(grafted) => if grafted {
                    r.0.phase == IntegrationPhase::Ended && r.1.fails(
                        "legacy grafts make merge ancestry ambiguous"@,
                    )
                } else if bad_remote(policy@.remote) {
                    r.0.phase == IntegrationPhase::Ended && r.1.fails("invalid cleanup remote"@)
                } else {
                    match policy@.integration_branch {
                        Some(branch) => r.0.checks(*self, branch, r.1),
                        None => {
                            &&& r.0.phase == IntegrationPhase::Head
                            &&& r.1.runs(
                                *self,
                                seq!["ls-remote"@, "--symref"@, policy@.remote, "HEAD"@],
                            )
                        },
                    }
                },
            },
    {
        let mut search = Integration {
            remote: policy.remote.clone(),
            branch: String::new(),
            phase: IntegrationPhase::Ended,
        };
        let grafted: bool = match grafts {
            Ok(grafted) => grafted,
            Err(message) => {
                return (search, IntegrationStep::Done(Err(message)));
            },
        };
        if grafted {
            return (
                search,
                IntegrationStep::Done(
                    Err("legacy grafts make merge ancestry ambiguous".to_owned()),
                ),
            );
        }
        let remote = chars_of(policy.remote.as_str());
        if remote.len() == 0 || remote[0] == '-' {
            return (search, IntegrationStep::Done(Err("invalid cleanup remote".to_owned())));
        }
        match &policy.integration_branch {
            Some(branch) => {
                let reference = branch_reference(branch.as_str());
                search.branch = branch.clone();
                search.phase = IntegrationPhase::Format;
                let run = self.git(&["check-ref-format", reference.as_str()]);
                assert(run@.args =~= seq!["check-ref-format"@, reference@]);
                (search, IntegrationStep::Run(run))
            },
            None => {
                search.phase = IntegrationPhase::Head;
                let run = self.git(&["ls-remote", "--symref", policy.remote.as_str(), "HEAD"]);
                assert(run@.args =~= seq!["ls-remote"@, "--symref"@, policy.remote@, "HEAD"@]);
                (search, IntegrationStep::Run(run))
            },
        }
    }

    /// The command that succeeds where a commit is an ancestor of another.
    pub fn ancestor(&self, commit: &str, integration: &str) -> (r: ProcessCommand)
        ensures
            r@ == (CommandView {
                program: "git"@,
                args: seq!["merge-base"@, "--is-ancestor"@, commit@, integration@],
                cwd: self.root@,
            }),
            r.noninteractive(),
    {
        let run = self.git(&["merge-base", "--is-ancestor", commit, integration]);
        assert(run@.args =~= seq!["merge-base"@, "--is-ancestor"@, commit@, integration@]);
        run
    }
}

/// A field of a worktree listing says one thing of its worktree and nothing else: its path,
/// its commit, its branch, that it is locked, or that it cannot be used.
pub proof fn fields_say_one_thing(entry: EntryView, rest: Seq<char>)
    ensures
        read_field(entry, "worktree "@ + rest) == Some(EntryView { path: Some(rest), ..entry }),
        read_field(entry, "HEAD "@ + rest) == Some(EntryView { commit: rest, ..entry }),
        read_field(entry, "branch refs/heads/"@ + rest) == Some(
            EntryView { branch: Some(rest), ..entry },
        ),
        read_field(entry, "locked"@) == Some(EntryView { locked: true, ..entry }),
        read_field(entry, "locked "@ + rest) == Some(EntryView { locked: true, ..entry }),
        read_field(entry, "bare"@) == Some(EntryView { unavailable: true, ..entry }),
        read_field(entry, "prunable"@ + rest) == Some(EntryView { unavailable: true, ..entry }),
        read_field(entry, "detached"@) == Some(entry),
        read_field(entry, Seq::<char>::empty()) == Some(entry),
{
    reveal_strlit("worktree ");
    reveal_strlit("HEAD ");
    reveal_strlit("branch refs/heads/");
    reveal_strlit("locked");
    reveal_strlit("locked ");
    reveal_strlit("bare");
    reveal_strlit("prunable");
    reveal_strlit("detached");
    let path = "worktree "@ + rest;
    let head = "HEAD "@ + rest;
    let branch = "branch refs/heads/"@ + rest;
    let locked = "locked "@ + rest;
    let prunable = "prunable"@ + rest;
    assert(path.skip("worktree "@.len() as int) =~= rest);
    assert(head.skip("HEAD "@.len() as int) =~= rest);
    assert(branch.skip("branch refs/heads/"@.len() as int) =~= rest);
    assert("worktree "@.is_prefix_of(path));
    assert("HEAD "@.is_prefix_of(head));
    assert("branch refs/heads/"@.is_prefix_of(branch));
    assert("locked "@.is_prefix_of(locked));
    assert("prunable"@.is_prefix_of(prunable));
    assert("worktree "@[0] == 'w' && "HEAD "@[0] == 'H' && "branch refs/heads/"@[0] == 'b');
    assert("branch refs/heads/"@[1] == 'r' && "bare"@[1] == 'a');
    assert("locked "@[0] == 'l' && "locked"@[0] == 'l' && "prunable"@[0] == 'p');
    assert("bare"@[0] == 'b' && "detached"@[0] == 'd');
    assert(head[0] == 'H' && branch[0] == 'b' && locked[0] == 'l' && prunable[0] == 'p');
    assert(path[0] == 'w');
    assert(!"worktree "@.is_prefix_of("locked"@) && !"HEAD "@.is_prefix_of("locked"@)
        && !"branch refs/heads/"@.is_prefix_of("locked"@));
    assert(!"worktree "@.is_prefix_of("bare"@) && !"HEAD "@.is_prefix_of("bare"@)
        && !"branch refs/heads/"@.is_prefix_of("bare"@) && !"locked "@.is_prefix_of("bare"@));
    assert(!"worktree "@.is_prefix_of("detached"@) && !"HEAD "@.is_prefix_of("detached"@)
        && !"branch refs/heads/"@.is_prefix_of("detached"@) && !"locked "@.is_prefix_of(
        "detached"@,
    ) && !"prunable"@.is_prefix_of("detached"@));
    let none = Seq::<char>::empty();
    assert(!"worktree "@.is_prefix_of(none) && !"HEAD "@.is_prefix_of(none)
        && !"branch refs/heads/"@.is_prefix_of(none) && !"locked "@.is_prefix_of(none)
        && !"prunable"@.is_prefix_of(none));
}

/// A field that is not known is not passed over: it stops the listing.
pub proof fn unknown_fields_are_refused(entry: EntryView, field: Seq<char>)
    requires
        field.len() > 0,
        field[0] != 'w' && field[0] != 'H' && field[0] != 'b' && field[0] != 'l' && field[0] != 'p'
            && field[0] != 'd',
    ensures
        read_field(entry, field) is None,
{
    reveal_strlit("worktree ");
    reveal_strlit("HEAD ");
    reveal_strlit("branch refs/heads/");
    reveal_strlit("locked");
    reveal_strlit("locked ");
    reveal_strlit("bare");
    reveal_strlit("prunable");
    reveal_strlit("detached");
    assert("worktree "@[0] == 'w' && "HEAD "@[0] == 'H' && "branch refs/heads/"@[0] == 'b');
    assert("locked "@[0] == 'l' && "locked"@[0] == 'l' && "prunable"@[0] == 'p');
    assert("bare"@[0] == 'b' && "detached"@[0] == 'd');
}

/// What the fields before said of a worktree stays as it was where a field says nothing of
/// it, and a worktree once locked or unusable stays so.
pub proof fn fields_add_up(entry: EntryView, field: Seq<char>)
    requires
        read_field(entry, field) is Some,
    ensures
        entry.locked ==> read_field(entry, field)->0.locked,
        entry.unavailable ==> read_field(entry, field)->0.unavailable,
        entry.path is Some ==> read_field(entry, field)->0.path is Some,
        entry.branch is Some ==> read_field(entry, field)->0.branch is Some,
{
}

proof fn lemma_blocks(blocks: Seq<Seq<char>>, n: nat)
    requires
        n <= blocks.len(),
    ensures
        read_blocks(blocks, n) is Ok <==> forall|i: int|
            0 <= i < n ==> (#[trigger] blocks[i]).len() == 0 || read_block(blocks[i]) is Ok,
        read_blocks(blocks, n) matches Ok(entries) ==> entries.len() <= n,
        read_blocks(blocks, n) matches Ok(entries) ==> forall|i: int|
            0 <= i < n && (#[trigger] blocks[i]).len() > 0 ==> entries.contains(
                read_block(blocks[i])->Ok_0,
            ),
        read_blocks(blocks, n) matches Ok(entries) ==> forall|k: int|
            0 <= k < entries.len() ==> exists|i: int|
                0 <= i < n && (#[trigger] blocks[i]).len() > 0 && read_block(blocks[i]) == Ok::<
                    EntryView,
                    Seq<char>,
                >(#[trigger] entries[k]),
    decreases n,
{
    if n > 0 {
        lemma_blocks(blocks, (n - 1) as nat);
        let before = read_blocks(blocks, (n - 1) as nat);
        let after = read_blocks(blocks, n);
        let last = blocks[n - 1];
        if before is Ok && after is Ok {
            let old_entries = before->Ok_0;
            let entries = after->Ok_0;
            assert forall|i: int| 0 <= i < n && (#[trigger] blocks[i]).len() > 0 implies
                entries.contains(read_block(blocks[i])->Ok_0) by {
                let entry = read_block(blocks[i])->Ok_0;
                if i < n - 1 {
                    let k = choose|k: int| 0 <= k < old_entries.len() && old_entries[k] == entry;
                    assert(entries[k] == entry);
                } else {
                    assert(entries.last() == entry);
                }
            }
            assert forall|k: int| 0 <= k < entries.len() implies exists|i: int|
                0 <= i < n && (#[trigger] blocks[i]).len() > 0 && read_block(blocks[i]) == Ok::<
                    EntryView,
                    Seq<char>,
                >(#[trigger] entries[k]) by {
                if k < old_entries.len() {
                    assert(entries[k] == old_entries[k]);
                } else {
                    assert(blocks[n - 1].len() > 0);
                }
            }
        }
    }
}

/// A listing is read block by block and loses none: each block that is not empty is an entry,
/// each entry is a block's, and one block that cannot be read refuses the listing.
pub proof fn every_block_is_an_entry(raw: Seq<char>, i: int)
    requires
        0 <= i < pieces(raw, "\0\0"@, 0).len(),
        pieces(raw, "\0\0"@, 0)[i].len() > 0,
    ensures
        read_block(pieces(raw, "\0\0"@, 0)[i]) is Err ==> read_listing(raw) is Err,
        read_listing(raw) matches Ok(entries) ==> entries.contains(
            read_block(pieces(raw, "\0\0"@, 0)[i])->Ok_0,
        ),
        read_listing(raw) matches Ok(entries) ==> entries.len() <= pieces(raw, "\0\0"@, 0).len(),
{
    lemma_blocks(pieces(raw, "\0\0"@, 0), pieces(raw, "\0\0"@, 0).len());
}

/// The worktree that is listed first is the primary one, and no other; each keeps its own
/// path, branch and commit, and one whose directories were not found cannot be used.
pub proof fn first_worktree_is_primary(
    entries: Seq<EntryView>,
    details: Seq<WorktreeDetails>,
    i: int,
)
    requires
        0 <= i < entries.len(),
        details.len() == entries.len(),
    ensures
        worktree_candidates(entries, details).len() == entries.len(),
        worktree_candidates(entries, details)[i].primary <==> i == 0,
        worktree_candidates(entries, details)[i].path == Some(details[i].path@),
        worktree_candidates(entries, details)[i].branch == entries[i].branch,
        worktree_candidates(entries, details)[i].commit == entries[i].commit,
        worktree_candidates(entries, details)[i].locked == entries[i].locked,
        entries[i].unavailable ==> worktree_candidates(entries, details)[i].unavailable,
        details[i].found is None ==> worktree_candidates(entries, details)[i].unavailable
            && worktree_candidates(entries, details)[i].git_dir is None && worktree_candidates(
            entries,
            details,
        )[i].identity is None,
        details[i].found matches Some(found) ==> worktree_candidates(entries, details)[i].git_dir
            == Some(found.0@) && worktree_candidates(entries, details)[i].identity == Some(
            found.1@,
        ) && (!entries[i].unavailable ==> !worktree_candidates(entries, details)[i].unavailable),
{
}

/// A line of the branch listing adds the branch it names, at the commit it names, unless a
/// candidate is on it already; a symbolic branch cannot be used.
pub proof fn listed_branches_are_candidates(
    candidates: Seq<CandidateView>,
    line: Seq<char>,
    branch: Seq<char>,
    commit: Seq<char>,
    target: Seq<char>,
)
    requires
        pieces(line, "\0"@, 0) == seq!["refs/heads/"@ + branch, commit, target],
    ensures
        (exists|i: int|
            0 <= i < candidates.len() && (#[trigger] candidates[i]).branch == Some(branch))
            ==> with_branch(candidates, line) == Ok::<Seq<CandidateView>, Seq<char>>(candidates),
        (forall|i: int|
            0 <= i < candidates.len() ==> (#[trigger] candidates[i]).branch != Some(branch)) ==> {
            &&& with_branch(candidates, line) matches Ok(found)
            &&& found.len() == candidates.len() + 1
            &&& found.drop_last() == candidates
            &&& found.last().branch == Some(branch)
            &&& found.last().commit == commit
            &&& found.last().path is None
            &&& found.last().git_dir is None
            &&& found.last().identity is None
            &&& !found.last().primary
            &&& !found.last().locked
            &&& found.last().unavailable <==> target.len() > 0
        },
{
    reveal_strlit("refs/heads/");
    let reference = "refs/heads/"@ + branch;
    assert("refs/heads/"@.is_prefix_of(reference));
    assert(reference.skip("refs/heads/"@.len() as int) =~= branch);
    if !on_branch(candidates, branch) {
        let found = with_branch(candidates, line)->Ok_0;
        assert(found.drop_last() =~= candidates);
    }
}

proof fn lemma_with_branches(candidates: Seq<CandidateView>, listed: Seq<Seq<char>>, n: nat)
    requires
        n <= listed.len(),
        with_branches(candidates, listed, n) is Ok,
    ensures
        candidates.is_prefix_of(with_branches(candidates, listed, n)->Ok_0),
        forall|k: int|
            candidates.len() <= k < with_branches(candidates, listed, n)->Ok_0.len()
                ==> (#[trigger] with_branches(candidates, listed, n)->Ok_0[k]).path is None
                && with_branches(candidates, listed, n)->Ok_0[k].branch is Some,
        forall|j: int, k: int|
            0 <= j < k && candidates.len() <= k < with_branches(
                candidates,
                listed,
                n,
            )->Ok_0.len() ==> (#[trigger] with_branches(candidates, listed, n)->Ok_0[j]).branch
                != (#[trigger] with_branches(candidates, listed, n)->Ok_0[k]).branch,
    decreases n,
{
    if n > 0 {
        lemma_with_branches(candidates, listed, (n - 1) as nat);
        let before = with_branches(candidates, listed, (n - 1) as nat)->Ok_0;
        let after = with_branches(candidates, listed, n)->Ok_0;
        assert(with_branch(before, listed[n - 1]) == Ok::<Seq<CandidateView>, Seq<char>>(after));
        if after != before {
            let branch = after.last().branch->0;
            assert(!on_branch(before, branch));
            assert(after.drop_last() =~= before);
            assert forall|j: int, k: int|
                0 <= j < k && candidates.len() <= k < after.len() implies (
            #[trigger] after[j]).branch != (#[trigger] after[k]).branch by {
                assert(after[j] == before[j]);
                if k < before.len() {
                    assert(after[k] == before[k]);
                }
            }
        }
    }
}

/// Discovery keeps every worktree in its place and adds each other branch once, without a
/// path.
pub proof fn branches_are_discovered_once(
    entries: Seq<EntryView>,
    details: Seq<WorktreeDetails>,
    refs: Seq<char>,
    j: int,
    k: int,
)
    requires
        discovered(entries, details, refs) is Ok,
        details.len() == entries.len(),
        0 <= j < k < discovered(entries, details, refs)->Ok_0.len(),
    ensures
        discovered(entries, details, refs)->Ok_0.take(entries.len() as int) == worktree_candidates(
            entries,
            details,
        ),
        k >= entries.len() ==> discovered(entries, details, refs)->Ok_0[k].path is None
            && discovered(entries, details, refs)->Ok_0[j].branch != discovered(
            entries,
            details,
            refs,
        )->Ok_0[k].branch,
{
    let worktrees = worktree_candidates(entries, details);
    lemma_with_branches(worktrees, lines_of(refs), lines_of(refs).len());
    let found = discovered(entries, details, refs)->Ok_0;
    assert(found.take(entries.len() as int) =~= worktrees);
}

/// A local branch and a branch of a remote have references of their own, which name them.
pub proof fn references_name_their_branch(branch: Seq<char>, remote: Seq<char>)
    ensures
        "refs/heads/"@.is_prefix_of(branch_ref(branch)),
        branch_ref(branch).skip("refs/heads/"@.len() as int) == branch,
        "refs/remotes/"@.is_prefix_of(remote_ref(remote, branch)),
        remote_ref(remote, branch).skip("refs/remotes/"@.len() as int) == remote + "/"@ + branch,
        branch_ref(branch) != remote_ref(remote, branch),
{
    reveal_strlit("refs/heads/");
    reveal_strlit("refs/remotes/");
    let local = branch_ref(branch);
    let far = remote_ref(remote, branch);
    assert(local.skip("refs/heads/"@.len() as int) =~= branch);
    assert(far.skip("refs/remotes/"@.len() as int) =~= remote + "/"@ + branch);
    assert(local[5] == 'h' && far[5] == 'r');
}

/// The branch that a remote names as its HEAD is read out of the line that says so.
pub proof fn remote_head_is_read(branch: Seq<char>, line: Seq<char>)
    ensures
        head_line("ref: refs/heads/"@ + branch + "\tHEAD"@) == Some(branch),
        head_line(line) matches Some(found) ==> line == "ref: refs/heads/"@ + found + "\tHEAD"@,
{
    reveal_strlit("ref: refs/heads/");
    reveal_strlit("\tHEAD");
    let whole = "ref: refs/heads/"@ + branch + "\tHEAD"@;
    let n = "ref: refs/heads/"@.len() as int;
    let rest = whole.skip(n);
    assert("ref: refs/heads/"@.is_prefix_of(whole));
    assert(rest =~= branch + "\tHEAD"@);
    assert(rest.subrange(rest.len() - 5, rest.len() as int) =~= "\tHEAD"@);
    assert(rest.take(rest.len() - 5) =~= branch);
    if head_line(line) is Some {
        let tail = line.skip(n);
        assert(tail.subrange(tail.len() - 5, tail.len() as int) == "\tHEAD"@);
        assert(line =~= "ref: refs/heads/"@ + tail.take(tail.len() - 5) + tail.subrange(
            tail.len() - 5,
            tail.len() as int,
        ));
    }
}

proof fn lemma_head(listed: Seq<Seq<char>>, i: nat)
    requires
        i <= listed.len(),
    ensures
        head_branch(listed, i) is None <==> forall|k: int|
            i <= k < listed.len() ==> head_line(#[trigger] listed[k]) is None,
        head_branch(listed, i) matches Some(branch) ==> exists|k: int|
            i <= k < listed.len() && head_line(#[trigger] listed[k]) == Some(branch),
    decreases listed.len() - i,
{
    if i < listed.len() {
        if head_line(listed[i as int]) is None {
            lemma_head(listed, i + 1);
        } else {
            assert(head_line(listed[i as int]) is Some);
        }
    }
}

/// Where a line of the remote's answer names its HEAD, a branch that such a line names is
/// found.
pub proof fn remote_head_is_found(listed: Seq<Seq<char>>)
    ensures
        head_branch(listed, 0) is None <==> forall|k: int|
            0 <= k < listed.len() ==> head_line(#[trigger] listed[k]) is None,
        head_branch(listed, 0) matches Some(branch) ==> exists|k: int|
            0 <= k < listed.len() && head_line(#[trigger] listed[k]) == Some(branch),
{
    lemma_head(listed, 0);
}

/// A remote needs a name, and one that reads like an option is none.
pub proof fn options_are_no_remotes(remote: Seq<char>)
    ensures
        bad_remote(Seq::<char>::empty()),
        bad_remote("-"@ + remote),
        remote.len() > 0 && remote[0] != '-' ==> !bad_remote(remote),
{
    reveal_strlit("-");
    assert(("-"@ + remote)[0] == '-');
}

/// Output is kept from its beginning, and never more than one byte past the limit of eight
/// mebibytes.
pub proof fn output_is_kept_up_to_the_limit(bytes: Seq<u8>)
    ensures
        BoundedOutput::kept(bytes).is_prefix_of(bytes),
        BoundedOutput::kept(bytes).len() <= 8 * 1024 * 1024 + 1,
        bytes.len() <= 8 * 1024 * 1024 + 1 ==> BoundedOutput::kept(bytes) == bytes,
        bytes.len() > 8 * 1024 * 1024 ==> BoundedOutput::kept(bytes).len() == 8 * 1024 * 1024 + 1,
{
}

/// The name of a branch is checked before it is used, by its full reference.
pub proof fn branch_names_are_checked_first(
    integration: Integration,
    repository: Repository,
    branch: Seq<char>,
    step: IntegrationStep,
)
    requires
        integration.checks(repository, branch, step),
    ensures
        integration.branch@ == branch,
        integration.phase == IntegrationPhase::Format,
        step matches IntegrationStep::Run(command) && command@.program == "git"@ && command@.args
            == seq!["check-ref-format"@, "refs/heads/"@ + branch] && command@.cwd
            == repository.root@ && command.noninteractive(),
{
}

/// A command that must not ask switches off every way to: terminal prompts, replaced objects,
/// the credential manager and the host's client.
pub proof fn commands_do_not_ask(command: ProcessCommand)
    requires
        command.noninteractive(),
    ensures
        command.set@.len() == 4,
        exists|i: int|
            0 <= i < 4 && (#[trigger] command.set@[i]).0@ == "GIT_TERMINAL_PROMPT"@
                && command.set@[i].1@ == "0"@,
        exists|i: int|
            0 <= i < 4 && (#[trigger] command.set@[i]).0@ == "GIT_NO_REPLACE_OBJECTS"@
                && command.set@[i].1@ == "1"@,
        exists|i: int|
            0 <= i < 4 && (#[trigger] command.set@[i]).0@ == "GCM_INTERACTIVE"@
                && command.set@[i].1@ == "never"@,
        exists|i: int|
            0 <= i < 4 && (#[trigger] command.set@[i]).0@ == "GH_PROMPT_DISABLED"@
                && command.set@[i].1@ == "1"@,
{
    assert(command.set@[0].0@ == "GIT_TERMINAL_PROMPT"@);
    assert(command.set@[1].0@ == "GIT_NO_REPLACE_OBJECTS"@);
    assert(command.set@[2].0@ == "GCM_INTERACTIVE"@);
    assert(command.set@[3].0@ == "GH_PROMPT_DISABLED"@);
}

} // verus!
