//! Worktrees and branches up close: what makes a worktree the one that was discovered, what
//! local work it holds, and how it and its branch are removed.
use vstd::prelude::*;
use vstd::utf8::*;

use super::git::{arguments, branch_ref, branch_reference, command, CommandView, ProcessCommand, Repository};
use super::policy::{candidate_views, still_there, Candidate, CandidateView};
use crate::lines::{chars_of, lines, lines_of, pieces, split, strip_prefix, trim, trimmed};
use crate::path::{components, same_path};
use crate::runtime_provider::settings::utf8_text;
use crate::text::{same, text_of, texts};

verus! {

/// The checkout that a worktree listing names first.
pub open spec fn listed_first(raw: Seq<char>) -> Option<Seq<char>> {
    let first = pieces(raw, "\0"@, 0)[0];
    if "worktree "@.is_prefix_of(first) {
        Some(first.skip("worktree "@.len() as int))
    } else {
        None
    }
}

/// The primary checkout of a repository, which survives cleanup.
pub fn primary_checkout(raw: &str) -> (r: Result<String, String>)
    ensures
        match listed_first(raw@) {
            Some(path) => r matches Ok(found) && found@ == path,
            None => r matches Err(message) && message@ == "missing primary checkout"@,
        },
{
    proof {
        reveal_strlit("\0");
    }
    let fields = split(raw, "\0");
    assert(texts(fields@)[0] == fields@[0]@);
    match strip_prefix(fields[0].as_str(), "worktree ") {
        Some(path) => Ok(path),
        None => Err("missing primary checkout".to_owned()),
    }
}

/// The command that lists the worktrees of the repository at a path.
pub fn worktree_list(path: &Vec<u8>) -> (r: ProcessCommand)
    ensures
        r@ == (CommandView {
            program: "git"@,
            args: seq!["worktree"@, "list"@, "--porcelain"@, "-z"@],
            cwd: path@,
        }),
        r.noninteractive(),
{
    let run = command("git", arguments(&["worktree", "list", "--porcelain", "-z"]), path);
    assert(run@.args =~= seq!["worktree"@, "list"@, "--porcelain"@, "-z"@]);
    run
}

impl Repository {
    /// The command that finds the shared Git directory of the repository at a path.
    pub fn common_directory(path: &Vec<u8>) -> (r: ProcessCommand)
        ensures
            r@ == (CommandView {
                program: "git"@,
                args: seq!["rev-parse"@, "--path-format=absolute"@, "--git-common-dir"@],
                cwd: path@,
            }),
            r.noninteractive(),
    {
        let run = command(
            "git",
            arguments(&["rev-parse", "--path-format=absolute", "--git-common-dir"]),
            path,
        );
        assert(run@.args =~= seq![
            "rev-parse"@,
            "--path-format=absolute"@,
            "--git-common-dir"@,
        ]);
        run
    }

    /// The repository with the shared Git directory and the primary checkout given, both in
    /// canonical form.
    pub fn open(common: Vec<u8>, root: Vec<u8>) -> (r: Self)
        ensures
            r.root@ == root@,
            r.common@ == common@,
    {
        Repository { root, common }
    }

    /// The command that lists the branches of the repository.
    pub fn branch_list(&self) -> (r: ProcessCommand)
        ensures
            r@ == (CommandView {
                program: "git"@,
                args: seq![
                    "for-each-ref"@,
                    "--format=%(refname)%00%(objectname)%00%(symref)"@,
                    "refs/heads/"@,
                ],
                cwd: self.root@,
            }),
            r.noninteractive(),
    {
        let run = self.git(
            &[
                "for-each-ref",
                "--format=%(refname)%00%(objectname)%00%(symref)",
                "refs/heads/",
            ],
        );
        assert(run@.args =~= seq![
            "for-each-ref"@,
            "--format=%(refname)%00%(objectname)%00%(symref)"@,
            "refs/heads/"@,
        ]);
        run
    }

    /// The command that finds the Git directories of a worktree.
    pub fn worktree_directories(path: &Vec<u8>) -> (r: ProcessCommand)
        ensures
            r@ == (CommandView {
                program: "git"@,
                args: seq![
                    "rev-parse"@,
                    "--path-format=absolute"@,
                    "--git-common-dir"@,
                    "--git-dir"@,
                ],
                cwd: path@,
            }),
            r.noninteractive(),
    {
        let run = command(
            "git",
            arguments(&["rev-parse", "--path-format=absolute", "--git-common-dir", "--git-dir"]),
            path,
        );
        assert(run@.args =~= seq![
            "rev-parse"@,
            "--path-format=absolute"@,
            "--git-common-dir"@,
            "--git-dir"@,
        ]);
        run
    }
}

/// The shared and the own Git directory of a worktree, where Git named just these.
pub fn named_directories(printed: &str) -> (r: Result<(String, String), String>)
    ensures
        r is Ok <==> lines_of(printed@).len() == 2,
        r matches Ok(found) ==> found.0@ == lines_of(printed@)[0] && found.1@ == lines_of(
            printed@,
        )[1],
        r matches Err(message) ==> message@ == "worktree repository changed"@,
{
    let listed = lines(printed);
    assert(texts(listed@).len() == listed@.len());
    if listed.len() != 2 {
        return Err("worktree repository changed".to_owned());
    }
    assert(texts(listed@)[0] == listed@[0]@ && texts(listed@)[1] == listed@[1]@);
    Ok((listed[0].clone(), listed[1].clone()))
}

/// What the file system says of the marker of a worktree.
pub struct Marker {
    pub symlink: bool,
    /// Identities of the worktree's directory and of its marker.
    pub directory_identity: String,
    pub marker_identity: String,
    /// What the marker holds, where it is a file.
    pub contents: String,
}

impl Marker {
    pub open spec fn identity(self) -> Seq<char> {
        self.directory_identity@ + ":"@ + self.marker_identity@ + ":"@ + self.contents@
    }
}

impl Repository {
    /// The Git directory and the identity of a worktree, where it belongs to this
    /// repository. `common` and `git_dir` are its Git directories in canonical form.
    pub fn worktree_identity(&self, common: &Vec<u8>, git_dir: Vec<u8>, marker: &Marker) -> (r:
        Result<(Vec<u8>, String), String>)
        ensures
            r is Ok <==> components(common@) == components(self.common@) && !marker.symlink,
            r matches Ok(found) ==> found.0@ == git_dir@ && found.1@ == marker.identity(),
            r matches Err(message) ==> message@ == (if components(common@) != components(
                self.common@,
            ) {
                "worktree repository changed"@
            } else {
                "symlinked .git marker"@
            }),
    {
        if !same_path(common, &self.common) {
            return Err("worktree repository changed".to_owned());
        }
        if marker.symlink {
            return Err("symlinked .git marker".to_owned());
        }
        let identity = marker.directory_identity.clone().concat(":").concat(
            marker.marker_identity.as_str(),
        ).concat(":").concat(marker.contents.as_str());
        Ok((git_dir, identity))
    }
}

/// The files of an unfinished Git operation, in the order in which they are looked for.
pub open spec fn unfinished_files() -> Seq<Seq<char>> {
    seq![
        "index.lock"@,
        "config.worktree"@,
        "HEAD.lock"@,
        "MERGE_HEAD"@,
        "CHERRY_PICK_HEAD"@,
        "REVERT_HEAD"@,
        "BISECT_START"@,
        "rebase-apply"@,
        "rebase-merge"@,
        "sequencer"@,
    ]
}

/// The files of an unfinished Git operation.
pub fn unfinished_names() -> (r: Vec<String>)
    ensures
        texts(r@) == unfinished_files(),
{
    let names = arguments(
        &[
            "index.lock",
            "config.worktree",
            "HEAD.lock",
            "MERGE_HEAD",
            "CHERRY_PICK_HEAD",
            "REVERT_HEAD",
            "BISECT_START",
            "rebase-apply",
            "rebase-merge",
            "sequencer",
        ],
    );
    assert(texts(names@) =~= unfinished_files());
    names
}

/// What is found in a worktree: what Git says of its files, of its index and of its
/// submodules, and whether each file of an unfinished operation exists.
pub struct LocalReports {
    pub status: Result<String, String>,
    pub flags: Result<String, String>,
    pub unfinished: Vec<Result<bool, String>>,
    pub submodules: Result<String, String>,
}

/// An index entry whose flags hide changes of its file.
pub open spec fn conceals(entry: Seq<char>) -> bool {
    entry.len() > 0 && ('a' <= entry[0] <= 'z' || entry[0] == 'S')
}

pub open spec fn any_conceals(flags: Seq<char>) -> bool {
    exists|i: int|
        0 <= i < pieces(flags, "\0"@, 0).len() && conceals(
            #[trigger] pieces(flags, "\0"@, 0)[i],
        )
}

/// The first file of an unfinished operation, from `i` on, that exists, or of which that
/// cannot be told.
pub open spec fn first_unfinished(unfinished: Seq<Result<bool, String>>, i: nat) -> Result<
    Option<Seq<char>>,
    Seq<char>,
>
    decreases unfinished_files().len() - i,
{
    if i >= unfinished_files().len() {
        Ok(None)
    } else {
        match unfinished[i as int] {
            Err(message) => Err(message@),
            Ok(exists) => if exists {
                Ok(Some("unfinished Git operation: "@ + unfinished_files()[i as int]))
            } else {
                first_unfinished(unfinished, i + 1)
            },
        }
    }
}

/// Why the local state of a candidate keeps it, if it does. A candidate without a worktree
/// has none.
pub open spec fn local_work(candidate: CandidateView, reports: LocalReports) -> Result<
    Option<Seq<char>>,
    Seq<char>,
> {
    if candidate.path is None {
        Ok(None)
    } else {
        match reports.status {
            Err(message) => Err(message@),
            Ok(status) => if status@.len() > 0 {
                Ok(Some("tracked, untracked, or ignored local files"@))
            } else {
                match reports.flags {
                    Err(message) => Err(message@),
                    Ok(flags) => if any_conceals(flags@) {
                        Ok(Some("index flags can conceal tracked changes"@))
                    } else if candidate.git_dir is None {
                        Err("missing worktree Git directory"@)
                    } else {
                        match first_unfinished(reports.unfinished@, 0) {
                            Err(message) => Err(message),
                            Ok(Some(reason)) => Ok(Some(reason)),
                            Ok(None) => match reports.submodules {
                                Err(message) => Err(message@),
                                Ok(listed) => if trimmed(listed@).len() > 0 {
                                    Ok(Some("worktree contains submodules"@))
                                } else {
                                    Ok(None)
                                },
                            },
                        }
                    },
                }
            },
        }
    }
}

/// `r` says what `said` says.
pub open spec fn says(
    r: Result<Option<String>, String>,
    said: Result<Option<Seq<char>>, Seq<char>>,
) -> bool {
    match said {
        Ok(reason) => r matches Ok(found) && text_of(found) == reason,
        Err(message) => r matches Err(text) && text@ == message,
    }
}

fn has_concealed(flags: &str) -> (r: bool)
    ensures
        r == any_conceals(flags@),
{
    proof {
        reveal_strlit("\0");
    }
    let entries = split(flags, "\0");
    let ghost cut = pieces(flags@, "\0"@, 0);
    let mut i: usize = 0;
    while i < entries.len()
        invariant
            i <= entries@.len(),
            texts(entries@) == cut,
            cut == pieces(flags@, "\0"@, 0),
            forall|j: int| 0 <= j < i ==> !conceals(#[trigger] cut[j]),
        decreases entries@.len() - i,
    {
        assert(texts(entries@)[i as int] == entries@[i as int]@);
        let entry = chars_of(entries[i].as_str());
        if entry.len() > 0 {
            let c: char = entry[0];
            if ('a' <= c && c <= 'z') || c == 'S' {
                assert(conceals(cut[i as int]));
                return true;
            }
        }
        i = i + 1;
    }
    assert(texts(entries@).len() == entries@.len());
    false
}

impl Repository {
    /// The commands whose output the local reports hold: of the status, of the index flags
    /// and of the submodules of a worktree.
    pub fn local_commands(path: &Vec<u8>) -> (r: (ProcessCommand, ProcessCommand, ProcessCommand))
        ensures
            r.0@ == (CommandView {
                program: "git"@,
                args: seq![
                    "status"@,
                    "--porcelain=v1"@,
                    "-z"@,
                    "--untracked-files=all"@,
                    "--ignored=matching"@,
                    "--ignore-submodules=none"@,
                ],
                cwd: path@,
            }),
            r.1@ == (CommandView {
                program: "git"@,
                args: seq!["ls-files"@, "-v"@, "-z"@],
                cwd: path@,
            }),
            r.2@ == (CommandView {
                program: "git"@,
                args: seq!["submodule"@, "status"@, "--recursive"@],
                cwd: path@,
            }),
            r.0.noninteractive() && r.1.noninteractive() && r.2.noninteractive(),
    {
        let status = command(
            "git",
            arguments(
                &[
                    "status",
                    "--porcelain=v1",
                    "-z",
                    "--untracked-files=all",
                    "--ignored=matching",
                    "--ignore-submodules=none",
                ],
            ),
            path,
        );
        assert(status@.args =~= seq![
            "status"@,
            "--porcelain=v1"@,
            "-z"@,
            "--untracked-files=all"@,
            "--ignored=matching"@,
            "--ignore-submodules=none"@,
        ]);
        let flags = command("git", arguments(&["ls-files", "-v", "-z"]), path);
        assert(flags@.args =~= seq!["ls-files"@, "-v"@, "-z"@]);
        let submodules = command("git", arguments(&["submodule", "status", "--recursive"]), path);
        assert(submodules@.args =~= seq!["submodule"@, "status"@, "--recursive"@]);
        (status, flags, submodules)
    }

    /// Why the local state of a candidate keeps it, if it does.
    pub fn local_reason(&self, candidate: &Candidate, reports: &LocalReports) -> (r: Result<
        Option<String>,
        String,
    >)
        requires
            reports.unfinished@.len() == unfinished_files().len(),
        ensures
            says(r, local_work(candidate@, *reports)),
    {
        if candidate.path.is_none() {
            return Ok(None);
        }
        match &reports.status {
            Err(message) => {
                return Err(message.clone());
            },
            Ok(status) => {
                if status.as_str().unicode_len() > 0 {
                    return Ok(Some("tracked, untracked, or ignored local files".to_owned()));
                }
            },
        }
        match &reports.flags {
            Err(message) => {
                return Err(message.clone());
            },
            Ok(flags) => {
                if has_concealed(flags.as_str()) {
                    return Ok(Some("index flags can conceal tracked changes".to_owned()));
                }
            },
        }
        if candidate.git_dir.is_none() {
            return Err("missing worktree Git directory".to_owned());
        }
        let names = unfinished_names();
        assert(texts(names@).len() == names@.len());
        let mut i: usize = 0;
        while i < names.len()
            invariant
                i <= names@.len() == unfinished_files().len() == reports.unfinished@.len(),
                texts(names@) == unfinished_files(),
                first_unfinished(reports.unfinished@, 0) == first_unfinished(
                    reports.unfinished@,
                    i as nat,
                ),
                local_work(candidate@, *reports) == (match first_unfinished(
                    reports.unfinished@,
                    0,
                ) {
                    Err(message) => Err(message),
                    Ok(Some(reason)) => Ok(Some(reason)),
                    Ok(None) => match reports.submodules {
                        Err(message) => Err(message@),
                        Ok(listed) => if trimmed(listed@).len() > 0 {
                            Ok(Some("worktree contains submodules"@))
                        } else {
                            Ok(None)
                        },
                    },
                }),
            decreases names@.len() - i,
        {
            assert(texts(names@)[i as int] == names@[i as int]@);
            match &reports.unfinished[i] {
                Err(message) => {
                    return Err(message.clone());
                },
                Ok(exists) => {
                    if *exists {
                        return Ok(
                            Some("unfinished Git operation: ".to_owned().concat(names[i].as_str())),
                        );
                    }
                },
            }
            i = i + 1;
        }
        match &reports.submodules {
            Err(message) => Err(message.clone()),
            Ok(listed) => {
                if trim(listed.as_str()).as_str().unicode_len() > 0 {
                    Ok(Some("worktree contains submodules".to_owned()))
                } else {
                    Ok(None)
                }
            },
        }
    }

    /// Whether a candidate is still just what was discovered.
    pub fn unchanged(&self, candidate: &Candidate, current: &Vec<Candidate>) -> (r: Result<
        (),
        String,
    >)
        ensures
            r is Ok <==> still_there(candidate_views(current@), candidate@),
            r matches Err(message) ==> message@ == "candidate identity or branch tip changed"@,
    {
        let mut i: usize = 0;
        while i < current.len()
            invariant
                i <= current@.len(),
                forall|j: int|
                    0 <= j < i ==> !(#[trigger] candidate_views(current@)[j]).same_as(candidate@),
            decreases current@.len() - i,
        {
            assert(candidate_views(current@)[i as int] == current@[i as int]@);
            if current[i].equals(candidate) {
                return Ok(());
            }
            i = i + 1;
        }
        assert(candidate_views(current@).len() == current@.len());
        Err("candidate identity or branch tip changed".to_owned())
    }

    /// Why a worktree is not removed, if it is not: it must still be what was discovered,
    /// and hold no local work.
    pub open spec fn removal_refusal(
        candidate: CandidateView,
        current: Seq<CandidateView>,
        reports: LocalReports,
    ) -> Option<Seq<char>> {
        if !still_there(current, candidate) {
            Some("candidate identity or branch tip changed"@)
        } else {
            match local_work(candidate, reports) {
                Err(message) => Some(message),
                Ok(Some(reason)) => Some(reason),
                Ok(None) => match candidate.path {
                    None => Some("missing worktree path"@),
                    Some(path) => if valid_utf8(path) {
                        None
                    } else {
                        Some("non-UTF-8 worktree path"@)
                    },
                },
            }
        }
    }

    /// The command that removes a worktree, where nothing keeps it.
    pub fn remove_worktree(
        &self,
        candidate: &Candidate,
        current: &Vec<Candidate>,
        reports: &LocalReports,
    ) -> (r: Result<ProcessCommand, String>)
        requires
            reports.unfinished@.len() == unfinished_files().len(),
        ensures
            match Repository::removal_refusal(candidate@, candidate_views(current@), *reports) {
                Some(message) => r matches Err(text) && text@ == message,
                None => r matches Ok(run) && run@ == (CommandView {
                    program: "git"@,
                    args: seq![
                        "worktree"@,
                        "remove"@,
                        "--"@,
                        decode_utf8(candidate@.path->0),
                    ],
                    cwd: self.root@,
                }) && run.noninteractive(),
            },
    {
        if let Err(message) = self.unchanged(candidate, current) {
            return Err(message);
        }
        match self.local_reason(candidate, reports) {
            Err(message) => {
                return Err(message);
            },
            Ok(Some(reason)) => {
                return Err(reason);
            },
            Ok(None) => {},
        }
        let path = match &candidate.path {
            Some(path) => path,
            None => {
                return Err("missing worktree path".to_owned());
            },
        };
        match utf8_text(path.as_slice()) {
            Some(text) => {
                let run = self.git(&["worktree", "remove", "--", text.as_str()]);
                assert(run@.args =~= seq!["worktree"@, "remove"@, "--"@, text@]);
                Ok(run)
            },
            None => Err("non-UTF-8 worktree path".to_owned()),
        }
    }

    /// Whether a worktree is gone, once its removal succeeded. `exists` is what the file
    /// system says.
    pub fn worktree_removed(exists: Result<bool, String>) -> (r: Result<(), String>)
        ensures
            r is Ok <==> exists == Ok::<bool, String>(false),
            r matches Err(message) ==> message@ == (match exists {
                Err(text) => text@,
                Ok(_) => "worktree removal not verified"@,
            }),
    {
        match exists {
            Err(message) => Err(message),
            Ok(exists) => if exists {
                Err("worktree removal not verified".to_owned())
            } else {
                Ok(())
            },
        }
    }
}

/// The first candidate, from `i` on, that is on a branch.
pub open spec fn first_on(candidates: Seq<CandidateView>, branch: Seq<char>, i: nat) -> Option<
    CandidateView,
>
    decreases candidates.len() - i,
{
    if i >= candidates.len() {
        None
    } else if candidates[i as int].branch == Some(branch) {
        Some(candidates[i as int])
    } else {
        first_on(candidates, branch, i + 1)
    }
}

/// A worktree has a branch checked out.
pub open spec fn checked_out(candidates: Seq<CandidateView>, branch: Seq<char>) -> bool {
    exists|i: int|
        0 <= i < candidates.len() && (#[trigger] candidates[i]).branch == Some(branch)
            && candidates[i].path is Some
}

/// Why a branch is not removed, if it is not: no worktree may have it checked out, and it
/// must stand at the commit that is expected.
pub open spec fn branch_refusal(
    candidates: Seq<CandidateView>,
    branch: Seq<char>,
    expected: Seq<char>,
) -> Option<Seq<char>> {
    if checked_out(candidates, branch) {
        Some("branch is checked out"@)
    } else {
        match first_on(candidates, branch, 0) {
            None => Some("branch no longer exists"@),
            Some(current) => if current.commit != expected || current.unavailable {
                Some("branch identity changed"@)
            } else {
                None
            },
        }
    }
}

impl Repository {
    /// The command that removes a branch, where it still stands at the expected commit. The
    /// command itself names that commit too.
    pub fn remove_branch(&self, branch: &str, expected: &str, current: &Vec<Candidate>) -> (r:
        Result<ProcessCommand, String>)
        ensures
            match branch_refusal(candidate_views(current@), branch@, expected@) {
                Some(message) => r matches Err(text) && text@ == message,
                None => r matches Ok(run) && run@ == (CommandView {
                    program: "git"@,
                    args: seq![
                        "update-ref"@,
                        "--no-deref"@,
                        "-d"@,
                        branch_ref(branch@),
                        expected@,
                    ],
                    cwd: self.root@,
                }) && run.noninteractive(),
            },
    {
        let ghost views = candidate_views(current@);
        let mut i: usize = 0;
        while i < current.len()
            invariant
                i <= current@.len(),
                views == candidate_views(current@),
                forall|j: int|
                    0 <= j < i ==> !((#[trigger] views[j]).branch == Some(branch@)
                        && views[j].path is Some),
            decreases current@.len() - i,
        {
            assert(views[i as int] == current@[i as int]@);
            if let Some(other) = &current[i].branch {
                if same(other.as_str(), branch) && current[i].path.is_some() {
                    assert(views[i as int].branch == Some(branch@));
                    return Err("branch is checked out".to_owned());
                }
            }
            i = i + 1;
        }
        assert(!checked_out(views, branch@));
        let mut k: usize = 0;
        while k < current.len()
            invariant
                k <= current@.len(),
                views == candidate_views(current@),
                !checked_out(views, branch@),
                first_on(views, branch@, 0) == first_on(views, branch@, k as nat),
            decreases current@.len() - k,
        {
            assert(views[k as int] == current@[k as int]@);
            if let Some(other) = &current[k].branch {
                if same(other.as_str(), branch) {
                    if !same(current[k].commit.as_str(), expected) || current[k].unavailable {
                        return Err("branch identity changed".to_owned());
                    }
                    let reference = branch_reference(branch);
                    let run = self.git(
                        &["update-ref", "--no-deref", "-d", reference.as_str(), expected],
                    );
                    assert(run@.args =~= seq![
                        "update-ref"@,
                        "--no-deref"@,
                        "-d"@,
                        reference@,
                        expected@,
                    ]);
                    return Ok(run);
                }
            }
            k = k + 1;
        }
        Err("branch no longer exists".to_owned())
    }

    /// The command that lists all local and remote branches with their commits, by which a
    /// change of the repository is told.
    pub fn references(&self) -> (r: ProcessCommand)
        ensures
            r@ == (CommandView {
                program: "git"@,
                args: seq![
                    "for-each-ref"@,
                    "--format=%(refname) %(objectname)"@,
                    "refs/heads/"@,
                    "refs/remotes/"@,
                ],
                cwd: self.root@,
            }),
            r.noninteractive(),
    {
        let run = self.git(
            &[
                "for-each-ref",
                "--format=%(refname) %(objectname)",
                "refs/heads/",
                "refs/remotes/",
            ],
        );
        assert(run@.args =~= seq![
            "for-each-ref"@,
            "--format=%(refname) %(objectname)"@,
            "refs/heads/"@,
            "refs/remotes/"@,
        ]);
        run
    }

    /// The command that prints the commit which a reference names.
    pub fn resolve(&self, reference: &str) -> (r: ProcessCommand)
        ensures
            r@ == (CommandView {
                program: "git"@,
                args: seq!["rev-parse"@, "--verify"@, reference@],
                cwd: self.root@,
            }),
            r.noninteractive(),
    {
        let run = self.git(&["rev-parse", "--verify", reference]);
        assert(run@.args =~= seq!["rev-parse"@, "--verify"@, reference@]);
        run
    }

    /// The command that lists a branch by its full name.
    pub fn branch_lookup(&self, branch: &str) -> (r: ProcessCommand)
        ensures
            r@ == (CommandView {
                program: "git"@,
                args: seq!["for-each-ref"@, "--format=%(refname)"@, branch_ref(branch@)],
                cwd: self.root@,
            }),
            r.noninteractive(),
    {
        let reference = branch_reference(branch);
        let run = self.git(&["for-each-ref", "--format=%(refname)", reference.as_str()]);
        assert(run@.args =~= seq!["for-each-ref"@, "--format=%(refname)"@, reference@]);
        run
    }

    /// Whether a branch is gone, once its removal succeeded: `listed` is what its lookup
    /// printed.
    pub fn branch_removed(branch: &str, listed: &str) -> (r: Result<(), String>)
        ensures
            r is Ok <==> !lines_of(listed@).contains(branch_ref(branch@)),
            r matches Err(message) ==> message@ == "branch removal not verified"@,
    {
        let reference = branch_reference(branch);
        let found = lines(listed);
        if crate::text::contains_text(&found, reference.as_str()) {
            Err("branch removal not verified".to_owned())
        } else {
            Ok(())
        }
    }
}

/// A branch that was removed stood at the expected commit and was not checked out; one that
/// moved, or that a worktree took, is kept.
pub proof fn removed_branch_stood_where_expected(
    candidates: Seq<CandidateView>,
    branch: Seq<char>,
    expected: Seq<char>,
    i: int,
)
    requires
        branch_refusal(candidates, branch, expected) is None,
        0 <= i < candidates.len(),
        candidates[i].branch == Some(branch),
    ensures
        candidates[i].path is None,
        first_on(candidates, branch, 0) matches Some(found) && found.commit == expected,
{
}

/// Every trace that Git leaves of an operation that is not finished is looked for.
pub proof fn unfinished_operations_are_looked_for()
    ensures
        unfinished_files().len() == 10,
        unfinished_files().contains("index.lock"@),
        unfinished_files().contains("config.worktree"@),
        unfinished_files().contains("HEAD.lock"@),
        unfinished_files().contains("MERGE_HEAD"@),
        unfinished_files().contains("CHERRY_PICK_HEAD"@),
        unfinished_files().contains("REVERT_HEAD"@),
        unfinished_files().contains("BISECT_START"@),
        unfinished_files().contains("rebase-apply"@),
        unfinished_files().contains("rebase-merge"@),
        unfinished_files().contains("sequencer"@),
{
    let names = unfinished_files();
    assert(names[0] == "index.lock"@ && names[1] == "config.worktree"@ && names[2]
        == "HEAD.lock"@ && names[3] == "MERGE_HEAD"@ && names[4] == "CHERRY_PICK_HEAD"@ && names[5]
        == "REVERT_HEAD"@ && names[6] == "BISECT_START"@ && names[7] == "rebase-apply"@ && names[8]
        == "rebase-merge"@ && names[9] == "sequencer"@);
}

proof fn lemma_unfinished(unfinished: Seq<Result<bool, String>>, i: nat)
    requires
        i <= unfinished_files().len(),
    ensures
        first_unfinished(unfinished, i) == Ok::<Option<Seq<char>>, Seq<char>>(None) <==> forall|
            k: int,
        |
            i <= k < unfinished_files().len() ==> #[trigger] unfinished[k] == Ok::<bool, String>(
                false,
            ),
        first_unfinished(unfinished, i) is Err <==> exists|k: int|
            #![trigger unfinished[k]]
            i <= k < unfinished_files().len() && unfinished[k] is Err && forall|j: int|
                i <= j < k ==> #[trigger] unfinished[j] == Ok::<bool, String>(false),
    decreases unfinished_files().len() - i,
{
    if i < unfinished_files().len() {
        match unfinished[i as int] {
            Err(message) => {
                assert(unfinished[i as int] is Err);
            },
            Ok(exists) => {
                if exists {
                    assert(unfinished[i as int] != Ok::<bool, String>(false));
                } else {
                    lemma_unfinished(unfinished, i + 1);
                    let here = first_unfinished(unfinished, i);
                    assert(here == first_unfinished(unfinished, i + 1));
                    if here is Err {
                        let k = choose|k: int|
                            #![trigger unfinished[k]]
                            i + 1 <= k < unfinished_files().len() && unfinished[k] is Err
                                && forall|j: int|
                                i + 1 <= j < k ==> #[trigger] unfinished[j] == Ok::<bool, String>(
                                    false,
                                );
                        assert forall|j: int| i <= j < k implies #[trigger] unfinished[j] == Ok::<
                            bool,
                            String,
                        >(false) by {
                            if j == i {
                            }
                        }
                        assert(unfinished[k] is Err);
                    }
                }
            },
        }
    }
}

/// A worktree is found free of work only where nothing in it would be lost: its status is
/// empty, no index entry hides a change, no operation is unfinished and it holds no
/// submodule. Where a report is missing, it is not found free.
pub proof fn only_clean_worktrees_hold_no_work(candidate: CandidateView, reports: LocalReports)
    requires
        candidate.path is Some,
    ensures
        local_work(candidate, reports) == Ok::<Option<Seq<char>>, Seq<char>>(None) <==> {
            &&& reports.status matches Ok(status) && status@.len() == 0
            &&& reports.flags matches Ok(flags) && forall|i: int|
                0 <= i < pieces(flags@, "\0"@, 0).len() ==> {
                    let entry = #[trigger] pieces(flags@, "\0"@, 0)[i];
                    entry.len() == 0 || (entry[0] != 'S' && !('a' <= entry[0] && entry[0] <= 'z'))
                }
            &&& candidate.git_dir is Some
            &&& forall|k: int|
                0 <= k < 10 ==> #[trigger] reports.unfinished@[k] == Ok::<bool, String>(false)
            &&& reports.submodules matches Ok(listed) && trimmed(listed@).len() == 0
        },
{
    lemma_unfinished(reports.unfinished@, 0);
}

/// What a worktree is kept for is told: its files, its index flags, its submodules.
pub proof fn local_work_is_told(candidate: CandidateView, reports: LocalReports)
    requires
        candidate.path is Some,
        reports.status is Ok,
    ensures
        reports.status->Ok_0@.len() > 0 ==> local_work(candidate, reports) == Ok::<
            Option<Seq<char>>,
            Seq<char>,
        >(Some("tracked, untracked, or ignored local files"@)),
        (reports.status->Ok_0@.len() == 0 && reports.flags is Ok && exists|i: int|
            0 <= i < pieces(reports.flags->Ok_0@, "\0"@, 0).len() && {
                let entry = #[trigger] pieces(reports.flags->Ok_0@, "\0"@, 0)[i];
                entry.len() > 0 && (entry[0] == 'S' || ('a' <= entry[0] && entry[0] <= 'z'))
            }) ==> local_work(candidate, reports) == Ok::<Option<Seq<char>>, Seq<char>>(
            Some("index flags can conceal tracked changes"@),
        ),
        local_work(candidate, reports) matches Ok(Some(reason)) ==> reason
            == "tracked, untracked, or ignored local files"@ || reason
            == "index flags can conceal tracked changes"@ || reason
            == "worktree contains submodules"@ || exists|k: int|
            0 <= k < unfinished_files().len() && #[trigger] reports.unfinished@[k] == Ok::<
                bool,
                String,
            >(true) && reason == "unfinished Git operation: "@ + unfinished_files()[k],
{
    lemma_told(reports.unfinished@, 0);
    if reports.flags is Ok {
        let entries = pieces(reports.flags->Ok_0@, "\0"@, 0);
        if exists|i: int|
            0 <= i < entries.len() && {
                let entry = #[trigger] entries[i];
                entry.len() > 0 && (entry[0] == 'S' || ('a' <= entry[0] && entry[0] <= 'z'))
            } {
            let i = choose|i: int|
                0 <= i < entries.len() && {
                    let entry = #[trigger] entries[i];
                    entry.len() > 0 && (entry[0] == 'S' || ('a' <= entry[0] && entry[0] <= 'z'))
                };
            assert(conceals(entries[i]));
        }
    }
}

proof fn lemma_told(unfinished: Seq<Result<bool, String>>, i: nat)
    requires
        i <= unfinished_files().len(),
    ensures
        first_unfinished(unfinished, i) matches Ok(Some(reason)) ==> exists|k: int|
            i <= k < unfinished_files().len() && #[trigger] unfinished[k] == Ok::<bool, String>(
                true,
            ) && reason == "unfinished Git operation: "@ + unfinished_files()[k],
    decreases unfinished_files().len() - i,
{
    if i < unfinished_files().len() {
        match unfinished[i as int] {
            Err(_) => {},
            Ok(exists) => {
                if !exists {
                    lemma_told(unfinished, i + 1);
                } else {
                    assert(unfinished[i as int] == Ok::<bool, String>(true));
                }
            },
        }
    }
}

/// A candidate without a worktree holds no local work.
pub proof fn branches_alone_hold_no_work(candidate: CandidateView, reports: LocalReports)
    requires
        candidate.path is None,
    ensures
        local_work(candidate, reports) == Ok::<Option<Seq<char>>, Seq<char>>(None),
{
}

/// A worktree is removed only as it was discovered, free of work, and by its path.
pub proof fn only_unchanged_clean_worktrees_are_removed(
    candidate: CandidateView,
    current: Seq<CandidateView>,
    reports: LocalReports,
)
    requires
        Repository::removal_refusal(candidate, current, reports) is None,
    ensures
        still_there(current, candidate),
        candidate.path matches Some(path) && valid_utf8(path),
        reports.status matches Ok(status) && status@.len() == 0,
        reports.flags is Ok,
        forall|k: int|
            0 <= k < 10 ==> #[trigger] reports.unfinished@[k] == Ok::<bool, String>(false),
        reports.submodules matches Ok(listed) && trimmed(listed@).len() == 0,
{
    lemma_unfinished(reports.unfinished@, 0);
}

proof fn lemma_first_on(candidates: Seq<CandidateView>, branch: Seq<char>, i: nat)
    requires
        i <= candidates.len(),
    ensures
        first_on(candidates, branch, i) is None <==> forall|k: int|
            i <= k < candidates.len() ==> (#[trigger] candidates[k]).branch != Some(branch),
        first_on(candidates, branch, i) matches Some(found) ==> exists|k: int|
            i <= k < candidates.len() && found == #[trigger] candidates[k] && found.branch == Some(
                branch,
            ),
    decreases candidates.len() - i,
{
    if i < candidates.len() && candidates[i as int].branch != Some(branch) {
        lemma_first_on(candidates, branch, i + 1);
    } else if i < candidates.len() {
        assert(candidates[i as int].branch == Some(branch));
    }
}

/// A branch is removed only where no worktree has it checked out, it still exists, is
/// available and stands at the commit that was judged; otherwise the first of these that does
/// not hold is told.
pub proof fn only_idle_branches_are_removed(
    candidates: Seq<CandidateView>,
    branch: Seq<char>,
    expected: Seq<char>,
)
    ensures
        (exists|i: int|
            0 <= i < candidates.len() && (#[trigger] candidates[i]).branch == Some(branch)
                && candidates[i].path is Some) ==> branch_refusal(candidates, branch, expected)
            == Some("branch is checked out"@),
        (forall|i: int|
            0 <= i < candidates.len() ==> (#[trigger] candidates[i]).branch != Some(branch))
            ==> branch_refusal(candidates, branch, expected) == Some("branch no longer exists"@),
        (exists|i: int|
            0 <= i < candidates.len() && (#[trigger] candidates[i]).branch == Some(branch)) && (
        forall|i: int|
            0 <= i < candidates.len() && (#[trigger] candidates[i]).branch == Some(branch)
                ==> candidates[i].path is None && candidates[i].commit == expected
                && !candidates[i].unavailable) ==> branch_refusal(candidates, branch, expected)
            is None,
        branch_refusal(candidates, branch, expected) is None ==> exists|i: int|
            0 <= i < candidates.len() && (#[trigger] candidates[i]).branch == Some(branch)
                && candidates[i].path is None && candidates[i].commit == expected
                && !candidates[i].unavailable,
        (forall|i: int|
            0 <= i < candidates.len() && (#[trigger] candidates[i]).branch == Some(branch)
                ==> candidates[i].commit != expected || candidates[i].unavailable)
            ==> branch_refusal(candidates, branch, expected) is Some,
{
    lemma_first_on(candidates, branch, 0);
}

/// A worktree is the same one only where its directory, its marker and what the marker holds
/// are the same: each of the three stands in the identity.
pub proof fn identities_hold_directory_marker_and_contents(a: Marker, b: Marker)
    requires
        a.directory_identity@.len() == b.directory_identity@.len(),
        a.marker_identity@.len() == b.marker_identity@.len(),
        a.identity() == b.identity(),
    ensures
        a.directory_identity@ == b.directory_identity@,
        a.marker_identity@ == b.marker_identity@,
        a.contents@ == b.contents@,
{
    reveal_strlit(":");
    let d = a.directory_identity@.len() as int;
    let m = a.marker_identity@.len() as int;
    assert(a.identity().take(d) =~= a.directory_identity@);
    assert(b.identity().take(d) =~= b.directory_identity@);
    assert(a.identity().subrange(d + 1, d + 1 + m) =~= a.marker_identity@);
    assert(b.identity().subrange(d + 1, d + 1 + m) =~= b.marker_identity@);
    assert(a.identity().skip(d + m + 2) =~= a.contents@);
    assert(b.identity().skip(d + m + 2) =~= b.contents@);
}

/// The checkout that comes first in a listing is named by what follows the word for it.
pub proof fn first_checkout_is_named(raw: Seq<char>, path: Seq<char>)
    ensures
        pieces(raw, "\0"@, 0)[0] == "worktree "@ + path ==> listed_first(raw) == Some(path),
        listed_first(raw) is Some ==> pieces(raw, "\0"@, 0)[0] == "worktree "@ + listed_first(
            raw,
        )->0,
{
    reveal_strlit("worktree ");
    let first = pieces(raw, "\0"@, 0)[0];
    assert(("worktree "@ + path).skip("worktree "@.len() as int) =~= path);
    if "worktree "@.is_prefix_of(first) {
        assert(first =~= "worktree "@ + first.skip("worktree "@.len() as int));
    }
}

} // verus!
