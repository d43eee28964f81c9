//! Durable session ownership of worktrees. Locks cover every enclosing directory, so that
//! a launch in a subdirectory of a worktree protects its root.
use vstd::prelude::*;
use vstd::utf8::*;

use crate::digest::{hex_of, hex_text, sha256, sha256_digest};
use crate::path::{
    beginning, canonical, components, join, joined, led, lies_within, names, names_path, pieces,
    spelled, within,
};
use crate::runtime_provider::copy_bytes;
use crate::text::paths;

verus! {

/// The name that stands for a path: its digest, in hexadecimal.
pub open spec fn path_key(path: Seq<u8>) -> Seq<char> {
    hex_of(sha256_digest(path))
}

/// The name that stands for a path.
pub fn key(path: &Vec<u8>) -> (r: String)
    ensures
        r@ == path_key(path@),
{
    let digest = sha256(path.as_slice());
    hex_text(digest.as_slice())
}

/// The lock of a path.
pub open spec fn lock_path(root: Seq<u8>, path: Seq<u8>) -> Seq<u8> {
    joined(joined(root, encode_utf8("leases"@)), encode_utf8(path_key(path)))
}

/// The lock of a path.
pub fn path_lock(root: &Vec<u8>, path: &Vec<u8>) -> (r: Vec<u8>)
    ensures
        r@ == lock_path(root@, path@),
{
    let leases = join(root, "leases".as_bytes());
    join(&leases, key(path).as_str().as_bytes())
}

/// The file that holds what a session owns.
pub open spec fn owner_path(root: Seq<u8>, session: Seq<u8>) -> Seq<u8> {
    joined(
        joined(root, encode_utf8("owners"@)),
        encode_utf8(path_key(session) + ".json"@),
    )
}

/// The file that holds what a session owns.
pub fn owner_file(root: &Vec<u8>, session: &Vec<u8>) -> (r: Vec<u8>)
    ensures
        r@ == owner_path(root@, session@),
{
    let owners = join(root, "owners".as_bytes());
    let name = key(session).concat(".json");
    join(&owners, name.as_str().as_bytes())
}

/// Where the last slash before `n` stands, or zero.
pub open spec fn last_slash(path: Seq<u8>, n: nat) -> nat
    decreases n,
{
    if n == 0 || path[n - 1] == 0x2f {
        if n == 0 {
            0
        } else {
            (n - 1) as nat
        }
    } else {
        last_slash(path, (n - 1) as nat)
    }
}

/// The directory that holds an absolute path, or none for the root.
pub open spec fn parent(path: Seq<u8>) -> Option<Seq<u8>> {
    if path.len() <= 1 {
        None
    } else {
        let at = last_slash(path, path.len());
        if at == 0 {
            Some(path.take(1))
        } else {
            Some(path.take(at as int))
        }
    }
}

proof fn lemma_last_slash(path: Seq<u8>, n: nat, i: int)
    requires
        n <= path.len(),
        0 <= i < n,
        path[i] == 0x2f,
    ensures
        i <= last_slash(path, n) < n,
        path[last_slash(path, n) as int] == 0x2f,
    decreases n,
{
    if path[n - 1] != 0x2f {
        lemma_last_slash(path, (n - 1) as nat, i);
    }
}

proof fn lemma_last_slash_bound(path: Seq<u8>, n: nat)
    ensures
        n > 0 ==> last_slash(path, n) < n,
    decreases n,
{
    assert(last_slash(path, 0) == 0);
    if n > 0 && path[n - 1] != 0x2f {
        lemma_last_slash_bound(path, (n - 1) as nat);
    }
}

/// A path and the directories that enclose it, from the inside out.
pub open spec fn enclosing(path: Seq<u8>) -> Seq<Seq<u8>>
    decreases path.len(),
{
    match parent(path) {
        Some(above) => if above.len() < path.len() {
            seq![path] + enclosing(above)
        } else {
            seq![path]
        },
        None => seq![path],
    }
}

/// A path and the directories that enclose it, from the inside out.
pub fn ancestors(path: &Vec<u8>) -> (r: Vec<Vec<u8>>)
    ensures
        paths(r@) == enclosing(path@),
{
    let mut found: Vec<Vec<u8>> = Vec::new();
    let mut current = copy_bytes(path);
    let mut more: bool = true;
    assert(paths(found@) =~= Seq::<Seq<u8>>::empty());
    assert(paths(found@) + enclosing(current@) =~= enclosing(path@));
    while more
        invariant
            more ==> enclosing(path@) == paths(found@) + enclosing(current@),
            !more ==> enclosing(path@) == paths(found@),
        decreases current@.len(), if more { 1int } else { 0int },
    {
        let ghost before = found@;
        let ghost inner = current@;
        found.push(copy_bytes(&current));
        assert(paths(found@) =~= paths(before).push(inner));
        proof {
            lemma_last_slash_bound(inner, inner.len());
        }
        if current.len() <= 1 {
            more = false;
            assert(enclosing(path@) =~= paths(found@));
        } else {
            let mut at: usize = current.len();
            while at > 0 && current[at - 1] != 0x2f
                invariant
                    at <= current@.len(),
                    current@ == inner,
                    last_slash(inner, inner.len()) == last_slash(inner, at as nat),
                decreases at,
            {
                at = at - 1;
            }
            let cut: usize = if at <= 1 {
                1
            } else {
                at - 1
            };
            let mut above: Vec<u8> = Vec::new();
            let mut i: usize = 0;
            while i < cut
                invariant
                    i <= cut <= current@.len(),
                    current@ == inner,
                    above@ == inner.take(i as int),
                decreases cut - i,
            {
                above.push(current[i]);
                i = i + 1;
                assert(above@ =~= inner.take(i as int));
            }
            assert(parent(inner) == Some(above@));
            if above.len() < current.len() {
                current = above;
                assert(paths(before) + (seq![inner] + enclosing(current@)) =~= paths(found@)
                    + enclosing(current@));
            } else {
                more = false;
                assert(enclosing(path@) =~= paths(found@));
            }
        }
    }
    found
}

/// One spelling continues another at a separator.
spec fn continues(path: Seq<u8>, root: Seq<u8>) -> bool {
    &&& root.len() <= path.len()
    &&& path.take(root.len() as int) == root
    &&& path.len() == root.len() || (root.len() > 0 && root.last() == 0x2f)
        || path[root.len() as int] == 0x2f
}

proof fn lemma_pieces(path: Seq<u8>, start: int, at: int)
    requires
        0 <= start <= at <= path.len(),
        forall|k: int| start <= k < at ==> path[k] != 0x2f,
    ensures
        forall|i: int|
            0 <= i < pieces(path, start, at).len() ==> (#[trigger] pieces(path, start, at)[i]).len()
                > 0 && pieces(path, start, at)[i].last() != 0x2f,
    decreases path.len() - at,
{
    let piece = path.subrange(start, at);
    assert(piece.len() > 0 ==> piece.last() == path[at - 1]);
    if at < path.len() {
        if path[at] == 0x2f {
            lemma_pieces(path, at + 1, at + 1);
            let head = led(piece);
            let tail = pieces(path, at + 1, at + 1);
            assert forall|i: int| 0 <= i < (head + tail).len() implies (#[trigger] (head
                + tail)[i]).len() > 0 && (head + tail)[i].last() != 0x2f by {
                if i >= head.len() {
                    assert((head + tail)[i] == tail[i - head.len()]);
                }
            }
            assert(pieces(path, start, at) == head + tail);
        } else {
            lemma_pieces(path, start, at + 1);
            assert(pieces(path, start, at) == pieces(path, start, at + 1));
        }
    } else {
        assert(pieces(path, start, at) == led(piece));
    }
}

/// Every component names something, and only the first may end in a separator.
proof fn lemma_components(path: Seq<u8>)
    ensures
        forall|i: int| 0 <= i < components(path).len() ==> (#[trigger] components(path)[i]).len()
            > 0,
        forall|i: int|
            0 < i < components(path).len() ==> (#[trigger] components(path)[i]).last() != 0x2f,
{
    lemma_pieces(path, 0, 0);
    let head = beginning(path);
    let tail = pieces(path, 0, 0);
    assert forall|i: int| 0 <= i < components(path).len() implies (#[trigger] components(
        path,
    )[i]).len() > 0 && (i > 0 ==> components(path)[i].last() != 0x2f) by {
        if i >= head.len() {
            assert(components(path)[i] == tail[i - head.len()]);
        }
    }
}

/// What components begin with, their spelling begins with.
proof fn lemma_spelled(outer: Seq<Seq<u8>>, inner: Seq<Seq<u8>>)
    requires
        outer.is_prefix_of(inner),
        outer.len() > 0,
        forall|i: int| 0 <= i < inner.len() ==> (#[trigger] inner[i]).len() > 0,
    ensures
        spelled(inner).len() > 0,
        continues(spelled(inner), spelled(outer)),
    decreases inner.len(),
{
    let front = inner.drop_last();
    if outer.len() == inner.len() {
        assert(outer =~= inner);
        assert(spelled(inner).take(spelled(inner).len() as int) =~= spelled(inner));
        assert(inner.last() == inner[inner.len() - 1]);
    } else {
        assert(outer =~= front.subrange(0, outer.len() as int));
        assert forall|i: int| 0 <= i < front.len() implies (#[trigger] front[i]).len() > 0 by {
            assert(front[i] == inner[i]);
        }
        lemma_spelled(outer, front);
        let before = spelled(front);
        let after = spelled(inner);
        assert(after.take(before.len() as int) =~= before);
        assert(after.take(spelled(outer).len() as int) =~= before.take(
            spelled(outer).len() as int,
        ));
        assert(forall|k: int| 0 <= k < before.len() ==> after[k] == before[k]);
    }
}

proof fn lemma_encloses(path: Seq<u8>, root: Seq<u8>)
    requires
        root.len() > 0,
        root[0] == 0x2f,
        root.len() == 1 || root.last() != 0x2f,
        continues(path, root),
    ensures
        enclosing(path).contains(root),
    decreases path.len(),
{
    if path == root {
        assert(enclosing(path)[0] == root);
    } else {
        assert(path.len() > root.len()) by {
            if path.len() == root.len() {
                assert(path.take(root.len() as int) =~= path);
            }
        }
        assert(path[0] == path.take(root.len() as int)[0]);
        let slash = if root.len() == 1 {
            0int
        } else {
            root.len() as int
        };
        lemma_last_slash(path, path.len(), slash);
        let above = parent(path)->0;
        assert(above.take(root.len() as int) =~= root);
        lemma_encloses(above, root);
        let i = choose|i: int| 0 <= i < enclosing(above).len() && enclosing(above)[i] == root;
        assert(enclosing(path)[i + 1] == root);
    }
}

/// A launch below a directory locks that directory too.
pub proof fn launch_locks_enclosing_directories(path: Seq<u8>, root: Seq<u8>)
    requires
        canonical(path),
        canonical(root),
        within(path, root),
    ensures
        enclosing(path).contains(root),
{
    let outer = components(root);
    let inner = components(path);
    lemma_components(path);
    lemma_components(root);
    assert(outer[0] == seq![0x2fu8]);
    lemma_spelled(outer, inner);
    if outer.len() == 1 {
        assert(outer.drop_last() =~= Seq::empty());
        assert(outer.last() == outer[0]);
        assert(spelled(outer.drop_last()) =~= Seq::<u8>::empty());
        assert(root =~= seq![0x2fu8]);
    } else {
        assert(outer.last() == outer[outer.len() - 1]);
        assert(root.last() == outer.last().last());
    }
    lemma_encloses(path, root);
}

/// What a session owns: the directories of its live and resumable terminals.
#[derive(Debug)]
pub struct Owner {
    pub session: Vec<u8>,
    pub paths: Vec<Vec<u8>>,
}

impl Owner {
    pub fn new() -> (r: Self)
        ensures
            r.session@.len() == 0,
            r.paths@.len() == 0,
    {
        Owner { session: Vec::new(), paths: Vec::new() }
    }

    /// Add a directory that a session launches in. It is persisted before the launch, so
    /// that a crash cannot make a resumable session's directory ownerless.
    pub fn claim(&mut self, session: &Vec<u8>, path: Vec<u8>)
        ensures
            final(self).session@ == session@,
            paths(final(self).paths@) == if names(paths(old(self).paths@), path@) {
                paths(old(self).paths@)
            } else {
                paths(old(self).paths@).push(path@)
            },
    {
        self.session = copy_bytes(session);
        if !names_path(&self.paths, &path) {
            let ghost added = path@;
            self.paths.push(path);
            assert(paths(self.paths@) =~= paths(old(self).paths@).push(added));
        }
    }

    /// Whether this session owns something in a directory.
    pub open spec fn owns(self, path: Seq<u8>) -> bool {
        exists|i: int| 0 <= i < self.paths@.len() && within((#[trigger] self.paths@[i])@, path)
    }

    fn owns_within(&self, path: &Vec<u8>) -> (r: bool)
        ensures
            r == self.owns(path@),
    {
        let mut i: usize = 0;
        while i < self.paths.len()
            invariant
                i <= self.paths@.len(),
                forall|j: int| 0 <= j < i ==> !within((#[trigger] self.paths@[j])@, path@),
            decreases self.paths@.len() - i,
        {
            if lies_within(&self.paths[i], path) {
                assert(within(self.paths@[i as int]@, path@));
                return true;
            }
            i = i + 1;
        }
        false
    }
}

/// What a runtime needs before it launches in a directory: shared locks on it and on all
/// that enclose it, and then the record of its session to add the directory to.
pub struct Admission {
    pub leases: Vec<Vec<u8>>,
    pub owners_lock: Vec<u8>,
    pub owner_file: Vec<u8>,
}

impl Admission {
    /// The admission of a session to a directory, given in canonical form.
    pub fn at(root: &Vec<u8>, session: &Vec<u8>, path: &Vec<u8>) -> (r: Self)
        ensures
            paths(r.leases@) == enclosing(path@).map_values(|p: Seq<u8>| lock_path(root@, p)),
            r.owners_lock@ == joined(root@, encode_utf8("owners.lock"@)),
            r.owner_file@ == owner_path(root@, session@),
    {
        let enclosing_paths = ancestors(path);
        let ghost around = enclosing(path@);
        let mut leases: Vec<Vec<u8>> = Vec::new();
        let mut i: usize = 0;
        while i < enclosing_paths.len()
            invariant
                i <= enclosing_paths@.len(),
                paths(enclosing_paths@) == around,
                leases@.len() == i,
                forall|j: int|
                    0 <= j < i ==> (#[trigger] leases@[j])@ == lock_path(root@, around[j]),
            decreases enclosing_paths@.len() - i,
        {
            assert(paths(enclosing_paths@)[i as int] == enclosing_paths@[i as int]@);
            leases.push(path_lock(root, &enclosing_paths[i]));
            i = i + 1;
        }
        assert(paths(enclosing_paths@).len() == enclosing_paths@.len());
        assert(paths(leases@) =~= around.map_values(|p: Seq<u8>| lock_path(root@, p)));
        Admission {
            leases,
            owners_lock: join(root, "owners.lock".as_bytes()),
            owner_file: owner_file(root, session),
        }
    }
}

/// The first `n` of some paths, each once, where it comes first.
pub open spec fn distinct(all: Seq<Seq<u8>>, n: nat) -> Seq<Seq<u8>>
    decreases n,
{
    if n == 0 {
        Seq::empty()
    } else {
        let before = distinct(all, (n - 1) as nat);
        if names(before, all[n - 1]) {
            before
        } else {
            before.push(all[n - 1])
        }
    }
}

/// `current`, with those of the first `n` earlier paths that a launch still holds.
pub open spec fn with_held(
    current: Seq<Seq<u8>>,
    earlier: Seq<Seq<u8>>,
    held: Seq<bool>,
    n: nat,
) -> Seq<Seq<u8>>
    decreases n,
{
    if n == 0 {
        current
    } else {
        let before = with_held(current, earlier, held, (n - 1) as nat);
        if !names(before, earlier[n - 1]) && held[n - 1] {
            before.push(earlier[n - 1])
        } else {
            before
        }
    }
}

/// What a session owns once it has published its live and resumable paths, in canonical
/// form. A published list can be older than a launch: an earlier path stays while a launch
/// holds its lock, as `held` says of each.
pub fn sync(session: &Vec<u8>, published: &Vec<Vec<u8>>, previous: &Owner, held: &Vec<bool>) -> (r:
    Owner)
    requires
        held@.len() == previous.paths@.len(),
    ensures
        r.session@ == session@,
        paths(r.paths@) == with_held(
            distinct(paths(published@), published@.len()),
            paths(previous.paths@),
            held@,
            previous.paths@.len(),
        ),
{
    let mut found: Vec<Vec<u8>> = Vec::new();
    let ghost all = paths(published@);
    let mut i: usize = 0;
    assert(paths(found@) =~= Seq::<Seq<u8>>::empty());
    while i < published.len()
        invariant
            i <= published@.len(),
            all == paths(published@),
            paths(found@) == distinct(all, i as nat),
        decreases published@.len() - i,
    {
        assert(all[i as int] == published@[i as int]@);
        if !names_path(&found, &published[i]) {
            let ghost before = found@;
            let copy = copy_bytes(&published[i]);
            let ghost added = copy@;
            found.push(copy);
            assert(paths(found@) =~= paths(before).push(added));
        }
        i = i + 1;
    }
    let ghost current = paths(found@);
    let ghost earlier = paths(previous.paths@);
    let mut k: usize = 0;
    while k < previous.paths.len()
        invariant
            k <= previous.paths@.len() == held@.len(),
            earlier == paths(previous.paths@),
            paths(found@) == with_held(current, earlier, held@, k as nat),
        decreases previous.paths@.len() - k,
    {
        assert(earlier[k as int] == previous.paths@[k as int]@);
        if !names_path(&found, &previous.paths[k]) && held[k] {
            let ghost before = found@;
            let copy = copy_bytes(&previous.paths[k]);
            let ghost added = copy@;
            found.push(copy);
            assert(paths(found@) =~= paths(before).push(added));
        }
        k = k + 1;
    }
    Owner { session: copy_bytes(session), paths: found }
}

/// A published list that is older than a launch cannot take the launch's claim away.
pub proof fn held_claims_survive_a_stale_list(
    current: Seq<Seq<u8>>,
    earlier: Seq<Seq<u8>>,
    held: Seq<bool>,
    n: nat,
    i: int,
)
    requires
        n <= earlier.len() == held.len(),
        0 <= i < n,
        held[i],
    ensures
        names(with_held(current, earlier, held, n), earlier[i]),
    decreases n,
{
    let before = with_held(current, earlier, held, (n - 1) as nat);
    if i < n - 1 {
        held_claims_survive_a_stale_list(current, earlier, held, (n - 1) as nat, i);
        let k = choose|k: int|
            0 <= k < before.len() && components(#[trigger] before[k]) == components(earlier[i]);
        assert(with_held(current, earlier, held, n)[k] == before[k]);
    } else if !names(before, earlier[i]) {
        assert(before.push(earlier[i])[before.len() as int] == earlier[i]);
    }
}

/// Some session owns something in a directory.
pub open spec fn owned(owners: Seq<Owner>, path: Seq<u8>) -> bool {
    exists|i: int| 0 <= i < owners.len() && (#[trigger] owners[i]).owns(path)
}

/// Why the sessions keep a directory, if they do.
pub fn reason(owners: &Vec<Owner>, path: &Vec<u8>) -> (r: Option<String>)
    ensures
        match r {
            Some(text) => owned(owners@, path@) && text@
                == "live or resumable session owns worktree"@,
            None => !owned(owners@, path@),
        },
{
    let mut i: usize = 0;
    while i < owners.len()
        invariant
            i <= owners@.len(),
            forall|j: int| 0 <= j < i ==> !(#[trigger] owners@[j]).owns(path@),
        decreases owners@.len() - i,
    {
        if owners[i].owns_within(path) {
            return Some("live or resumable session owns worktree".to_owned());
        }
        i = i + 1;
    }
    None
}

/// What a session has of a workspace: where it is, the checkout it was made for, and where its
/// panes are.
pub struct OwnedWorkspace {
    pub identity_cwd: Vec<u8>,
    pub checkout: Option<Vec<u8>>,
    pub panes: Vec<Vec<u8>>,
}

/// The paths of a workspace, which is resumable though nothing runs in it.
pub open spec fn workspace_paths(workspace: OwnedWorkspace) -> Seq<Seq<u8>> {
    let own = seq![workspace.identity_cwd@];
    let checkout = match workspace.checkout {
        Some(path) => seq![path@],
        None => Seq::empty(),
    };
    own + checkout + paths(workspace.panes@)
}

/// The paths of the first `n` workspaces.
pub open spec fn session_claims(workspaces: Seq<OwnedWorkspace>, n: nat) -> Seq<Seq<u8>>
    decreases n,
{
    if n == 0 {
        Seq::empty()
    } else {
        session_claims(workspaces, (n - 1) as nat) + workspace_paths(workspaces[n - 1])
    }
}

/// The paths that a session owns.
pub fn session_paths(workspaces: &Vec<OwnedWorkspace>) -> (r: Vec<Vec<u8>>)
    ensures
        paths(r@) == session_claims(workspaces@, workspaces@.len()),
{
    let mut claims: Vec<Vec<u8>> = Vec::new();
    let mut i: usize = 0;
    assert(paths(claims@) =~= session_claims(workspaces@, 0));
    while i < workspaces.len()
        invariant
            i <= workspaces@.len(),
            paths(claims@) == session_claims(workspaces@, i as nat),
        decreases workspaces@.len() - i,
    {
        let workspace = &workspaces[i];
        let ghost before = paths(claims@);
        claims.push(copy_bytes(&workspace.identity_cwd));
        if let Some(path) = &workspace.checkout {
            claims.push(copy_bytes(path));
        }
        let ghost head = paths(claims@);
        let mut j: usize = 0;
        assert(paths(claims@) =~= head + paths(workspace.panes@.take(0)));
        while j < workspace.panes.len()
            invariant
                j <= workspace.panes@.len(),
                paths(claims@) == head + paths(workspace.panes@.take(j as int)),
            decreases workspace.panes@.len() - j,
        {
            let ghost earlier = paths(claims@);
            claims.push(copy_bytes(&workspace.panes[j]));
            assert(paths(claims@) =~= earlier.push(workspace.panes@[j as int]@));
            assert(paths(workspace.panes@.take(j + 1)) =~= paths(
                workspace.panes@.take(j as int),
            ).push(workspace.panes@[j as int]@));
            j = j + 1;
            assert(paths(claims@) =~= head + paths(workspace.panes@.take(j as int)));
        }
        assert(workspace.panes@.take(j as int) =~= workspace.panes@);
        assert(head + paths(workspace.panes@) =~= before + workspace_paths(*workspace));
        i = i + 1;
    }
    claims
}

proof fn lemma_distinct(all: Seq<Seq<u8>>, n: nat)
    requires
        n <= all.len(),
    ensures
        forall|i: int| 0 <= i < n ==> names(distinct(all, n), #[trigger] all[i]),
        forall|k: int| 0 <= k < distinct(all, n).len() ==> all.contains(#[trigger] distinct(all, n)[k]),
        forall|j: int, k: int|
            0 <= j < k < distinct(all, n).len() ==> components(#[trigger] distinct(all, n)[j])
                != components(#[trigger] distinct(all, n)[k]),
    decreases n,
{
    if n > 0 {
        lemma_distinct(all, (n - 1) as nat);
        let before = distinct(all, (n - 1) as nat);
        let after = distinct(all, n);
        assert forall|i: int| 0 <= i < n implies names(after, #[trigger] all[i]) by {
            if i < n - 1 {
                assert(names(before, all[i]));
                let k = choose|k: int|
                    0 <= k < before.len() && components(#[trigger] before[k]) == components(all[i]);
                assert(after[k] == before[k]);
            } else if !names(before, all[n - 1]) {
                assert(after[before.len() as int] == all[n - 1]);
            }
        }
        assert forall|k: int| 0 <= k < after.len() implies all.contains(#[trigger] after[k]) by {
            if k < before.len() {
                assert(after[k] == before[k]);
            } else {
                assert(after[k] == all[n - 1]);
            }
        }
        assert forall|j: int, k: int| 0 <= j < k < after.len() implies components(
            #[trigger] after[j],
        ) != components(#[trigger] after[k]) by {
            assert(after[j] == before[j]);
            if k < before.len() {
                assert(after[k] == before[k]);
            }
        }
    }
}

/// A list of claims keeps every path once, and adds none.
pub proof fn claims_are_kept_once(all: Seq<Seq<u8>>, j: int, k: int)
    ensures
        0 <= j < all.len() ==> names(distinct(all, all.len()), all[j]),
        0 <= k < distinct(all, all.len()).len() ==> all.contains(distinct(all, all.len())[k]),
        0 <= j < k < distinct(all, all.len()).len() ==> components(distinct(all, all.len())[j])
            != components(distinct(all, all.len())[k]),
{
    lemma_distinct(all, all.len());
}

proof fn lemma_with_held(current: Seq<Seq<u8>>, earlier: Seq<Seq<u8>>, held: Seq<bool>, n: nat)
    requires
        n <= earlier.len() == held.len(),
    ensures
        current.is_prefix_of(with_held(current, earlier, held, n)),
        forall|k: int|
            current.len() <= k < with_held(current, earlier, held, n).len() ==> exists|i: int|
                0 <= i < n && held[i] && #[trigger] earlier[i] == #[trigger] with_held(
                    current,
                    earlier,
                    held,
                    n,
                )[k],
    decreases n,
{
    if n > 0 {
        lemma_with_held(current, earlier, held, (n - 1) as nat);
        let before = with_held(current, earlier, held, (n - 1) as nat);
        let after = with_held(current, earlier, held, n);
        assert forall|k: int| current.len() <= k < after.len() implies exists|i: int|
            0 <= i < n && held[i] && #[trigger] earlier[i] == #[trigger] after[k] by {
            if k < before.len() {
                assert(after[k] == before[k]);
            } else {
                assert(earlier[n - 1] == after[k]);
            }
        }
    }
}

/// A session keeps what it published, and of its earlier claims only those that are still
/// held are added.
pub proof fn claims_that_are_not_held_are_given_up(
    current: Seq<Seq<u8>>,
    earlier: Seq<Seq<u8>>,
    held: Seq<bool>,
    k: int,
)
    requires
        earlier.len() == held.len(),
    ensures
        current.is_prefix_of(with_held(current, earlier, held, earlier.len())),
        current.len() <= k < with_held(current, earlier, held, earlier.len()).len() ==> exists|
            i: int,
        |
            0 <= i < earlier.len() && held[i] && #[trigger] earlier[i] == with_held(
                current,
                earlier,
                held,
                earlier.len(),
            )[k],
        (forall|i: int| 0 <= i < held.len() ==> !#[trigger] held[i]) ==> with_held(
            current,
            earlier,
            held,
            earlier.len(),
        ) == current,
{
    lemma_with_held(current, earlier, held, earlier.len());
    if forall|i: int| 0 <= i < held.len() ==> !#[trigger] held[i] {
        let after = with_held(current, earlier, held, earlier.len());
        if after.len() > current.len() {
            let last = after[current.len() as int];
            let i = choose|i: int|
                0 <= i < earlier.len() && held[i] && #[trigger] earlier[i] == last;
            assert(held[i]);
        }
        assert(after =~= current);
    }
}

/// A directory is owned by a session that claims the directory or anything in it, and a claim
/// elsewhere owns nothing there.
pub proof fn claims_own_the_directories_around_them(owner: Owner, path: Seq<u8>, i: int)
    requires
        0 <= i < owner.paths@.len(),
    ensures
        owner.paths@[i]@ == path ==> owner.owns(path),
        components(path).is_prefix_of(components(owner.paths@[i]@)) ==> owner.owns(path),
        (forall|k: int|
            0 <= k < owner.paths@.len() ==> !components(path).is_prefix_of(
                components((#[trigger] owner.paths@[k])@),
            )) ==> !owner.owns(path),
{
    if components(path).is_prefix_of(components(owner.paths@[i]@)) {
        assert(within(owner.paths@[i]@, path));
    }
}

/// A directory that one session owns is owned, whatever the others claim; one that none owns
/// is not.
pub proof fn one_owner_is_enough(owners: Seq<Owner>, path: Seq<u8>, i: int)
    requires
        0 <= i < owners.len(),
    ensures
        owners[i].owns(path) ==> owned(owners, path),
        (forall|k: int| 0 <= k < owners.len() ==> !(#[trigger] owners[k]).owns(path)) ==> !owned(
            owners,
            path,
        ),
{
}

/// A session claims the directory of each of its workspaces, the checkout where there is one,
/// and the directory of each pane.
pub proof fn workspaces_claim_their_directories(
    workspaces: Seq<OwnedWorkspace>,
    n: nat,
    i: int,
    p: int,
)
    requires
        n <= workspaces.len(),
        0 <= i < n,
    ensures
        session_claims(workspaces, n).contains(workspaces[i].identity_cwd@),
        workspaces[i].checkout matches Some(path) ==> session_claims(workspaces, n).contains(path@),
        0 <= p < workspaces[i].panes@.len() ==> session_claims(workspaces, n).contains(
            workspaces[i].panes@[p]@,
        ),
    decreases n,
{
    let before = session_claims(workspaces, (n - 1) as nat);
    let own = workspace_paths(workspaces[n - 1]);
    let all = session_claims(workspaces, n);
    assert forall|path: Seq<u8>| before.contains(path) || own.contains(path) implies #[trigger] all.contains(
        path,
    ) by {
        if before.contains(path) {
            let k = choose|k: int| 0 <= k < before.len() && before[k] == path;
            assert(all[k] == path);
        } else {
            let k = choose|k: int| 0 <= k < own.len() && own[k] == path;
            assert(all[before.len() + k] == path);
        }
    }
    if i < n - 1 {
        workspaces_claim_their_directories(workspaces, (n - 1) as nat, i, p);
    } else {
        let workspace = workspaces[i];
        assert(own[0] == workspace.identity_cwd@);
        if workspace.checkout is Some {
            assert(own[1] == workspace.checkout->0@);
        }
        if 0 <= p < workspace.panes@.len() {
            let before_panes: int = if workspace.checkout is Some {
                2
            } else {
                1
            };
            assert(own[before_panes + p] == paths(workspace.panes@)[p]);
            assert(own.contains(workspace.panes@[p]@));
        }
    }
}

/// A directory is followed by those around it, one after the other, up to the root.
pub proof fn directories_are_enclosed_by_their_parents(above: Seq<u8>, name: Seq<u8>)
    requires
        above.len() > 1,
        !name.contains(0x2f),
    ensures
        enclosing(above.push(0x2f) + name)[0] == above.push(0x2f) + name,
        parent(above.push(0x2f) + name) == Some(above),
        enclosing(above.push(0x2f) + name) == seq![above.push(0x2f) + name] + enclosing(above),
        enclosing(seq![0x2fu8]) == seq![seq![0x2fu8]],
        parent(seq![0x2fu8] + name) == (if name.len() == 0 {
            None
        } else {
            Some(seq![0x2fu8])
        }),
{
    let path = above.push(0x2f) + name;
    lemma_slash_before(above.push(0x2f), name, path.len());
    assert(path.take(above.len() as int) =~= above);
    let top = seq![0x2fu8] + name;
    lemma_slash_before(seq![0x2fu8], name, top.len());
    assert(top.take(1) =~= seq![0x2fu8]);
}

proof fn lemma_slash_before(head: Seq<u8>, name: Seq<u8>, n: nat)
    requires
        head.len() > 0,
        head.last() == 0x2f,
        !name.contains(0x2f),
        head.len() <= n <= head.len() + name.len(),
    ensures
        last_slash(head + name, n) == head.len() - 1,
    decreases n,
{
    let path = head + name;
    if n > head.len() {
        assert(path[n - 1] == name[n - 1 - head.len()]);
        lemma_slash_before(head, name, (n - 1) as nat);
    } else {
        assert(path[n - 1] == head.last());
    }
}

/// The lock of a path and the claims of a session lie apart from each other, under the root.
pub proof fn locks_and_claims_lie_apart(root: Seq<u8>, path: Seq<u8>)
    requires
        root.len() > 0,
        root.last() != 0x2f,
    ensures
        root.is_prefix_of(lock_path(root, path)),
        root.is_prefix_of(owner_path(root, path)),
        lock_path(root, path) == root + seq![0x2fu8] + encode_utf8("leases"@) + seq![0x2fu8]
            + encode_utf8(path_key(path)) || encode_utf8("leases"@).last() == 0x2f || encode_utf8(
            "leases"@,
        ).len() == 0,
{
    let middle = joined(root, encode_utf8("leases"@));
    let owners = joined(root, encode_utf8("owners"@));
    assert(middle =~= root + seq![0x2fu8] + encode_utf8("leases"@));
    assert(owners =~= root + seq![0x2fu8] + encode_utf8("owners"@));
    assert(root.is_prefix_of(middle) && root.is_prefix_of(owners));
    if encode_utf8("leases"@).len() > 0 && encode_utf8("leases"@).last() != 0x2f {
        assert(middle.last() == encode_utf8("leases"@).last());
        assert(lock_path(root, path) =~= root + seq![0x2fu8] + encode_utf8("leases"@) + seq![0x2fu8]
            + encode_utf8(path_key(path)));
    }
}

} // verus!
