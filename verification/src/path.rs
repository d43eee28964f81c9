//! Paths, as the bytes that the operating system knows them by.
use vstd::prelude::*;

use crate::text::{paths, same_bytes};

verus! {

/// The path of `name` below `root`.
pub open spec fn joined(root: Seq<u8>, name: Seq<u8>) -> Seq<u8> {
    if root.len() > 0 && root.last() != 0x2f {
        root.push(0x2f) + name
    } else {
        root + name
    }
}

/// The path of `name` below `root`.
pub fn join(root: &Vec<u8>, name: &[u8]) -> (r: Vec<u8>)
    ensures
        r@ == joined(root@, name@),
{
    let mut path: Vec<u8> = Vec::new();
    let length: usize = root.len();
    let mut i: usize = 0;
    while i < length
        invariant
            i <= length == root@.len(),
            path@ == root@.take(i as int),
        decreases length - i,
    {
        path.push(root[i]);
        i = i + 1;
        assert(path@ =~= root@.take(i as int));
    }
    assert(path@ =~= root@);
    if length > 0 && root[length - 1] != 0x2f {
        path.push(0x2f);
    }
    let ghost start = path@;
    let mut k: usize = 0;
    while k < name.len()
        invariant
            k <= name@.len(),
            path@ == start + name@.take(k as int),
        decreases name@.len() - k,
    {
        path.push(name[k]);
        k = k + 1;
        assert(path@ =~= start + name@.take(k as int));
    }
    assert(name@.take(k as int) =~= name@);
    assert(path@ =~= joined(root@, name@));
    path
}

/// A piece of a path between separators, where it leads somewhere: an empty one and a single
/// dot do not.
pub open spec fn led(piece: Seq<u8>) -> Seq<Seq<u8>> {
    if piece.len() == 0 || piece == seq![0x2eu8] {
        Seq::empty()
    } else {
        seq![piece]
    }
}

/// The pieces of a path that lead somewhere, from the one that begins at `start` on. No
/// separator stands between `start` and `at`.
pub open spec fn pieces(path: Seq<u8>, start: int, at: int) -> Seq<Seq<u8>>
    decreases path.len() - at,
{
    if at >= path.len() {
        led(path.subrange(start, path.len() as int))
    } else if path[at] == 0x2f {
        led(path.subrange(start, at)) + pieces(path, at + 1, at + 1)
    } else {
        pieces(path, start, at + 1)
    }
}

/// What a path begins with, besides its pieces: the root, or the current directory where it
/// is named by a dot.
pub open spec fn beginning(path: Seq<u8>) -> Seq<Seq<u8>> {
    if path.len() > 0 && path[0] == 0x2f {
        seq![seq![0x2fu8]]
    } else if path.len() > 0 && path[0] == 0x2e && (path.len() == 1 || path[1] == 0x2f) {
        seq![seq![0x2eu8]]
    } else {
        Seq::empty()
    }
}

/// The components of a path: what it begins with, and its pieces between separators. Empty
/// pieces and single dots are no components, but for a dot at the beginning.
pub open spec fn components(path: Seq<u8>) -> Seq<Seq<u8>> {
    beginning(path) + pieces(path, 0, 0)
}

/// The components of each of some paths.
pub open spec fn all_components(values: Seq<Seq<u8>>) -> Seq<Seq<Seq<u8>>> {
    Seq::new(values.len(), |i: int| components(values[i]))
}

/// The components of an optional path.
pub open spec fn place(path: Option<Seq<u8>>) -> Option<Seq<Seq<u8>>> {
    match path {
        Some(path) => Some(components(path)),
        None => None,
    }
}

/// One of `values` names the same path.
pub open spec fn names(values: Seq<Seq<u8>>, path: Seq<u8>) -> bool {
    exists|i: int| 0 <= i < values.len() && components(#[trigger] values[i]) == components(path)
}

fn slice_copy(path: &Vec<u8>, start: usize, end: usize) -> (r: Vec<u8>)
    requires
        start <= end <= path@.len(),
    ensures
        r@ == path@.subrange(start as int, end as int),
{
    let mut out: Vec<u8> = Vec::new();
    let mut i: usize = start;
    while i < end
        invariant
            start <= i <= end <= path@.len(),
            out@ == path@.subrange(start as int, i as int),
        decreases end - i,
    {
        out.push(path[i]);
        i = i + 1;
        assert(out@ =~= path@.subrange(start as int, i as int));
    }
    out
}

fn push_led(found: &mut Vec<Vec<u8>>, piece: Vec<u8>)
    ensures
        paths(final(found)@) == paths(old(found)@) + led(piece@),
{
    let dot: bool = piece.len() == 1 && piece[0] == 0x2e;
    assert(dot <==> piece@ =~= seq![0x2eu8]);
    if piece.len() > 0 && !dot {
        let ghost added = piece@;
        found.push(piece);
        assert(paths(found@) =~= paths(old(found)@) + seq![added]);
    } else {
        assert(paths(found@) =~= paths(old(found)@) + Seq::<Seq<u8>>::empty());
    }
}

/// The components of a path.
pub fn split(path: &Vec<u8>) -> (r: Vec<Vec<u8>>)
    ensures
        paths(r@) == components(path@),
{
    let length: usize = path.len();
    let mut found: Vec<Vec<u8>> = Vec::new();
    if length > 0 && path[0] == 0x2f {
        found.push(vec![0x2fu8]);
        assert(paths(found@) =~~= seq![seq![0x2fu8]]);
    } else if length > 0 && path[0] == 0x2e && (length == 1 || path[1] == 0x2f) {
        found.push(vec![0x2eu8]);
        assert(paths(found@) =~~= seq![seq![0x2eu8]]);
    } else {
        assert(paths(found@) =~= Seq::<Seq<u8>>::empty());
    }
    let mut start: usize = 0;
    let mut at: usize = 0;
    while at < length
        invariant
            start <= at <= length == path@.len(),
            paths(found@) + pieces(path@, start as int, at as int) == components(path@),
        decreases length - at,
    {
        if path[at] == 0x2f {
            let ghost before = paths(found@);
            let piece = slice_copy(path, start, at);
            let ghost kept = led(piece@);
            push_led(&mut found, piece);
            assert(before + (kept + pieces(path@, at + 1, at + 1)) =~= paths(found@) + pieces(
                path@,
                at + 1,
                at + 1,
            ));
            start = at + 1;
        }
        at = at + 1;
    }
    let last = slice_copy(path, start, length);
    push_led(&mut found, last);
    found
}

/// Whether two paths have the same components.
pub fn same_path(a: &Vec<u8>, b: &Vec<u8>) -> (r: bool)
    ensures
        r == (components(a@) == components(b@)),
{
    let left = split(a);
    let right = split(b);
    if left.len() != right.len() {
        assert(paths(left@).len() != paths(right@).len());
        return false;
    }
    let mut i: usize = 0;
    while i < left.len()
        invariant
            i <= left@.len() == right@.len(),
            paths(left@) == components(a@),
            paths(right@) == components(b@),
            forall|j: int| 0 <= j < i ==> (#[trigger] left@[j])@ == right@[j]@,
        decreases left@.len() - i,
    {
        if !same_bytes(&left[i], &right[i]) {
            assert(paths(left@)[i as int] != paths(right@)[i as int]);
            return false;
        }
        i = i + 1;
    }
    assert(paths(left@) =~= paths(right@));
    true
}

/// Whether one of `values` names the same path.
pub fn names_path(values: &Vec<Vec<u8>>, path: &Vec<u8>) -> (r: bool)
    ensures
        r == names(paths(values@), path@),
{
    let ghost all = paths(values@);
    let mut i: usize = 0;
    while i < values.len()
        invariant
            i <= values@.len(),
            all == paths(values@),
            forall|j: int| 0 <= j < i ==> components(#[trigger] all[j]) != components(path@),
        decreases values@.len() - i,
    {
        assert(all[i as int] == values@[i as int]@);
        if same_path(&values[i], path) {
            return true;
        }
        i = i + 1;
    }
    false
}

/// Whether two lists name the same paths, one by one.
pub fn same_paths(a: &Vec<Vec<u8>>, b: &Vec<Vec<u8>>) -> (r: bool)
    ensures
        r == (all_components(paths(a@)) == all_components(paths(b@))),
{
    let ghost left = all_components(paths(a@));
    let ghost right = all_components(paths(b@));
    if a.len() != b.len() {
        assert(left.len() != right.len());
        return false;
    }
    let mut i: usize = 0;
    while i < a.len()
        invariant
            i <= a@.len() == b@.len(),
            left == all_components(paths(a@)),
            right == all_components(paths(b@)),
            forall|j: int| 0 <= j < i ==> #[trigger] left[j] == right[j],
        decreases a@.len() - i,
    {
        assert(left[i as int] == components(a@[i as int]@));
        assert(right[i as int] == components(b@[i as int]@));
        if !same_path(&a[i], &b[i]) {
            return false;
        }
        i = i + 1;
    }
    assert(left =~= right);
    true
}

/// Whether one path is another or lies below it: it begins with the other's components.
pub open spec fn within(path: Seq<u8>, root: Seq<u8>) -> bool {
    components(root).is_prefix_of(components(path))
}

/// Whether one path is another or lies below it.
pub fn lies_within(path: &Vec<u8>, root: &Vec<u8>) -> (r: bool)
    ensures
        r == within(path@, root@),
{
    let inner = split(path);
    let outer = split(root);
    if outer.len() > inner.len() {
        assert(paths(outer@).len() > paths(inner@).len());
        return false;
    }
    let mut i: usize = 0;
    while i < outer.len()
        invariant
            i <= outer@.len() <= inner@.len(),
            paths(inner@) == components(path@),
            paths(outer@) == components(root@),
            forall|j: int| 0 <= j < i ==> (#[trigger] outer@[j])@ == inner@[j]@,
        decreases outer@.len() - i,
    {
        if !same_bytes(&inner[i], &outer[i]) {
            assert(paths(outer@)[i as int] != paths(inner@).subrange(
                0,
                paths(outer@).len() as int,
            )[i as int]);
            return false;
        }
        i = i + 1;
    }
    assert(paths(outer@) =~= paths(inner@).subrange(0, paths(outer@).len() as int));
    true
}

/// The usual spelling of components.
pub open spec fn spelled(parts: Seq<Seq<u8>>) -> Seq<u8>
    decreases parts.len(),
{
    if parts.len() == 0 {
        Seq::empty()
    } else {
        joined(spelled(parts.drop_last()), parts.last())
    }
}

/// A canonical path: absolute, and in the usual spelling of its components.
pub open spec fn canonical(path: Seq<u8>) -> bool {
    path.len() > 0 && path[0] == 0x2f && path == spelled(components(path))
}

/// The rank of a component: the root, the current directory and the parent directory come
/// before all names.
pub open spec fn rank(part: Seq<u8>) -> int {
    if part == seq![0x2fu8] {
        0
    } else if part == seq![0x2eu8] {
        1
    } else if part == seq![0x2eu8, 0x2eu8] {
        2
    } else {
        3
    }
}

/// The order of byte strings.
pub open spec fn bytes_before(a: Seq<u8>, b: Seq<u8>) -> bool
    decreases a.len(),
{
    if b.len() == 0 {
        false
    } else if a.len() == 0 {
        true
    } else if a[0] != b[0] {
        a[0] < b[0]
    } else {
        bytes_before(a.skip(1), b.skip(1))
    }
}

/// The order of components.
pub open spec fn part_before(a: Seq<u8>, b: Seq<u8>) -> bool {
    if rank(a) == rank(b) {
        rank(a) == 3 && bytes_before(a, b)
    } else {
        rank(a) < rank(b)
    }
}

/// The order of paths: component by component.
pub open spec fn precedes(a: Seq<Seq<u8>>, b: Seq<Seq<u8>>) -> bool
    decreases a.len(),
{
    if b.len() == 0 {
        false
    } else if a.len() == 0 {
        true
    } else if a[0] != b[0] {
        part_before(a[0], b[0])
    } else {
        precedes(a.skip(1), b.skip(1))
    }
}

proof fn lemma_bytes_transitive(a: Seq<u8>, b: Seq<u8>, c: Seq<u8>)
    requires
        bytes_before(a, b),
        bytes_before(b, c),
    ensures
        bytes_before(a, c),
    decreases a.len(),
{
    if a.len() > 0 && a[0] == b[0] && b[0] == c[0] {
        lemma_bytes_transitive(a.skip(1), b.skip(1), c.skip(1));
    }
}

proof fn lemma_bytes_total(a: Seq<u8>, b: Seq<u8>)
    ensures
        a == b || bytes_before(a, b) || bytes_before(b, a),
        !(bytes_before(a, b) && bytes_before(b, a)),
        bytes_before(a, b) ==> a != b,
    decreases a.len(),
{
    if a.len() == 0 || b.len() == 0 {
        if a.len() == 0 && b.len() == 0 {
            assert(a =~= b);
        }
    } else if a[0] == b[0] {
        lemma_bytes_total(a.skip(1), b.skip(1));
        if a.skip(1) == b.skip(1) {
            assert(a =~= seq![a[0]] + a.skip(1));
            assert(b =~= seq![b[0]] + b.skip(1));
        }
    }
}

proof fn lemma_part_transitive(a: Seq<u8>, b: Seq<u8>, c: Seq<u8>)
    requires
        part_before(a, b),
        part_before(b, c),
    ensures
        part_before(a, c),
        a != c,
{
    if rank(a) == 3 && rank(b) == 3 && rank(c) == 3 {
        lemma_bytes_transitive(a, b, c);
        lemma_bytes_total(a, c);
    }
}

proof fn lemma_part_total(a: Seq<u8>, b: Seq<u8>)
    ensures
        a == b || part_before(a, b) || part_before(b, a),
{
    lemma_bytes_total(a, b);
}

/// The order of paths is transitive.
pub proof fn lemma_precedes_transitive(a: Seq<Seq<u8>>, b: Seq<Seq<u8>>, c: Seq<Seq<u8>>)
    requires
        precedes(a, b),
        precedes(b, c),
    ensures
        precedes(a, c),
    decreases a.len(),
{
    if a.len() > 0 {
        if a[0] == b[0] && b[0] == c[0] {
            lemma_precedes_transitive(a.skip(1), b.skip(1), c.skip(1));
        } else if a[0] != b[0] && b[0] != c[0] {
            lemma_part_transitive(a[0], b[0], c[0]);
        }
    }
}

/// Two paths are the same, or one comes before the other.
pub proof fn lemma_precedes_total(a: Seq<Seq<u8>>, b: Seq<Seq<u8>>)
    ensures
        a == b || precedes(a, b) || precedes(b, a),
    decreases a.len(),
{
    if a.len() == 0 || b.len() == 0 {
        if a.len() == 0 && b.len() == 0 {
            assert(a =~= b);
        }
    } else if a[0] == b[0] {
        lemma_precedes_total(a.skip(1), b.skip(1));
        if a.skip(1) == b.skip(1) {
            assert(a =~= seq![a[0]] + a.skip(1));
            assert(b =~= seq![b[0]] + b.skip(1));
        }
    } else {
        lemma_part_total(a[0], b[0]);
    }
}

/// No path comes before itself.
pub proof fn lemma_precedes_irreflexive(a: Seq<Seq<u8>>)
    ensures
        !precedes(a, a),
    decreases a.len(),
{
    if a.len() > 0 {
        lemma_precedes_irreflexive(a.skip(1));
    }
}

fn rank_of(part: &Vec<u8>) -> (r: u8)
    ensures
        r == rank(part@),
{
    let n: usize = part.len();
    assert(part@ == seq![0x2fu8] <==> part@ =~= seq![0x2fu8]);
    assert(part@ == seq![0x2eu8] <==> part@ =~= seq![0x2eu8]);
    assert(part@ == seq![0x2eu8, 0x2eu8] <==> part@ =~= seq![0x2eu8, 0x2eu8]);
    if n == 1 && part[0] == 0x2f {
        0
    } else if n == 1 && part[0] == 0x2e {
        1
    } else if n == 2 && part[0] == 0x2e && part[1] == 0x2e {
        2
    } else {
        3
    }
}

fn bytes_come_before(a: &Vec<u8>, b: &Vec<u8>) -> (r: bool)
    ensures
        r == bytes_before(a@, b@),
{
    let mut i: usize = 0;
    assert(a@.skip(0) =~= a@);
    assert(b@.skip(0) =~= b@);
    while i < a.len() && i < b.len()
        invariant
            i <= a@.len(),
            i <= b@.len(),
            bytes_before(a@, b@) == bytes_before(a@.skip(i as int), b@.skip(i as int)),
        decreases a@.len() - i,
    {
        if a[i] != b[i] {
            return a[i] < b[i];
        }
        assert(a@.skip(i as int).skip(1) =~= a@.skip(i + 1));
        assert(b@.skip(i as int).skip(1) =~= b@.skip(i + 1));
        i = i + 1;
    }
    i < b.len()
}

/// Whether one path comes before another.
pub fn comes_before(a: &Vec<u8>, b: &Vec<u8>) -> (r: bool)
    ensures
        r == precedes(components(a@), components(b@)),
{
    let left = split(a);
    let right = split(b);
    let ghost x = components(a@);
    let ghost y = components(b@);
    let mut i: usize = 0;
    assert(x.skip(0) =~= x);
    assert(y.skip(0) =~= y);
    while i < left.len() && i < right.len()
        invariant
            i <= left@.len(),
            i <= right@.len(),
            x == components(a@),
            y == components(b@),
            paths(left@) == x,
            paths(right@) == y,
            precedes(x, y) == precedes(x.skip(i as int), y.skip(i as int)),
        decreases left@.len() - i,
    {
        assert(x[i as int] == left@[i as int]@);
        assert(y[i as int] == right@[i as int]@);
        if !same_bytes(&left[i], &right[i]) {
            let p: u8 = rank_of(&left[i]);
            let q: u8 = rank_of(&right[i]);
            if p == q {
                return p == 3 && bytes_come_before(&left[i], &right[i]);
            }
            return p < q;
        }
        assert(x.skip(i as int).skip(1) =~= x.skip(i + 1));
        assert(y.skip(i as int).skip(1) =~= y.skip(i + 1));
        i = i + 1;
    }
    assert(x.len() == left@.len() && y.len() == right@.len());
    i < right.len()
}

proof fn lemma_trailing_separator(path: Seq<u8>, start: int, at: int)
    requires
        0 <= start <= at <= path.len(),
    ensures
        pieces(path.push(0x2f), start, at) == pieces(path, start, at),
    decreases path.len() - at,
{
    let longer = path.push(0x2f);
    let n = path.len() as int;
    if at == n {
        assert(longer.subrange(start, n) =~= path.subrange(start, n));
        assert(longer.subrange(n + 1, n + 1).len() == 0);
        assert(pieces(longer, n + 1, n + 1) =~= Seq::<Seq<u8>>::empty());
        assert(pieces(longer, start, at) =~= pieces(path, start, at));
    } else if path[at] == 0x2f {
        assert(longer.subrange(start, at) =~= path.subrange(start, at));
        lemma_trailing_separator(path, at + 1, at + 1);
    } else {
        lemma_trailing_separator(path, start, at + 1);
    }
}

/// A separator behind a path changes nothing: both spellings name the same path.
pub proof fn trailing_separator_names_the_same_path(path: Seq<u8>)
    requires
        path.len() > 0,
    ensures
        components(path.push(0x2f)) == components(path),
{
    lemma_trailing_separator(path, 0, 0);
}

proof fn lemma_plain_pieces(path: Seq<u8>, start: int, at: int)
    requires
        0 <= start <= at <= path.len(),
        forall|k: int| start <= k < at ==> path[k] != 0x2f,
    ensures
        forall|i: int|
            0 <= i < pieces(path, start, at).len() ==> {
                let part = #[trigger] pieces(path, start, at)[i];
                part.len() > 0 && part != seq![0x2eu8] && !part.contains(0x2f)
            },
    decreases path.len() - at,
{
    let parts = pieces(path, start, at);
    if at < path.len() && path[at] != 0x2f {
        lemma_plain_pieces(path, start, at + 1);
        assert(parts == pieces(path, start, at + 1));
    } else {
        let piece = path.subrange(start, at);
        assert(!piece.contains(0x2f)) by {
            if piece.contains(0x2f) {
                let k = choose|k: int| 0 <= k < piece.len() && piece[k] == 0x2f;
                assert(path[start + k] == 0x2f);
            }
        }
        if at < path.len() {
            let rest = pieces(path, at + 1, at + 1);
            lemma_plain_pieces(path, at + 1, at + 1);
            assert(parts == led(piece) + rest);
            assert forall|i: int| 0 <= i < parts.len() implies {
                let part = #[trigger] parts[i];
                part.len() > 0 && part != seq![0x2eu8] && !part.contains(0x2f)
            } by {
                if i >= led(piece).len() {
                    assert(parts[i] == rest[i - led(piece).len()]);
                }
            }
        } else {
            assert(parts == led(piece));
        }
    }
}

/// A path is read as names between its separators: a leading separator stands for the root,
/// and past the first place no name is empty, holds a separator or is a single dot.
pub proof fn components_are_names(path: Seq<u8>, i: int)
    requires
        0 <= i < components(path).len(),
    ensures
        components(path)[i].len() > 0,
        path[0] == 0x2f ==> components(path)[0] == seq![0x2fu8],
        i > 0 ==> components(path)[i] != seq![0x2eu8],
        i > 0 || path[0] != 0x2f ==> !components(path)[i].contains(0x2f),
{
    lemma_plain_pieces(path, 0, 0);
    let head = beginning(path);
    if i >= head.len() {
        assert(components(path)[i] == pieces(path, 0, 0)[i - head.len()]);
    } else {
        assert(seq![0x2eu8][0] == 0x2e);
    }
    if path.len() == 0 {
        assert(components(path) =~= Seq::empty());
    }
}

proof fn lemma_name(path: Seq<u8>, name: Seq<u8>, at: int)
    requires
        name.len() > 0,
        name != seq![0x2eu8],
        !name.contains(0x2f),
        path.len() < at <= path.len() + 1 + name.len(),
    ensures
        pieces(path.push(0x2f) + name, path.len() as int + 1, at) == seq![name],
    decreases path.len() + 1 + name.len() - at,
{
    let whole = path.push(0x2f) + name;
    let start = path.len() as int + 1;
    if at < whole.len() {
        assert(whole[at] == name[at - start]);
        lemma_name(path, name, at + 1);
    } else {
        assert(whole.subrange(start, whole.len() as int) =~= name);
    }
}

proof fn lemma_entry(path: Seq<u8>, name: Seq<u8>, start: int, at: int)
    requires
        name.len() > 0,
        name != seq![0x2eu8],
        !name.contains(0x2f),
        0 <= start <= at <= path.len(),
    ensures
        pieces(path.push(0x2f) + name, start, at) == pieces(path, start, at).push(name),
    decreases path.len() - at,
{
    let whole = path.push(0x2f) + name;
    if at == path.len() {
        assert(whole.subrange(start, at) =~= path.subrange(start, at));
        lemma_name(path, name, at + 1);
        assert(pieces(whole, start, at) =~= pieces(path, start, at).push(name));
    } else {
        assert(whole[at] == path[at]);
        if path[at] == 0x2f {
            assert(whole.subrange(start, at) =~= path.subrange(start, at));
            lemma_entry(path, name, at + 1, at + 1);
            assert(pieces(whole, start, at) =~= pieces(path, start, at).push(name));
        } else {
            lemma_entry(path, name, start, at + 1);
        }
    }
}

/// The path of an entry is the path of its directory with the entry's name after it.
pub proof fn entries_follow_their_directory(root: Seq<u8>, name: Seq<u8>)
    requires
        root.len() > 0,
        name.len() > 0,
        name != seq![0x2eu8],
        !name.contains(0x2f),
    ensures
        components(joined(root, name)) == components(root).push(name),
{
    if root.last() == 0x2f {
        let above = root.drop_last();
        assert(above.push(0x2f) =~= root);
        lemma_entry(above, name, 0, 0);
        lemma_trailing_separator(above, 0, 0);
        assert(joined(root, name) == above.push(0x2f) + name);
    } else {
        lemma_entry(root, name, 0, 0);
    }
    let whole = joined(root, name);
    assert(whole[0] == root[0]);
    assert(root.len() > 1 ==> whole[1] == root[1]);
    assert(root.len() == 1 && root[0] != 0x2f ==> whole[1] == 0x2f);
    assert(components(whole) =~= components(root).push(name));
}

/// A directory holds itself and its own entries, and of two entries of a directory neither
/// holds the other.
pub proof fn directories_hold_their_entries(root: Seq<u8>, name: Seq<u8>, other: Seq<u8>)
    requires
        root.len() > 0,
        name.len() > 0,
        name != seq![0x2eu8],
        !name.contains(0x2f),
        other.len() > 0,
        other != seq![0x2eu8],
        !other.contains(0x2f),
    ensures
        within(root, root),
        within(joined(root, name), root),
        !within(root, joined(root, name)),
        within(joined(root, name), joined(root, other)) <==> name == other,
{
    entries_follow_their_directory(root, name);
    entries_follow_their_directory(root, other);
    let n = components(root).len() as int;
    assert(components(joined(root, name))[n] == name);
    assert(components(joined(root, other))[n] == other);
    if name == other {
        assert(within(joined(root, name), joined(root, other)));
    } else if within(joined(root, name), joined(root, other)) {
        assert(components(joined(root, other)).is_prefix_of(components(joined(root, name))));
    }
}

/// What lies in a directory lies in every directory that holds that one.
pub proof fn inner_directories_are_held_too(path: Seq<u8>, inner: Seq<u8>, outer: Seq<u8>)
    requires
        within(path, inner),
        within(inner, outer),
    ensures
        within(path, outer),
{
}

/// Paths are ordered name by name: the root comes first, then a leading dot, then what leads
/// upwards, then the other names by their bytes; and a directory comes before its entries.
pub proof fn paths_are_ordered_by_their_names(
    common: Seq<Seq<u8>>,
    a: Seq<u8>,
    b: Seq<u8>,
    left: Seq<Seq<u8>>,
    right: Seq<Seq<u8>>,
)
    ensures
        precedes(common, common.push(a)),
        a == seq![0x2fu8] && b == seq![0x2eu8] ==> precedes(
            common.push(a) + left,
            common.push(b) + right,
        ),
        a == seq![0x2eu8] && b == seq![0x2eu8, 0x2eu8] ==> precedes(
            common.push(a) + left,
            common.push(b) + right,
        ),
        a == seq![0x2eu8, 0x2eu8] && b.len() > 0 && b[0] != 0x2e && b[0] != 0x2f ==> precedes(
            common.push(a) + left,
            common.push(b) + right,
        ),
        a.len() > 0 && b.len() > 0 && a[0] != 0x2e && a[0] != 0x2f && b[0] != 0x2e && b[0] != 0x2f
            && a[0] < b[0] ==> precedes(common.push(a) + left, common.push(b) + right),
    decreases common.len(),
{
    let x = common.push(a) + left;
    let y = common.push(b) + right;
    if common.len() > 0 {
        let rest = common.skip(1);
        paths_are_ordered_by_their_names(rest, a, b, left, right);
        assert(x.skip(1) =~= rest.push(a) + left);
        assert(y.skip(1) =~= rest.push(b) + right);
        assert(common.push(a).skip(1) =~= rest.push(a));
    } else {
        assert(x[0] == a && y[0] == b);
        assert(seq![0x2fu8][0] == 0x2f && seq![0x2eu8][0] == 0x2e && seq![0x2eu8, 0x2eu8][0]
            == 0x2e);
        assert(seq![0x2eu8].len() == 1 && seq![0x2eu8, 0x2eu8].len() == 2);
    }
}

/// Of two names of which one begins the other, the shorter comes first; otherwise the first
/// byte in which they differ decides.
pub proof fn names_are_ordered_by_their_bytes(
    common: Seq<u8>,
    a: u8,
    b: u8,
    left: Seq<u8>,
    right: Seq<u8>,
)
    ensures
        bytes_before(common, common.push(a)),
        !bytes_before(common.push(a), common),
        !bytes_before(common, common),
        a < b ==> bytes_before(common.push(a) + left, common.push(b) + right),
        a > b ==> !bytes_before(common.push(a) + left, common.push(b) + right),
    decreases common.len(),
{
    let x = common.push(a) + left;
    let y = common.push(b) + right;
    if common.len() > 0 {
        let rest = common.skip(1);
        names_are_ordered_by_their_bytes(rest, a, b, left, right);
        assert(x.skip(1) =~= rest.push(a) + left);
        assert(y.skip(1) =~= rest.push(b) + right);
        assert(common.push(a).skip(1) =~= rest.push(a));
    } else {
        assert(x[0] == a && y[0] == b);
    }
}

} // verus!
