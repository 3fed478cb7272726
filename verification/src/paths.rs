//! Paths as their parts, and the order of paths.

use crate::order;
use vstd::prelude::*;

verus! {

/// A part of a path. A prefix is what stands before the root on platforms that have it: its
/// sort, and up to two names.
#[derive(Debug, PartialEq)]
pub enum PathPart {
    Prefix { sort: u8, first: Vec<u8>, second: Vec<u8> },
    Root,
    Current,
    Parent,
    Name(Vec<u8>),
}

pub enum PathPartView {
    Prefix(u8, Seq<u8>, Seq<u8>),
    Root,
    Current,
    Parent,
    Name(Seq<u8>),
}

impl View for PathPart {
    type V = PathPartView;

    open spec fn view(&self) -> PathPartView {
        match self {
            PathPart::Prefix { sort, first, second } => PathPartView::Prefix(
                *sort,
                first@,
                second@,
            ),
            PathPart::Root => PathPartView::Root,
            PathPart::Current => PathPartView::Current,
            PathPart::Parent => PathPartView::Parent,
            PathPart::Name(name) => PathPartView::Name(name@),
        }
    }
}

/// A path by the views of its parts.
pub open spec fn path_view(path: Seq<PathPart>) -> Seq<PathPartView> {
    path.map_values(|p: PathPart| p@)
}

/// The order of bytes.
pub open spec fn byte_order() -> spec_fn(u8, u8) -> bool {
    |x: u8, y: u8| x < y
}

/// The order of names, by their bytes.
pub open spec fn bytes_before(a: Seq<u8>, b: Seq<u8>) -> bool {
    order::lex_before(a, b, byte_order())
}

/// The place of a sort of parts among the sorts.
pub open spec fn rank(part: PathPartView) -> int {
    match part {
        PathPartView::Prefix(_, _, _) => 0,
        PathPartView::Root => 1,
        PathPartView::Current => 2,
        PathPartView::Parent => 3,
        PathPartView::Name(_) => 4,
    }
}

/// The order of parts: prefixes, the root, the current directory, the parent directory,
/// names; prefixes by their sort and then their names, names by their bytes.
pub open spec fn part_before(a: PathPartView, b: PathPartView) -> bool {
    match (a, b) {
        (PathPartView::Prefix(s, x, y), PathPartView::Prefix(t, v, w)) => s < t || (s == t && (
        bytes_before(x, v) || (x == v && bytes_before(y, w)))),
        (PathPartView::Name(x), PathPartView::Name(y)) => bytes_before(x, y),
        _ => rank(a) < rank(b),
    }
}

/// The order of parts.
pub open spec fn part_order() -> spec_fn(PathPartView, PathPartView) -> bool {
    |x: PathPartView, y: PathPartView| part_before(x, y)
}

/// The order of paths, part by part.
pub open spec fn path_before(a: Seq<PathPartView>, b: Seq<PathPartView>) -> bool {
    order::lex_before(a, b, part_order())
}

proof fn lemma_bytes_total(a: Seq<u8>, b: Seq<u8>)
    ensures
        bytes_before(a, b) || bytes_before(b, a) || a == b,
        !(bytes_before(a, b) && bytes_before(b, a)),
        a == b ==> !bytes_before(a, b),
{
    order::lemma_lex_total(a, b, byte_order());
}

proof fn lemma_bytes_trans(a: Seq<u8>, b: Seq<u8>, c: Seq<u8>)
    ensures
        bytes_before(a, b) && bytes_before(b, c) ==> bytes_before(a, c),
{
    if bytes_before(a, b) && bytes_before(b, c) {
        order::lemma_lex_trans(a, b, c, byte_order());
    }
}

proof fn lemma_part_total(a: PathPartView, b: PathPartView)
    ensures
        part_before(a, b) || part_before(b, a) || a == b,
        part_before(a, b) ==> !part_before(b, a) && a != b,
{
    match (a, b) {
        (PathPartView::Prefix(_, x, y), PathPartView::Prefix(_, v, w)) => {
            lemma_bytes_total(x, v);
            lemma_bytes_total(y, w);
        },
        (PathPartView::Name(x), PathPartView::Name(y)) => {
            lemma_bytes_total(x, y);
        },
        _ => {},
    }
}

proof fn lemma_part_trans(a: PathPartView, b: PathPartView, c: PathPartView)
    requires
        part_before(a, b),
        part_before(b, c),
    ensures
        part_before(a, c),
{
    match (a, b, c) {
        (
            PathPartView::Prefix(_, x, y),
            PathPartView::Prefix(_, v, w),
            PathPartView::Prefix(_, t, u),
        ) => {
            lemma_bytes_trans(x, v, t);
            lemma_bytes_trans(y, w, u);
        },
        (PathPartView::Name(x), PathPartView::Name(y), PathPartView::Name(z)) => {
            lemma_bytes_trans(x, y, z);
        },
        _ => {},
    }
}

proof fn lemma_part_order()
    ensures
        order::strict_order(part_order()),
{
    let lt = part_order();
    assert forall|x: PathPartView, y: PathPartView| #[trigger] lt(x, y) implies !lt(y, x) && x
        != y by {
        lemma_part_total(x, y);
    }
    assert forall|x: PathPartView, y: PathPartView| #[trigger] lt(x, y) || lt(y, x) || x == y by {
        lemma_part_total(x, y);
    }
    assert forall|x: PathPartView, y: PathPartView, z: PathPartView| #[trigger]
        lt(x, y) && #[trigger] lt(y, z) implies lt(x, z) by {
        lemma_part_trans(x, y, z);
    }
}

/// Of two different paths exactly one comes before the other, and no path before itself.
pub proof fn lemma_path_total(a: Seq<PathPartView>, b: Seq<PathPartView>)
    ensures
        path_before(a, b) || path_before(b, a) || a == b,
        !(path_before(a, b) && path_before(b, a)),
        a == b ==> !path_before(a, b),
{
    lemma_part_order();
    order::lemma_lex_total(a, b, part_order());
}

/// The order of paths is transitive.
pub proof fn lemma_path_trans(
    a: Seq<PathPartView>,
    b: Seq<PathPartView>,
    c: Seq<PathPartView>,
)
    requires
        path_before(a, b),
        path_before(b, c),
    ensures
        path_before(a, c),
{
    lemma_part_order();
    order::lemma_lex_trans(a, b, c, part_order());
}

/// Whether one name comes before another.
fn name_comes_before(a: &Vec<u8>, b: &Vec<u8>) -> (r: bool)
    ensures
        r == bytes_before(a@, b@),
{
    let mut i: usize = 0;
    proof {
        assert(a@.skip(0) =~= a@);
        assert(b@.skip(0) =~= b@);
    }
    while i < a.len() && i < b.len()
        invariant
            i <= a@.len(),
            i <= b@.len(),
            bytes_before(a@, b@) == bytes_before(a@.skip(i as int), b@.skip(i as int)),
        decreases a@.len() - i,
    {
        proof {
            assert(a@.skip(i as int).drop_first() =~= a@.skip(i + 1));
            assert(b@.skip(i as int).drop_first() =~= b@.skip(i + 1));
        }
        if a[i] != b[i] {
            return a[i] < b[i];
        }
        i = i + 1;
    }
    i < b.len()
}

/// Whether one part comes before another.
fn part_comes_before(a: &PathPart, b: &PathPart) -> (r: bool)
    ensures
        r == part_before(a@, b@),
{
    match (a, b) {
        (
            PathPart::Prefix { sort: s, first: x, second: y },
            PathPart::Prefix { sort: t, first: v, second: w },
        ) => {
            if *s != *t {
                return *s < *t;
            }
            proof {
                lemma_bytes_total(x@, v@);
            }
            if name_comes_before(x, v) {
                true
            } else if name_comes_before(v, x) {
                false
            } else {
                name_comes_before(y, w)
            }
        },
        (PathPart::Name(x), PathPart::Name(y)) => name_comes_before(x, y),
        _ => part_rank(a) < part_rank(b),
    }
}

fn part_rank(part: &PathPart) -> (r: u8)
    ensures
        r == rank(part@),
{
    match part {
        PathPart::Prefix { .. } => 0,
        PathPart::Root => 1,
        PathPart::Current => 2,
        PathPart::Parent => 3,
        PathPart::Name(_) => 4,
    }
}

/// Whether one path comes before another, part by part.
pub fn path_comes_before(a: &Vec<PathPart>, b: &Vec<PathPart>) -> (r: bool)
    ensures
        r == path_before(path_view(a@), path_view(b@)),
{
    let ghost left = path_view(a@);
    let ghost right = path_view(b@);
    let mut i: usize = 0;
    proof {
        assert(left.skip(0) =~= left);
        assert(right.skip(0) =~= right);
    }
    while i < a.len() && i < b.len()
        invariant
            i <= a@.len(),
            i <= b@.len(),
            left == path_view(a@),
            right == path_view(b@),
            path_before(left, right) == path_before(left.skip(i as int), right.skip(i as int)),
        decreases a@.len() - i,
    {
        proof {
            assert(left.skip(i as int)[0] == a@[i as int]@);
            assert(right.skip(i as int)[0] == b@[i as int]@);
            assert(left.skip(i as int).drop_first() =~= left.skip(i + 1));
            assert(right.skip(i as int).drop_first() =~= right.skip(i + 1));
            lemma_part_total(a@[i as int]@, b@[i as int]@);
        }
        if part_comes_before(&a[i], &b[i]) {
            return true;
        }
        if part_comes_before(&b[i], &a[i]) {
            return false;
        }
        i = i + 1;
    }
    i < b.len()
}

} // verus!
