//! The path resolver: navigation of the document tree by a dot-separated
//! path. Resolution is deterministic, has no side effects, and never
//! mutates the document.

use vstd::prelude::*;
use vstd::string::*;

use crate::error::GenError;
use crate::node::{lookup_spec, Node};
use crate::text::{split_by, split_on, trim, trim_spec, views_of};

verus! {

/// The segments of a path: the text is trimmed of surrounding whitespace,
/// then split on `.`.
pub open spec fn path_segments(path: Seq<char>) -> Seq<Seq<char>> {
    split_by(trim_spec(path), seq!['.'])
}

/// The node reached from `n` by looking each segment up in turn, when every
/// lookup succeeds.
pub open spec fn resolve_spec(n: Node, segs: Seq<Seq<char>>) -> Option<Node>
    decreases segs.len(),
{
    if segs.len() == 0 {
        Some(n)
    } else {
        match n {
            Node::Mapping(entries) => match lookup_spec(entries@, segs[0]) {
                Some(child) => resolve_spec(child, segs.skip(1)),
                None => None,
            },
            _ => None,
        }
    }
}

/// The position of the segment at which resolution fails: the count of
/// successful lookups before either a segment was absent or the node at
/// hand was not a mapping.
pub open spec fn fail_index(n: Node, segs: Seq<Seq<char>>) -> int
    decreases segs.len(),
{
    if segs.len() == 0 {
        0
    } else {
        match n {
            Node::Mapping(entries) => match lookup_spec(entries@, segs[0]) {
                Some(child) => 1 + fail_index(child, segs.skip(1)),
                None => 0,
            },
            _ => 0,
        }
    }
}

/// Resolves a dot-separated path against `root`: the path is trimmed of
/// surrounding whitespace, split on `.`, and each segment is looked up in
/// turn. The node reached need not be a scalar. On failure the error names
/// the first offending segment and the full path as given.
pub fn resolve<'a>(root: &'a Node, path: &str) -> (r: Result<&'a Node, GenError>)
    ensures
        match r {
            Ok(node) => resolve_spec(*root, path_segments(path@)) == Some(*node),
            Err(e) => {
                &&& resolve_spec(*root, path_segments(path@)) is None
                &&& (e matches GenError::PathNotFound { segment, path: p } && segment@
                    == path_segments(path@)[fail_index(*root, path_segments(path@))] && p@
                    == path@)
            },
        },
{
    let trimmed = trim(path);
    let mut seps: Vec<char> = Vec::new();
    seps.push('.');
    let segs = split_on(trimmed, &seps);
    let ghost gsegs = path_segments(path@);
    proof {
        assert(seps@ =~= seq!['.']);
        assert(views_of(segs@) == gsegs);
        assert(gsegs.skip(0) =~= gsegs);
    }
    let mut cur: &Node = root;
    let mut i: usize = 0;
    while i < segs.len()
        invariant
            gsegs == path_segments(path@),
            views_of(segs@) == gsegs,
            i <= segs@.len(),
            resolve_spec(*root, gsegs) == resolve_spec(*cur, gsegs.skip(i as int)),
            fail_index(*root, gsegs) == i + fail_index(*cur, gsegs.skip(i as int)),
        decreases segs@.len() - i,
    {
        proof {
            assert(gsegs.skip(i as int)[0] == gsegs[i as int]);
            assert(gsegs[i as int] == segs@[i as int]@);
            assert(gsegs.skip(i as int).skip(1) =~= gsegs.skip(i as int + 1));
        }
        let seg = &segs[i];
        match cur.lookup(seg.as_str()) {
            Some(child) => {
                cur = child;
            },
            None => {
                proof {
                    assert(resolve_spec(*cur, gsegs.skip(i as int)) is None);
                    assert(fail_index(*cur, gsegs.skip(i as int)) == 0);
                    assert(fail_index(*root, gsegs) == i);
                }
                let segment = seg.clone();
                let full = String::from_str(path);
                return Err(GenError::PathNotFound { segment, path: full });
            },
        }
        i = i + 1;
    }
    proof {
        assert(gsegs.skip(segs@.len() as int) =~= Seq::<Seq<char>>::empty());
    }
    Ok(cur)
}

/// Law: resolving a longer path is resolving a front part, then the rest
/// from the node the front part reached. In particular a dotted path agrees
/// with chained single-segment resolutions.
pub proof fn lemma_resolve_append(n: Node, front: Seq<Seq<char>>, back: Seq<Seq<char>>, mid: Node)
    requires
        resolve_spec(n, front) == Some(mid),
    ensures
        resolve_spec(n, front + back) == resolve_spec(mid, back),
    decreases front.len(),
{
    if front.len() == 0 {
        assert(front + back =~~= back);
    } else {
        match n {
            Node::Mapping(entries) => {
                match lookup_spec(entries@, front[0]) {
                    Some(child) => {
                        assert((front + back)[0] == front[0]);
                        assert((front + back).skip(1) =~~= front.skip(1) + back);
                        lemma_resolve_append(child, front.skip(1), back, mid);
                    },
                    None => {},
                }
            },
            _ => {},
        }
    }
}

} // verus!
