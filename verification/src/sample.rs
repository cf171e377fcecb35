//! The random sampler: a recursive descent from any node through its
//! collections, picking uniformly at random at each level, down to a scalar,
//! which is rendered in its canonical textual form. An empty collection
//! yields the empty text: a deliberate "no value available" signal, not an
//! error.

use vstd::prelude::*;
use vstd::string::*;

use crate::error::GenError;
use crate::node::{Entry, Node};
use crate::resolve::{fail_index, path_segments, resolve, resolve_spec};
use crate::rng::IndexSource;
use crate::text::{bool_to_str, dec_int, i64_to_string};

verus! {

/// The canonical textual form of a scalar node: integers as base-10 digits,
/// booleans as `true`/`false`, the other scalars as the text they carry.
pub open spec fn scalar_text(n: Node) -> Seq<char>
    recommends
        n.is_scalar(),
{
    match n {
        Node::Integer(i) => dec_int(i as int),
        Node::Float(s) => s@,
        Node::Boolean(b) => if b {
            "true"@
        } else {
            "false"@
        },
        Node::Timestamp(s) => s@,
        Node::Text(s) => s@,
        _ => Seq::empty(),
    }
}

/// What a random descent from `n` may yield: the canonical text of a scalar
/// reached by picking one element of each non-empty collection on the way
/// down, or the empty text at an empty collection.
pub open spec fn is_sample_of(n: Node, s: Seq<char>) -> bool
    decreases n,
{
    match n {
        Node::Sequence(elems) => {
            if elems@.len() == 0 {
                s == Seq::<char>::empty()
            } else {
                exists|i: int| 0 <= i < elems@.len() && is_sample_of(#[trigger] elems@[i], s)
            }
        },
        Node::Mapping(entries) => {
            if entries@.len() == 0 {
                s == Seq::<char>::empty()
            } else {
                exists|i: int|
                    0 <= i < entries@.len() && is_sample_of(#[trigger] entries@[i].value, s)
            }
        },
        _ => s == scalar_text(n),
    }
}

/// Draws one sample from `node`: descends through collections, choosing an
/// index uniformly at random at each level, until a scalar is reached, and
/// renders that scalar canonically.
pub fn sample<R: IndexSource>(node: &Node, rng: &mut R) -> (r: String)
    ensures
        is_sample_of(*node, r@),
    decreases *node,
{
    match node {
        Node::Integer(i) => i64_to_string(*i),
        Node::Float(s) => s.clone(),
        Node::Boolean(b) => String::from_str(bool_to_str(*b)),
        Node::Timestamp(s) => s.clone(),
        Node::Text(s) => s.clone(),
        Node::Sequence(elems) => {
            if elems.len() == 0 {
                String::new()
            } else {
                let idx = rng.next_below(elems.len());
                let r = sample(&elems[idx], rng);
                proof {
                    assert(0 <= idx < elems@.len() && is_sample_of(elems@[idx as int], r@));
                }
                r
            }
        },
        Node::Mapping(entries) => {
            if entries.len() == 0 {
                String::new()
            } else {
                let idx = rng.next_below(entries.len());
                let r = sample(&entries[idx].value, rng);
                proof {
                    assert(0 <= idx < entries@.len() && is_sample_of(
                        entries@[idx as int].value,
                        r@,
                    ));
                }
                r
            }
        },
    }
}

/// Resolves `path` against `root` and draws one sample below the node it
/// reaches: the entry point behind every placeholder, and behind template
/// selection.
pub fn sample_at<R: IndexSource>(root: &Node, path: &str, rng: &mut R) -> (r: Result<
    String,
    GenError,
>)
    ensures
        match r {
            Ok(s) => resolve_spec(*root, path_segments(path@)) matches Some(n) && is_sample_of(
                n,
                s@,
            ),
            Err(e) => {
                &&& resolve_spec(*root, path_segments(path@)) is None
                &&& (e matches GenError::PathNotFound { segment, path: p } && segment@
                    == path_segments(path@)[fail_index(*root, path_segments(path@))] && p@
                    == path@)
            },
        },
{
    match resolve(root, path) {
        Ok(node) => Ok(sample(node, rng)),
        Err(e) => Err(e),
    }
}

/// Law: whatever a sample of a non-empty sequence is, it is a sample of
/// exactly one of the sequence's elements.
pub proof fn lemma_sample_of_nonempty_sequence(elems: Vec<Node>, s: Seq<char>)
    requires
        elems@.len() > 0,
        is_sample_of(Node::Sequence(elems), s),
    ensures
        exists|i: int| 0 <= i < elems@.len() && is_sample_of(#[trigger] elems@[i], s),
{
}

/// Law: whatever a sample of a non-empty mapping is, it is a sample of the
/// value under exactly one of the mapping's keys.
pub proof fn lemma_sample_of_nonempty_mapping(entries: Vec<Entry>, s: Seq<char>)
    requires
        entries@.len() > 0,
        is_sample_of(Node::Mapping(entries), s),
    ensures
        exists|i: int| 0 <= i < entries@.len() && is_sample_of(#[trigger] entries@[i].value, s),
{
}

/// Law: an empty sequence or an empty mapping samples to the empty text,
/// whatever the random source did.
pub proof fn lemma_sample_of_empty(n: Node, s: Seq<char>)
    requires
        (n matches Node::Sequence(elems) && elems@.len() == 0) || (n matches Node::Mapping(entries)
            && entries@.len() == 0),
        is_sample_of(n, s),
    ensures
        s == Seq::<char>::empty(),
{
}

/// Law: a sample of a scalar is its canonical text.
pub proof fn lemma_sample_of_scalar(n: Node, s: Seq<char>)
    requires
        n.is_scalar(),
        is_sample_of(n, s),
    ensures
        s == scalar_text(n),
{
}

} // verus!
