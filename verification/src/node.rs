//! The document tree: nodes, entries, and keyed lookup.

use vstd::prelude::*;

use crate::text::str_eq;

verus! {

/// One key/value pair of a mapping node. Iteration order of a mapping is the
/// order of its entries.
#[derive(Debug)]
pub struct Entry {
    pub key: String,
    pub value: Node,
}

/// One node of a document tree.
///
/// Scalars render to their canonical textual form. Floating-point and
/// timestamp scalars carry that canonical rendering directly, since the
/// sampler reads nothing else of them.
#[derive(Debug)]
pub enum Node {
    Integer(i64),
    Float(String),
    Boolean(bool),
    Timestamp(String),
    Text(String),
    Sequence(Vec<Node>),
    Mapping(Vec<Entry>),
}

impl Node {
    /// A scalar is any node that is not a sequence and not a mapping.
    pub open spec fn is_scalar(self) -> bool {
        !(self is Sequence) && !(self is Mapping)
    }

    /// Keyed lookup: the value of the first entry named `key`, when this
    /// node is a mapping that has one. On any other node there is nothing
    /// to look up.
    pub fn lookup<'a>(&'a self, key: &str) -> (r: Option<&'a Node>)
        ensures
            match r {
                Some(child) => *self is Mapping && lookup_spec(self->Mapping_0@, key@) == Some(
                    *child,
                ),
                None => !(*self is Mapping) || lookup_spec(self->Mapping_0@, key@) is None,
            },
    {
        match self {
            Node::Mapping(es) => {
                let mut j: usize = 0;
                proof {
                    assert(es@.skip(0) =~= es@);
                }
                while j < es.len()
                    invariant
                        *self == Node::Mapping(*es),
                        j <= es@.len(),
                        lookup_spec(es@, key@) == lookup_spec(es@.skip(j as int), key@),
                    decreases es@.len() - j,
                {
                    proof {
                        assert(es@.skip(j as int)[0] == es@[j as int]);
                        assert(es@.skip(j as int).skip(1) =~= es@.skip(j as int + 1));
                    }
                    if str_eq(es[j].key.as_str(), key) {
                        proof {
                            assert(lookup_spec(es@.skip(j as int), key@) == Some(
                                es@[j as int].value,
                            ));
                        }
                        return Some(&es[j].value);
                    }
                    j = j + 1;
                }
                None
            },
            _ => None,
        }
    }
}

/// The value bound to the first entry with key `k`, if any.
pub open spec fn lookup_spec(es: Seq<Entry>, k: Seq<char>) -> Option<Node>
    decreases es.len(),
{
    if es.len() == 0 {
        None
    } else if es[0].key@ == k {
        Some(es[0].value)
    } else {
        lookup_spec(es.skip(1), k)
    }
}

} // verus!
