//! The document: the configuration tree with its two required top-level
//! sections, and the template selection policy.

use vstd::prelude::*;
use vstd::string::*;

use crate::error::GenError;
use crate::node::{lookup_spec, Node};
use crate::resolve::{fail_index, path_segments, resolve_spec};
use crate::rng::IndexSource;
use crate::sample::{is_sample_of, sample, sample_at};

verus! {

/// The parsed configuration tree. A valid document is a mapping that
/// exposes the two top-level sections `templates` and `data`; the absence
/// of either is a fatal configuration error, caught on construction.
#[derive(Debug)]
pub struct Document {
    pub root: Node,
}

impl Document {
    /// Well-formedness: a mapping with both required sections present.
    pub open spec fn wf(self) -> bool {
        &&& self.root is Mapping
        &&& lookup_spec(self.root->Mapping_0@, "templates"@) is Some
        &&& lookup_spec(self.root->Mapping_0@, "data"@) is Some
    }

    /// The `templates` section of a well-formed document.
    pub open spec fn templates_section(self) -> Node
        recommends
            self.wf(),
    {
        lookup_spec(self.root->Mapping_0@, "templates"@)->Some_0
    }

    /// Validates the two required sections and wraps the tree. Exactly the
    /// trees that are a mapping with both a `templates` and a `data` key at
    /// top level are accepted; otherwise the error names the missing
    /// section, `templates` first.
    pub fn new(root: Node) -> (r: Result<Document, GenError>)
        ensures
            match r {
                Ok(d) => d.wf() && d.root == root,
                Err(e) => {
                    &&& !(Document { root }).wf()
                    &&& (e matches GenError::MissingSection { section } && section@ == (
                    if root is Mapping && lookup_spec(root->Mapping_0@, "templates"@) is Some {
                        "data"@
                    } else {
                        "templates"@
                    }))
                },
            },
    {
        if root.lookup("templates").is_none() {
            return Err(GenError::MissingSection { section: String::from_str("templates") });
        }
        if root.lookup("data").is_none() {
            return Err(GenError::MissingSection { section: String::from_str("data") });
        }
        Ok(Document { root })
    }

    /// The `templates` section, as a node of a well-formed document.
    pub fn templates(&self) -> (r: &Node)
        requires
            self.wf(),
        ensures
            *r == self.templates_section(),
    {
        match self.root.lookup("templates") {
            Some(t) => t,
            None => vstd::pervasive::unreached(),
        }
    }
}

/// The effective number of sentences for a request: a non-positive request
/// is coerced to one sentence. The caller is expected to warn about the
/// coercion; a request that is no integer at all never reaches this point.
pub fn effective_count(requested: usize) -> (c: usize)
    ensures
        requested == 0 ==> c == 1,
        requested > 0 ==> c == requested,
{
    if requested == 0 {
        1
    } else {
        requested
    }
}

/// Selects the template text to expand. An explicit name is resolved as a
/// path within the `templates` section and sampled, so a name that leads
/// directly to a template text yields it verbatim. With no name, one
/// template is sampled uniformly at random from the `templates` section.
pub fn select_template<R: IndexSource>(doc: &Document, name: Option<&str>, rng: &mut R) -> (r:
    Result<String, GenError>)
    requires
        doc.wf(),
    ensures
        match r {
            Ok(t) => match name {
                Some(n) => resolve_spec(doc.templates_section(), path_segments(n@)) matches Some(
                    node,
                ) && is_sample_of(node, t@),
                None => is_sample_of(doc.templates_section(), t@),
            },
            Err(e) => (name matches Some(n) && resolve_spec(
                doc.templates_section(),
                path_segments(n@),
            ) is None && (e matches GenError::PathNotFound { segment, path: p } && segment@
                == path_segments(n@)[fail_index(doc.templates_section(), path_segments(n@))] && p@
                == n@)),
        },
{
    let section = doc.templates();
    match name {
        Some(n) => sample_at(section, n, rng),
        None => Ok(sample(section, rng)),
    }
}

} // verus!
