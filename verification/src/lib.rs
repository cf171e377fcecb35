//! Random sentence generation over a structured document.
//!
//! A `Document` is a tree of scalars, sequences and mappings. A dotted path
//! selects a node in the tree; a random descent through the collections below
//! that node yields a scalar, rendered in its canonical textual form; and a
//! template with `<...>` placeholders is expanded by resolving and sampling
//! each placeholder path against the document.

use vstd::prelude::*;

pub mod doc;
pub mod error;
pub mod expand;
pub mod node;
pub mod resolve;
pub mod rng;
pub mod sample;
pub mod text;

verus! {

} // verus!
