//! Markup analysis for a static site generator: canonical heading ids, a
//! heading transform over a parsed event stream, an index of the semantic
//! elements of a document by byte offset with the translation to an editor's
//! rows and columns, and the records handed to templates.

use vstd::prelude::*;

pub mod git;
pub mod ident;
pub mod info;
pub mod lookup;
pub mod transform;

verus! {

} // verus!
