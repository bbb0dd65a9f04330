//! Files as the generators hand them out: a path and what is to be written there.

use vstd::prelude::*;

verus! {

/// A file to be written.
#[derive(Debug, PartialEq, Eq, Clone)]
pub struct GeneratedFile {
    pub path: String,
    pub content: String,
}

} // verus!
