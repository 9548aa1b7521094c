//! Verified core of a zip-archive structure viewer.
//!
//! The library walks the entries of a (possibly password-protected) archive,
//! validates every stored name against path-traversal escapes, accumulates the
//! validated paths in a prefix tree, negotiates credentials for encrypted
//! entries through an external actor, and maintains a small bounded history of
//! recently opened archives.

use vstd::prelude::*;

pub mod config;
pub mod credcache;
pub mod codec;
pub mod engine;
pub mod extract;
pub mod error;
pub mod gate;
pub mod pathguard;
pub mod prefixtree;
pub mod recency;

verus! {

/// The views of a sequence of strings.
pub open spec fn views_of(l: Seq<String>) -> Seq<Seq<char>> {
    l.map_values(|x: String| x@)
}

} // verus!
