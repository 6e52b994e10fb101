//! The verified core of a sandboxed, content-addressed build
//! orchestrator for Rust crates: it resolves a dependency graph into
//! individually schedulable compile jobs, reproduces the environment
//! and output protocol a build script is owed, and synthesizes the
//! exact compiler invocation, flags, search paths and
//! content-addressed artifact names included, that one compilation
//! unit needs.
//!
//! Everything here computes over plain values. Reading files, spawning
//! the compiler and the build scripts, and serializing records belong
//! to the thin front end built on top of this crate.

pub mod cfg;
pub mod compile;
pub mod errors;
pub mod hashing;
pub mod kvmap;
pub mod lockfile;
pub mod paths;
pub mod resolve;
pub mod runner;
pub mod script;
pub mod semver;
pub mod text;
pub mod vendor;

use vstd::prelude::*;

verus! {

/// Returns the string held in `v`, or the empty string when `v` is `None`.
pub fn s(v: &Option<String>) -> (r: &str)
    ensures
        r@ == (match v {
            Some(x) => x@,
            None => Seq::<char>::empty(),
        }),
{
    proof {
        reveal_strlit("");
    }
    match v {
        Some(x) => x.as_str(),
        None => "",
    }
}

/// Joins an optional path below `base`; nothing becomes the empty
/// path.
pub fn p(v: &Option<String>, base: &str) -> (r: String)
    ensures
        r@ == (match v {
            Some(x) => crate::paths::spec_path_join(base@, x@),
            None => Seq::<char>::empty(),
        }),
{
    match v {
        Some(x) => crate::paths::path_join(base, x.as_str()),
        None => String::new(),
    }
}

} // verus!
