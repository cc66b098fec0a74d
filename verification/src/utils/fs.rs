//! Decisions about paths: which files are scanned, and where the manifest
//! is looked for. Paths are texts with `/` between their components.

pub use crate::analyzer::rust_analyzer::is_rust_source;
use crate::analyzer::rust_analyzer::{excluded, rust_source};
use crate::text::{contains, join_path, joined_path, names_file, path_names_file, texts};
use vstd::prelude::*;

verus! {

/// Whether a path is left out of the analysis: it lies in a build-output or
/// version-control directory.
pub fn is_excluded(path: &str) -> (r: bool)
    ensures
        r == excluded(path@),
{
    contains(path, "/target/") || contains(path, "/.git/")
}

/// The paths among the first `n` of `paths` that are scanned: the Rust
/// source files that are not excluded, in their order.
pub open spec fn scanned(paths: Seq<Seq<char>>, n: nat) -> Seq<Seq<char>>
    decreases n,
{
    if n == 0 || n > paths.len() {
        Seq::empty()
    } else if !excluded(paths[n - 1]) && rust_source(paths[n - 1]) {
        scanned(paths, (n - 1) as nat).push(paths[n - 1])
    } else {
        scanned(paths, (n - 1) as nat)
    }
}

/// Picks the Rust source files that are to be scanned from the paths found
/// under a directory.
pub fn find_rust_files(paths: &Vec<String>) -> (rust_files: Vec<String>)
    ensures
        texts(rust_files@) == scanned(texts(paths@), paths@.len()),
{
    let mut rust_files: Vec<String> = Vec::new();
    let mut i: usize = 0;
    assert(texts(rust_files@) =~= Seq::<Seq<char>>::empty());
    while i < paths.len()
        invariant
            i <= paths.len(),
            texts(rust_files@) == scanned(texts(paths@), i as nat),
        decreases paths.len() - i,
    {
        let path = paths[i].as_str();
        if !is_excluded(path) && is_rust_source(path) {
            let ghost before = texts(rust_files@);
            rust_files.push(paths[i].clone());
            assert(texts(rust_files@) =~= before.push(paths@[i as int]@));
        }
        i += 1;
    }
    rust_files
}

/// The position at or after `from` of the first path whose file name is
/// `name`.
pub open spec fn first_named(paths: Seq<Seq<char>>, name: Seq<char>, from: int) -> Option<int>
    decreases paths.len() + 1 - from,
{
    if from < 0 || from >= paths.len() {
        None
    } else if names_file(paths[from], name) {
        Some(from)
    } else {
        first_named(paths, name, from + 1)
    }
}

/// The first of the paths found under a directory whose last component is
/// `filename`.
pub fn find_file(paths: &Vec<String>, filename: &str) -> (r: Option<String>)
    ensures
        match r {
            Some(path) => first_named(texts(paths@), filename@, 0) matches Some(at) && path@
                == paths@[at]@,
            None => first_named(texts(paths@), filename@, 0) is None,
        },
{
    let mut i: usize = 0;
    while i < paths.len()
        invariant
            i <= paths.len(),
            first_named(texts(paths@), filename@, 0) == first_named(
                texts(paths@),
                filename@,
                i as int,
            ),
        decreases paths.len() - i,
    {
        if path_names_file(paths[i].as_str(), filename) {
            return Some(paths[i].clone());
        }
        i += 1;
    }
    None
}

/// The manifest of the project in `dir`, given whether a file exists at the
/// place where it is looked for: `Cargo.toml` in `dir`.
pub fn find_manifest_file(dir: &str, exists: bool) -> (r: Option<String>)
    ensures
        match r {
            Some(path) => exists && path@ == joined_path(dir@, "Cargo.toml"@),
            None => !exists,
        },
{
    if exists {
        Some(join_path(dir, "Cargo.toml"))
    } else {
        None
    }
}

} // verus!
