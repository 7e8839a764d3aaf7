//! Where the server executable lives, relative to a base directory.
use vstd::prelude::*;
use vstd::string::StringExecFns;

use crate::text::{lemma_split_on_last, split_text};

verus! {

/// The executable's path under the base directory for a platform
/// identifier (`linux`, `windows`; anything else is taken for macOS).
pub open spec fn server_relative_path(platform: Seq<char>) -> Seq<char> {
    if platform == "linux"@ {
        "binaries/linux/adb"@
    } else if platform == "windows"@ {
        "binaries/win/adb.exe"@
    } else {
        "binaries/mac/adb"@
    }
}

/// `rel` under `base`, with one `/` between them.
pub open spec fn join_path(base: Seq<char>, rel: Seq<char>) -> Seq<char> {
    if base.len() == 0 || base.last() == '/' {
        base + rel
    } else {
        base + "/"@ + rel
    }
}

fn ends_with_slash(s: &str) -> (r: bool)
    ensures
        r == (s@.len() > 0 && s@.last() == '/'),
{
    if s.is_empty() {
        return false;
    }
    let pieces = split_text(s, '/');
    proof {
        lemma_split_on_last(s@, '/');
    }
    let last = pieces.len() - 1;
    pieces[last].as_str().is_empty()
}

/// The path of the server executable for `platform` under `base_dir`.
pub fn adb_path(platform: &str, base_dir: &str) -> (r: String)
    ensures
        r@ == join_path(base_dir@, server_relative_path(platform@)),
{
    let p = String::from_str(platform);
    let rel = if p == String::from_str("linux") {
        "binaries/linux/adb"
    } else if p == String::from_str("windows") {
        "binaries/win/adb.exe"
    } else {
        "binaries/mac/adb"
    };
    if base_dir.is_empty() || ends_with_slash(base_dir) {
        let mut s = String::from_str(base_dir);
        s.append(rel);
        s
    } else {
        let mut s = String::from_str(base_dir);
        s.append("/");
        s.append(rel);
        s
    }
}

} // verus!
