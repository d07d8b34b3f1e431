//! Repository-layout helpers: where the key material lives under the
//! repository's private control directory.

use vstd::prelude::*;
use vstd::string::StringExecFns;

verus! {

/// The path of the key material file: a fixed location under the
/// repository's private control directory.
pub fn get_key_path(git_root: &str) -> (r: String)
    ensures
        r@ == git_root@ + "/.git/cryptx/keys/global_ase_key"@,
{
    let root: String = git_root.to_owned();
    root.concat("/.git/cryptx/keys/global_ase_key")
}

} // verus!
