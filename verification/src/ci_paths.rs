//! Install locations of the workspace's command-line tools on the build
//! runners, by target family. Unknown targets fall back to the macOS
//! runner layout.

use vstd::prelude::*;
use crate::state::str_eq;

verus! {

/// The path of the `pavex` executable on the runner for `target`.
pub fn pavex_path(target: &str) -> (r: String)
    ensures
        target@ == "linux"@ ==> r@ == "/home/runner/.cargo/bin/pavex"@,
        target@ == "windows"@ ==> r@ == "C:\\Users\\runneradmin\\.cargo\\bin\\pavex.exe"@,
        target@ != "linux"@ && target@ != "windows"@ ==> r@ == "/Users/runner/.cargo/bin/pavex"@,
{
    proof {
        reveal_strlit("linux");
        reveal_strlit("windows");
        assert("linux"@.len() == 5);
        assert("windows"@.len() == 7);
    }
    if str_eq(target, "linux") {
        "/home/runner/.cargo/bin/pavex".to_owned()
    } else if str_eq(target, "windows") {
        "C:\\Users\\runneradmin\\.cargo\\bin\\pavex.exe".to_owned()
    } else {
        "/Users/runner/.cargo/bin/pavex".to_owned()
    }
}

/// The path of the `pavexc` executable on the runner for `target`.
pub fn pavexc_path(target: &str) -> (r: String)
    ensures
        target@ == "linux"@ ==> r@ == "/home/runner/.cargo/bin/pavexc"@,
        target@ == "windows"@ ==> r@ == "C:\\Users\\runneradmin\\.cargo\\bin\\pavexc.exe"@,
        target@ != "linux"@ && target@ != "windows"@ ==> r@ == "/Users/runner/.cargo/bin/pavexc"@,
{
    proof {
        reveal_strlit("linux");
        reveal_strlit("windows");
        assert("linux"@.len() == 5);
        assert("windows"@.len() == 7);
    }
    if str_eq(target, "linux") {
        "/home/runner/.cargo/bin/pavexc".to_owned()
    } else if str_eq(target, "windows") {
        "C:\\Users\\runneradmin\\.cargo\\bin\\pavexc.exe".to_owned()
    } else {
        "/Users/runner/.cargo/bin/pavexc".to_owned()
    }
}

} // verus!
