//! Install locations of the command-line tools per build target.

use pavex_session::pavex_path;
use pavex_session::pavexc_path;

#[test]
fn pavex_path_per_target() {
    assert_eq!(pavex_path("linux"), "/home/runner/.cargo/bin/pavex");
    assert_eq!(pavex_path("windows"), "C:\\Users\\runneradmin\\.cargo\\bin\\pavex.exe");
    assert_eq!(pavex_path("macos"), "/Users/runner/.cargo/bin/pavex");
    assert_eq!(pavex_path("anything-else"), "/Users/runner/.cargo/bin/pavex");
}

#[test]
fn pavexc_path_per_target() {
    assert_eq!(pavexc_path("linux"), "/home/runner/.cargo/bin/pavexc");
    assert_eq!(pavexc_path("windows"), "C:\\Users\\runneradmin\\.cargo\\bin\\pavexc.exe");
    assert_eq!(pavexc_path("macos"), "/Users/runner/.cargo/bin/pavexc");
}
