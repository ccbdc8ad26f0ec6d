//! The operating system this crate was compiled for.
use crate::target_os::{text_is, TargetOs};
use vstd::prelude::*;

verus! {

/// The name of the compilation target's operating system, as
/// `target_lexicon::OperatingSystem::host()` gives it in its `Display` form
/// (`linux`, `darwin`, `windows`, ...).
///
/// Nothing is claimed of the result: it is fixed when the crate is built and
/// differs from one target to another.
#[verifier::external_body]
fn host_os_text() -> String {
    target_lexicon::OperatingSystem::host().to_string()
}

/// The name of the compilation target's environment, as
/// `target_lexicon::Environment::host()` gives it in its `Display` form
/// (`gnu`, `musl`, `android`, `msvc`, ...).
///
/// Nothing is claimed of the result, for the same reason as `host_os_text`.
#[verifier::external_body]
fn host_env_text() -> String {
    target_lexicon::Environment::host().to_string()
}

/// The `TargetOs` of a compilation target, given the names of the target's
/// operating system and environment: Linux (but not Android, which Rust
/// treats as an OS of its own), macOS (`darwin` or `macosx`), Windows, and
/// `Unknown` for every other system.
pub open spec fn os_for_target(os: Seq<char>, env: Seq<char>) -> TargetOs {
    if os == seq!['l', 'i', 'n', 'u', 'x'] && env != seq!['a', 'n', 'd', 'r', 'o', 'i', 'd']
        && env != seq!['a', 'n', 'd', 'r', 'o', 'i', 'd', 'e', 'a', 'b', 'i'] {
        TargetOs::Linux
    } else if os == seq!['d', 'a', 'r', 'w', 'i', 'n'] || os == seq!['m', 'a', 'c', 'o', 's', 'x'] {
        TargetOs::Macos
    } else if os == seq!['w', 'i', 'n', 'd', 'o', 'w', 's'] {
        TargetOs::Windows
    } else {
        TargetOs::Unknown
    }
}

impl TargetOs {
    /// The `TargetOs` of a compilation target whose OS and environment have
    /// the given names (see `os_for_target`).
    pub fn for_target(os: &String, env: &String) -> (r: TargetOs)
        ensures
            r == os_for_target(os@, env@),
    {
        proof {
            reveal_strlit("linux");
            assert("linux"@ =~= seq!['l', 'i', 'n', 'u', 'x']);
            reveal_strlit("android");
            assert("android"@ =~= seq!['a', 'n', 'd', 'r', 'o', 'i', 'd']);
            reveal_strlit("androideabi");
            assert("androideabi"@ =~= seq!['a', 'n', 'd', 'r', 'o', 'i', 'd', 'e', 'a', 'b', 'i']);
            reveal_strlit("darwin");
            assert("darwin"@ =~= seq!['d', 'a', 'r', 'w', 'i', 'n']);
            reveal_strlit("macosx");
            assert("macosx"@ =~= seq!['m', 'a', 'c', 'o', 's', 'x']);
            reveal_strlit("windows");
            assert("windows"@ =~= seq!['w', 'i', 'n', 'd', 'o', 'w', 's']);
        }
        if text_is(os, "linux") && !text_is(env, "android") && !text_is(env, "androideabi") {
            TargetOs::Linux
        } else if text_is(os, "darwin") || text_is(os, "macosx") {
            TargetOs::Macos
        } else if text_is(os, "windows") {
            TargetOs::Windows
        } else {
            TargetOs::Unknown
        }
    }

    /// The operating system this crate was compiled for, with the names of
    /// the target's operating system and environment that it was read from.
    pub fn current_target() -> (r: (TargetOs, String, String))
        ensures
            r.0 == os_for_target(r.1@, r.2@),
    {
        let os = host_os_text();
        let env = host_env_text();
        let t = TargetOs::for_target(&os, &env);
        (t, os, env)
    }

    /// Returns the operating system this crate was compiled for: what
    /// `for_target` makes of the names of the target's operating system
    /// and environment (see `current_target`). Which names those are is
    /// fixed by the build and stated nowhere.
    pub fn current() -> (r: TargetOs)
        ensures
            exists|os: Seq<char>, env: Seq<char>| r == #[trigger] os_for_target(os, env),
    {
        let (t, os, env) = TargetOs::current_target();
        assert(t == os_for_target(os@, env@));
        t
    }
}

} // verus!
