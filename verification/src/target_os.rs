//! The operating systems whose library naming conventions and search
//! directories the finder knows, and how an OS is named in text.
use std::str::FromStr;
use vstd::prelude::*;

verus! {

/// Supported operating systems.
#[derive(Debug, Clone, Copy, PartialEq, Eq, Structural)]
pub enum TargetOs {
    Linux,
    Macos,
    Windows,
    Unknown,
}

/// What `str::to_lowercase` returns for a string (full Unicode lowercasing).
pub uninterp spec fn lowercase(s: Seq<char>) -> Seq<char>;

/// Lowercases `s` with `str::to_lowercase` of std.
///
/// Claimed: the result is `lowercase(s)`, a function of the text alone
/// (Unicode's Lowercase mapping, which does not depend on a locale).
#[verifier::external_body]
fn to_lowercase(s: &str) -> (r: String)
    ensures
        r@ == lowercase(s@),
{
    s.to_lowercase()
}

/// The OS that an already lowercased name stands for.
pub open spec fn os_for_lowercase_name(lower: Seq<char>) -> TargetOs {
    if lower == seq!['l', 'i', 'n', 'u', 'x'] || lower == seq!['g', 'n', 'u'] {
        TargetOs::Linux
    } else if lower == seq!['m', 'a', 'c', 'o', 's'] || lower == seq!['d', 'a', 'r', 'w', 'i', 'n']
        || lower == seq!['a', 'p', 'p', 'l', 'e'] {
        TargetOs::Macos
    } else if lower == seq!['w', 'i', 'n', 'd', 'o', 'w', 's'] || lower == seq!['w', 'i', 'n']
        || lower == seq!['m', 's', 'v', 'c'] {
        TargetOs::Windows
    } else {
        TargetOs::Unknown
    }
}

/// The OS that a name stands for, compared without regard to case.
pub open spec fn os_for_name(s: Seq<char>) -> TargetOs {
    os_for_lowercase_name(lowercase(s))
}

/// Whether `text` holds exactly the characters of `word`.
pub(crate) fn text_is(text: &String, word: &str) -> (r: bool)
    ensures
        r == (text@ == word@),
{
    let w: String = word.to_owned();
    *text == w
}

impl TargetOs {
    /// The OS for a name that is already in lower case: `linux`/`gnu`,
    /// `macos`/`darwin`/`apple`, `windows`/`win`/`msvc`; anything else is
    /// `Unknown`.
    pub fn from_lowercase_name(lower: &String) -> (r: TargetOs)
        ensures
            r == os_for_lowercase_name(lower@),
    {
        proof {
            reveal_strlit("linux");
            assert("linux"@ =~= seq!['l', 'i', 'n', 'u', 'x']);
            reveal_strlit("gnu");
            assert("gnu"@ =~= seq!['g', 'n', 'u']);
            reveal_strlit("macos");
            assert("macos"@ =~= seq!['m', 'a', 'c', 'o', 's']);
            reveal_strlit("darwin");
            assert("darwin"@ =~= seq!['d', 'a', 'r', 'w', 'i', 'n']);
            reveal_strlit("apple");
            assert("apple"@ =~= seq!['a', 'p', 'p', 'l', 'e']);
            reveal_strlit("windows");
            assert("windows"@ =~= seq!['w', 'i', 'n', 'd', 'o', 'w', 's']);
            reveal_strlit("win");
            assert("win"@ =~= seq!['w', 'i', 'n']);
            reveal_strlit("msvc");
            assert("msvc"@ =~= seq!['m', 's', 'v', 'c']);
        }
        if text_is(lower, "linux") || text_is(lower, "gnu") {
            TargetOs::Linux
        } else if text_is(lower, "macos") || text_is(lower, "darwin") || text_is(lower, "apple") {
            TargetOs::Macos
        } else if text_is(lower, "windows") || text_is(lower, "win") || text_is(lower, "msvc") {
            TargetOs::Windows
        } else {
            TargetOs::Unknown
        }
    }

    /// Parses an OS name without regard to case; unrecognised names give
    /// `Unknown`, so parsing never fails.
    pub fn from_name(s: &str) -> (r: TargetOs)
        ensures
            r == os_for_name(s@),
    {
        let lower = to_lowercase(s);
        TargetOs::from_lowercase_name(&lower)
    }
}

impl FromStr for TargetOs {
    type Err = String;

    /// Parse from string (case-insensitive); this never returns `Err`.
    fn from_str(s: &str) -> (r: Result<Self, Self::Err>)
        ensures
            r matches Ok(os) && os == os_for_name(s@),
    {
        Ok(TargetOs::from_name(s))
    }
}

} // verus!
