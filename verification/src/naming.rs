//! How a library name becomes the file name that is searched for.
use crate::target_os::TargetOs;
use vstd::prelude::*;

verus! {

/// The file name that an OS gives the library `name` by default:
/// `lib{name}.so` on Linux (and on unknown systems), `lib{name}.dylib` on
/// macOS, `{name}.dll` on Windows.
pub open spec fn default_file_name(os: TargetOs, name: Seq<char>) -> Seq<char> {
    match os {
        TargetOs::Linux => "lib"@ + name + ".so"@,
        TargetOs::Macos => "lib"@ + name + ".dylib"@,
        TargetOs::Windows => name + ".dll"@,
        TargetOs::Unknown => "lib"@ + name + ".so"@,
    }
}

/// The default file name for `name` on `os` (see `default_file_name`).
pub fn default_library_filename(os: TargetOs, name: &str) -> (r: String)
    ensures
        r@ == default_file_name(os, name@),
{
    match os {
        TargetOs::Windows => {
            let mut s: String = name.to_owned();
            s.append(".dll");
            s
        },
        TargetOs::Macos => {
            let mut s: String = "lib".to_owned();
            s.append(name);
            s.append(".dylib");
            s
        },
        _ => {
            let mut s: String = "lib".to_owned();
            s.append(name);
            s.append(".so");
            s
        },
    }
}

/// `{prefix}{name}{suffix}`.
pub fn affixed_filename(prefix: &str, name: &str, suffix: &str) -> (r: String)
    ensures
        r@ == prefix@ + name@ + suffix@,
{
    let mut s: String = prefix.to_owned();
    s.append(name);
    s.append(suffix);
    s
}

/// A rule that turns a library name into a file name, supplied by the
/// user of the finder.
pub trait NameRule {
    /// Whether `file_name` is a file name that the rule may give for `name`.
    spec fn produces(&self, name: Seq<char>, file_name: Seq<char>) -> bool;

    fn file_name(&self, name: &str) -> (r: String)
        ensures
            self.produces(name@, r@),
    ;
}

/// Whether the closure `f`, called on a string whose text is `name`, may
/// return a string whose text is `out`.
pub open spec fn closure_yields<F: Fn(&str) -> String>(f: F, name: Seq<char>, out: Seq<char>) -> bool {
    exists|s: &str, o: String| s@ == name && o@ == out && call_ensures(f, (s,), o)
}

/// A user closure used as a naming rule. The closure must accept every name.
pub struct ClosureRule<F: Fn(&str) -> String> {
    f: F,
}

impl<F: Fn(&str) -> String> ClosureRule<F> {
    #[verifier::type_invariant]
    spec fn accepts_all(self) -> bool {
        forall|s: &str| self.f.requires((s,))
    }

    pub fn new(f: F) -> (r: Self)
        requires
            forall|s: &str| f.requires((s,)),
        ensures
            forall|name: Seq<char>, out: Seq<char>|
                r.produces(name, out) <==> closure_yields(f, name, out),
    {
        ClosureRule { f }
    }
}

impl<F: Fn(&str) -> String> NameRule for ClosureRule<F> {
    closed spec fn produces(&self, name: Seq<char>, file_name: Seq<char>) -> bool {
        closure_yields(self.f, name, file_name)
    }

    fn file_name(&self, name: &str) -> (r: String) {
        proof {
            use_type_invariant(self);
        }
        let r = (self.f)(name);
        assert(closure_yields(self.f, name@, r@));
        r
    }
}

/// How the finder names the file it searches for.
pub enum FileNaming {
    /// The convention of the target OS (see `default_file_name`).
    OsDefault,
    /// `{prefix}{name}{suffix}`.
    Affixes { prefix: String, suffix: String },
    /// A rule of the user's.
    Custom(Box<dyn NameRule>),
}

/// What the finder knows of its naming: the rule's text where it has one.
pub enum NamingView {
    OsDefault,
    Affixes(Seq<char>, Seq<char>),
    Custom,
}

impl FileNaming {
    pub open spec fn view(&self) -> NamingView {
        match self {
            FileNaming::OsDefault => NamingView::OsDefault,
            FileNaming::Affixes { prefix, suffix } => NamingView::Affixes(prefix@, suffix@),
            FileNaming::Custom(_) => NamingView::Custom,
        }
    }

    /// Whether a custom rule is set and may give `out` for `name`.
    pub open spec fn custom_produces(&self, name: Seq<char>, out: Seq<char>) -> bool {
        match self {
            FileNaming::Custom(rule) => rule.produces(name, out),
            _ => false,
        }
    }
}

} // verus!
