//! The search configuration and the search itself.
use crate::naming::{
    affixed_filename, closure_yields, default_file_name, default_library_filename, ClosureRule,
    FileNaming, NamingView,
};
use crate::paths::{
    canonical_form, file_name_of, is_regular_file, parent_of, path_equal, path_file_name, path_parent,
    path_starts_with,
    same_path,
};
use crate::probe::{dylib_path, executable_path, walk_entries};
use crate::search::{
    append_all, dedup_by_key, dedup_roots, excluded_by, excluded_given, exclusion_covers, first_found,
    entry_depth, entry_path, keep_matches, keeps_entry, kept_entries, kept_from, lemma_kept_entries_origin, not_found_message, opt_text,
    first_match, outcome, resolve_search, search_outcome, under_any, walk_texts, FindError, Outcome,
};
use crate::host::os_for_target;
use crate::target_os::{os_for_name, text_is, TargetOs};
use vstd::prelude::*;

verus! {

/// Builder for configuring and executing library file searches.
pub struct FindLibBuilder {
    custom_roots: Vec<String>,
    excluded: Vec<String>,
    depth: i32,
    use_defaults: bool,
    first_only: bool,
    /// Assumed target OS; the OS the crate was compiled for if `None`.
    assume_os: Option<TargetOs>,
    /// How the library name becomes a file name.
    naming: FileNaming,
    /// The OS the crate was compiled for.
    host: TargetOs,
}

/// The configuration of a `FindLibBuilder`.
pub struct BuilderView {
    /// Paths added by the user, searched first, in this order.
    pub custom_roots: Seq<Seq<char>>,
    /// Paths that are never searched, nor anything under them.
    pub excluded: Seq<Seq<char>>,
    /// Maximum search depth; negative means unlimited.
    pub depth: i32,
    /// Whether the default search paths are searched after the custom ones.
    pub use_defaults: bool,
    /// Whether the search stops at the first root with a match.
    pub first_only: bool,
    pub assume_os: Option<TargetOs>,
    pub naming: FileNaming,
    /// The OS the crate was compiled for, targeted where none is assumed.
    pub host: TargetOs,
}

impl BuilderView {
    /// The OS the search targets: the assumed one if one is assumed, else
    /// the one the crate was compiled for.
    pub open spec fn target_os(self) -> TargetOs {
        match self.assume_os {
            Some(a) => a,
            None => self.host,
        }
    }

    /// Whether `os` is the OS the search targets.
    pub open spec fn may_target(self, os: TargetOs) -> bool {
        os == self.target_os()
    }

    /// Whether `f` is the file name searched for the library `name`.
    pub open spec fn file_name_for(self, name: Seq<char>, f: Seq<char>) -> bool {
        match self.naming.view() {
            NamingView::OsDefault => exists|os: TargetOs| self.may_target(os) && f == #[trigger] default_file_name(os, name),
            NamingView::Affixes(prefix, suffix) => f == prefix + name + suffix,
            NamingView::Custom => self.naming.custom_produces(name, f),
        }
    }

    /// Whether the path `p` is a match for the file name `f`: its final
    /// component is `f` and it lies under no excluded path.
    pub open spec fn is_match(self, p: Seq<char>, f: Seq<char>) -> bool {
        path_file_name(p) == Some(f) && !under_any(p, self.excluded)
    }

    /// Whether a search for `name`, resolved to `f`, may report `o`.
    pub open spec fn reports(self, name: Seq<char>, f: Seq<char>, o: Outcome) -> bool {
        match o {
            Outcome::Found(p) => self.is_match(p, f),
            Outcome::NotFound(m) => m == not_found_message(name, f),
            Outcome::Ambiguous(v) => !self.first_only && v.len() >= 2 && forall|i: int|
                0 <= i < v.len() ==> self.is_match(#[trigger] v[i], f),
        }
    }
}

/// The configuration of a new builder compiled for `host`: no custom or
/// excluded paths, depth 1, default paths on, first match only, no assumed
/// OS, OS naming.
pub open spec fn initial_view(host: TargetOs) -> BuilderView {
    BuilderView {
        custom_roots: Seq::empty(),
        excluded: Seq::empty(),
        depth: 1,
        use_defaults: true,
        first_only: true,
        assume_os: None,
        naming: FileNaming::OsDefault,
        host,
    }
}

/// The depth limit handed to the directory walk: unlimited for a negative
/// depth, else the depth itself.
pub open spec fn walk_depth(depth: i32) -> usize {
    if depth < 0 {
        usize::MAX
    } else {
        depth as usize
    }
}

/// The system library directories of `os`.
pub open spec fn system_dirs(os: TargetOs) -> Seq<Seq<char>> {
    match os {
        TargetOs::Linux => seq!["/usr/lib"@, "/usr/local/lib"@, "/lib"@, "/usr/lib/x86_64-linux-gnu"@],
        TargetOs::Macos => seq!["/usr/lib"@, "/usr/local/lib"@, "/opt/homebrew/lib"@],
        TargetOs::Windows => seq!["C:\\Windows\\System32"@, "C:\\Windows"@],
        TargetOs::Unknown => Seq::empty(),
    }
}

/// The environment variables that list library directories on `os`.
pub open spec fn library_path_vars(os: TargetOs) -> Seq<Seq<char>> {
    match os {
        TargetOs::Linux => seq!["LD_LIBRARY_PATH"@],
        TargetOs::Macos => seq!["DYLD_LIBRARY_PATH"@, "DYLD_FALLBACK_LIBRARY_PATH"@],
        TargetOs::Windows => seq!["PATH"@],
        TargetOs::Unknown => Seq::empty(),
    }
}

/// The test "is not the same path as `p`".
pub open spec fn differs_from(p: Seq<char>) -> spec_fn(Seq<char>) -> bool {
    |x: Seq<char>| !path_equal(x, p)
}

/// The sequence holding `o`'s value, or nothing.
pub open spec fn opt_seq(o: Option<Seq<char>>) -> Seq<Seq<char>> {
    match o {
        Some(x) => seq![x],
        None => Seq::empty(),
    }
}

/// All search roots before duplicates are dropped, in order of priority:
/// custom paths; then, with defaults on, the executable's directory, the
/// current library's directory, the paths from the environment, and the
/// system directories.
pub open spec fn candidate_roots(
    v: BuilderView,
    exe_dir: Option<Seq<char>>,
    dylib_dir: Option<Seq<char>>,
    env: Seq<Seq<char>>,
    sys: Seq<Seq<char>>,
) -> Seq<Seq<char>> {
    if v.use_defaults {
        v.custom_roots + opt_seq(exe_dir) + opt_seq(dylib_dir) + env + sys
    } else {
        v.custom_roots
    }
}

/// The directory of the path `o` holds, where there is one.
pub open spec fn parent_opt(o: Option<Seq<char>>) -> Option<Seq<char>> {
    match o {
        Some(p) => path_parent(p),
        None => None,
    }
}

/// Whether per-root findings `per_root` are those of a first-match search
/// over `n` roots: nothing was found before the last root reached, and a
/// search that stopped early found something at its last root.
pub open spec fn reaches_first_match(per_root: Seq<Seq<Seq<char>>>, n: int) -> bool {
    &&& forall|k: int| 0 <= k < per_root.len() - 1 ==> (#[trigger] per_root[k]).len() == 0
    &&& per_root.len() < n ==> per_root.len() > 0 && per_root.last().len() > 0
}

/// The system library directories of `os` (see `system_dirs`).
pub fn system_lib_dirs(os: TargetOs) -> (r: Vec<String>)
    ensures
        r.deep_view() == system_dirs(os),
{
    let r: Vec<String> = match os {
        TargetOs::Linux => vec![
            "/usr/lib".to_owned(),
            "/usr/local/lib".to_owned(),
            "/lib".to_owned(),
            "/usr/lib/x86_64-linux-gnu".to_owned(),
        ],
        TargetOs::Macos => vec![
            "/usr/lib".to_owned(),
            "/usr/local/lib".to_owned(),
            "/opt/homebrew/lib".to_owned(),
        ],
        TargetOs::Windows => vec!["C:\\Windows\\System32".to_owned(), "C:\\Windows".to_owned()],
        TargetOs::Unknown => Vec::new(),
    };
    assert(r.deep_view() =~= system_dirs(os));
    r
}

/// The environment variables that list library directories on `os` (see
/// `library_path_vars`).
pub fn library_path_var_names(os: TargetOs) -> (r: Vec<String>)
    ensures
        r.deep_view() == library_path_vars(os),
{
    let r: Vec<String> = match os {
        TargetOs::Linux => vec!["LD_LIBRARY_PATH".to_owned()],
        TargetOs::Macos => vec!["DYLD_LIBRARY_PATH".to_owned(), "DYLD_FALLBACK_LIBRARY_PATH".to_owned()],
        TargetOs::Windows => vec!["PATH".to_owned()],
        TargetOs::Unknown => Vec::new(),
    };
    assert(r.deep_view() =~= library_path_vars(os));
    r
}

impl View for FindLibBuilder {
    type V = BuilderView;

    closed spec fn view(&self) -> BuilderView {
        BuilderView {
            custom_roots: self.custom_roots.deep_view(),
            excluded: self.excluded.deep_view(),
            depth: self.depth,
            use_defaults: self.use_defaults,
            first_only: self.first_only,
            assume_os: self.assume_os,
            naming: self.naming,
            host: self.host,
        }
    }
}

impl Default for FindLibBuilder {
    fn default() -> (r: Self)
        ensures
            r@ == initial_view(r@.host),
            exists|os: Seq<char>, env: Seq<char>| r@.host == #[trigger] os_for_target(os, env),
    {
        let host = TargetOs::current();
        let r = FindLibBuilder {
            custom_roots: Vec::new(),
            excluded: Vec::new(),
            depth: 1,
            use_defaults: true,
            first_only: true,
            assume_os: None,
            naming: FileNaming::OsDefault,
            host,
        };
        assert(r@.custom_roots =~= Seq::<Seq<char>>::empty());
        assert(r@.excluded =~= Seq::<Seq<char>>::empty());
        r
    }
}

impl FindLibBuilder {
    /// Creates a new `FindLibBuilder` with default settings.
    pub fn new() -> (r: Self)
        ensures
            r@ == initial_view(r@.host),
            exists|os: Seq<char>, env: Seq<char>| r@.host == #[trigger] os_for_target(os, env),
    {
        Self::default()
    }

    // ── Configuration Methods ──
    /// Sets the maximum search depth.
    ///
    /// * `1` - only search the given directories (default)
    /// * Positive values - search up to N levels deep
    /// * Negative values - unlimited depth
    pub fn depth(self, n: i32) -> (r: Self)
        ensures
            r@ == (BuilderView { depth: n, ..self@ }),
    {
        let mut b = self;
        b.depth = n;
        b
    }

    /// Adds a single custom search path.
    pub fn add_path(self, p: &str) -> (r: Self)
        ensures
            r@ == (BuilderView { custom_roots: self@.custom_roots.push(p@), ..self@ }),
    {
        let mut b = self;
        b.custom_roots.push(p.to_owned());
        assert(b.custom_roots.deep_view() =~= self.custom_roots.deep_view().push(p@));
        b
    }

    /// Adds multiple custom search paths, in order.
    pub fn add_paths(self, paths: &[&str]) -> (r: Self)
        ensures
            r@ == (BuilderView {
                custom_roots: self@.custom_roots + paths@.map_values(|p: &str| p@),
                ..self@
            }),
    {
        let ghost v0 = self@;
        let ghost texts = paths@.map_values(|p: &str| p@);
        let mut b = self;
        let mut i: usize = 0;
        while i < paths.len()
            invariant
                i <= paths.len(),
                texts == paths@.map_values(|p: &str| p@),
                b@ == (BuilderView { custom_roots: v0.custom_roots + texts.take(i as int), ..v0 }),
            decreases paths.len() - i,
        {
            let ghost before = b.custom_roots.deep_view();
            let item: String = paths[i].to_owned();
            b.custom_roots.push(item);
            assert(b.custom_roots.deep_view() =~= before.push(paths@[i as int]@));
            assert(texts.take(i + 1) =~= texts.take(i as int).push(paths@[i as int]@));
            assert(b.custom_roots.deep_view() =~= v0.custom_roots + texts.take(i + 1));
            i = i + 1;
        }
        assert(texts.take(paths.len() as int) =~= texts);
        b
    }

    /// Removes a path from search roots and adds it to exclusion list.
    ///
    /// This ensures the path won't be searched even if it appears in default
    /// paths: every custom root that is the same path as `p` is dropped, and
    /// `p` is excluded from now on.
    pub fn remove_path(self, p: &str) -> (r: Self)
        ensures
            r@ == (BuilderView {
                custom_roots: self@.custom_roots.filter(differs_from(p@)),
                excluded: self@.excluded.push(p@),
                ..self@
            }),
    {
        let ghost pred = differs_from(p@);
        let ghost roots0 = self.custom_roots.deep_view();
        let mut kept: Vec<String> = Vec::new();
        let mut i: usize = 0;
        while i < self.custom_roots.len()
            invariant
                i <= self.custom_roots.len(),
                roots0 == self.custom_roots.deep_view(),
                pred == differs_from(p@),
                kept.deep_view() == roots0.take(i as int).filter(pred),
            decreases self.custom_roots.len() - i,
        {
            let ghost before = kept.deep_view();
            proof {
                reveal(Seq::filter);
                assert(roots0.take(i + 1).drop_last() =~= roots0.take(i as int));
            }
            if !same_path(self.custom_roots[i].as_str(), p) {
                let item = self.custom_roots[i].clone();
                kept.push(item);
                assert(kept.deep_view() =~= before.push(roots0[i as int]));
            }
            assert(kept.deep_view() =~= roots0.take(i + 1).filter(pred));
            i = i + 1;
        }
        assert(roots0.take(roots0.len() as int) =~= roots0);
        let mut b = self;
        b.custom_roots = kept;
        let ghost ex0 = b.excluded.deep_view();
        b.excluded.push(p.to_owned());
        assert(b.excluded.deep_view() =~= ex0.push(p@));
        b
    }

    /// Disables default search paths.
    ///
    /// When called, only explicitly added paths will be searched.
    pub fn no_defaults(self) -> (r: Self)
        ensures
            r@ == (BuilderView { use_defaults: false, ..self@ }),
    {
        let mut b = self;
        b.use_defaults = false;
        b
    }

    /// Enables strict mode: returns all matches instead of just the first one.
    ///
    /// In this mode, `find_result` may return `FindError::Ambiguous` if multiple
    /// libraries are found.
    pub fn strict(self) -> (r: Self)
        ensures
            r@ == (BuilderView { first_only: false, ..self@ }),
    {
        let mut b = self;
        b.first_only = false;
        b
    }

    /// Assumes a specific target operating system for filename generation.
    ///
    /// Affects the library file name format, the system default search paths
    /// and the environment variable names. It does not affect the actual
    /// compilation target.
    pub fn assume_os(self, os: TargetOs) -> (r: Self)
        ensures
            r@ == (BuilderView { assume_os: Some(os), ..self@ }),
    {
        let mut b = self;
        b.assume_os = Some(os);
        b
    }

    /// Sets `assume_os` from a name (see `TargetOs::from_name`; any name is
    /// accepted).
    pub fn assume_os_str(self, s: &str) -> (r: Self)
        ensures
            r@ == (BuilderView { assume_os: Some(os_for_name(s@)), ..self@ }),
    {
        let os = TargetOs::from_name(s);
        self.assume_os(os)
    }

    /// Sets a custom filename generation function.
    ///
    /// This completely overrides the default file naming based on OS. The
    /// closure receives the raw library name (e.g. "foo") and returns the full
    /// filename (e.g. "libfoo_custom.so.1"); it must accept every name.
    pub fn set_filename_fn<F>(self, f: F) -> (r: Self) where F: Fn(&str) -> String + 'static
        requires
            forall|s: &str| f.requires((s,)),
        ensures
            r@.naming.view() == NamingView::Custom,
            forall|name: Seq<char>, out: Seq<char>|
                r@.naming.custom_produces(name, out) <==> closure_yields(f, name, out),
            r@ == (BuilderView { naming: r@.naming, ..self@ }),
    {
        let rule = ClosureRule::new(f);
        let mut b = self;
        b.naming = FileNaming::Custom(Box::new(rule));
        b
    }

    /// Sets the file name of library `name` to `{prefix}{name}{suffix}`.
    pub fn set_prefix_suffix(self, prefix: &str, suffix: &str) -> (r: Self)
        ensures
            r@.naming.view() == NamingView::Affixes(prefix@, suffix@),
            r@ == (BuilderView { naming: r@.naming, ..self@ }),
    {
        let mut b = self;
        b.naming = FileNaming::Affixes { prefix: prefix.to_owned(), suffix: suffix.to_owned() };
        b
    }

    // ── Internal Helpers ──
    /// Returns the effective target OS (assumed or compile-time).
    pub fn effective_os(&self) -> (r: TargetOs)
        ensures
            self@.may_target(r),
            r == self@.target_os(),
    {
        match self.assume_os {
            Some(os) => os,
            None => self.host,
        }
    }

    /// Generates the library filename based on configuration: the custom
    /// naming if one is set, else the convention of the effective OS.
    pub fn library_filename(&self, name: &str) -> (r: String)
        ensures
            self@.file_name_for(name@, r@),
    {
        match &self.naming {
            FileNaming::Custom(rule) => rule.file_name(name),
            FileNaming::Affixes { prefix, suffix } => affixed_filename(prefix.as_str(), name, suffix.as_str()),
            FileNaming::OsDefault => {
                let os = self.effective_os();
                let r = default_library_filename(os, name);
                assert(self@.may_target(os) && r@ == default_file_name(os, name@));
                r
            },
        }
    }

    /// Returns system default search paths for the effective OS.
    pub fn sys_dirs(&self) -> (r: Vec<String>)
        ensures
            exists|os: TargetOs| self@.may_target(os) && r.deep_view() == #[trigger] system_dirs(os),
            r.deep_view() == system_dirs(self@.target_os()),
    {
        let os = self.effective_os();
        system_lib_dirs(os)
    }

    /// Returns the names of the environment variables that list library
    /// directories on the effective OS.
    pub fn env_var_names(&self) -> (r: Vec<String>)
        ensures
            exists|os: TargetOs| self@.may_target(os) && r.deep_view() == #[trigger] library_path_vars(os),
            r.deep_view() == library_path_vars(self@.target_os()),
    {
        let os = self.effective_os();
        library_path_var_names(os)
    }

    /// The depth limit of the directory walk.
    pub fn max_depth(&self) -> (r: usize)
        ensures
            r == walk_depth(self@.depth),
    {
        if self.depth < 0 {
            usize::MAX
        } else {
            self.depth as usize
        }
    }
}


impl FindLibBuilder {
    /// All candidate roots, before duplicates are dropped, when the running
    /// executable's path is `exe` and the current library's path is `dylib`
    /// (each probed only with defaults on), the environment lists
    /// `env_paths` and the system directories are `sys`: custom paths, then
    /// (with defaults on) the directory of `exe`, the directory of `dylib`,
    /// the environment's paths and the system directories.
    pub fn candidate_list(
        &self,
        exe: Option<String>,
        dylib: Option<String>,
        env_paths: &Vec<String>,
        sys: &Vec<String>,
    ) -> (r: Vec<String>)
        ensures
            r.deep_view() == candidate_roots(
                self@,
                parent_opt(opt_text(exe)),
                parent_opt(opt_text(dylib)),
                env_paths.deep_view(),
                sys.deep_view(),
            ),
    {
        let mut roots: Vec<String> = self.custom_roots.clone();
        assert(roots.deep_view() =~= self@.custom_roots);
        if self.use_defaults {
            let exe_dir = Self::directory_of(exe);
            if let Some(d) = exe_dir {
                let ghost before = roots.deep_view();
                roots.push(d);
                assert(roots.deep_view() =~= before.push(d@));
            }
            assert(roots.deep_view() =~= self@.custom_roots + opt_seq(opt_text(exe_dir)));
            let dylib_dir = Self::directory_of(dylib);
            if let Some(d) = dylib_dir {
                let ghost before = roots.deep_view();
                roots.push(d);
                assert(roots.deep_view() =~= before.push(d@));
            }
            assert(roots.deep_view() =~= self@.custom_roots + opt_seq(opt_text(exe_dir)) + opt_seq(
                opt_text(dylib_dir),
            ));
            append_all(&mut roots, env_paths);
            append_all(&mut roots, sys);
        }
        roots
    }

    /// Whether `result` is what collecting the search roots gives when the
    /// environment lists `env`, the probed paths of the executable and of
    /// the current library are `exe` and `dylib`, the system directories
    /// are those of `os`, and the candidate roots resolve on disk to `keys`.
    pub open spec fn collects(
        self,
        env: Seq<Seq<char>>,
        exe: Option<Seq<char>>,
        dylib: Option<Seq<char>>,
        os: TargetOs,
        keys: Seq<Seq<char>>,
        result: Seq<Seq<char>>,
    ) -> bool {
        let cands = candidate_roots(self@, parent_opt(exe), parent_opt(dylib), env, system_dirs(os));
        &&& self@.may_target(os)
        &&& keys.len() == cands.len()
        &&& result == dedup_by_key(cands, keys).0
    }

    /// The directory of the path that `probe` gives, if any: its parent,
    /// where it has one.
    fn directory_of(probe: Option<String>) -> (r: Option<String>)
        ensures
            opt_text(r) == parent_opt(opt_text(probe)),
    {
        match probe {
            Some(p) => parent_of(p.as_str()),
            None => None,
        }
    }

    /// Collects all search root directories, in order of precedence:
    /// custom paths (highest priority), then, unless defaults are off, the
    /// executable's directory, the current dylib's directory, the paths
    /// listed by the environment variables (`env_paths`, read by the caller
    /// from the variables `env_var_names` names), and the system directories
    /// (lowest priority). A root that resolves on disk to the same path as
    /// one kept before it is dropped.
    pub fn collect_roots(&self, env_paths: &Vec<String>) -> (r: Vec<String>)
        ensures
            exists|exe: Option<Seq<char>>, dylib: Option<Seq<char>>, os: TargetOs, keys: Seq<Seq<char>>|
                #[trigger] self.collects(env_paths.deep_view(), exe, dylib, os, keys, r.deep_view()),
    {
        let ghost mut os: TargetOs = match self.assume_os {
            Some(a) => a,
            None => self.host,
        };
        let (exe, dylib, sys) = if self.use_defaults {
            let exe = executable_path();
            let dylib = dylib_path();
            let sys = self.sys_dirs();
            proof {
                os = choose|o: TargetOs| self@.may_target(o) && sys.deep_view() == #[trigger] system_dirs(o);
            }
            (exe, dylib, sys)
        } else {
            (None, None, Vec::new())
        };
        let ghost exe_t = opt_text(exe);
        let ghost dylib_t = opt_text(dylib);
        let roots = self.candidate_list(exe, dylib, env_paths, &sys);
        let ghost cands = candidate_roots(
            self@,
            parent_opt(exe_t),
            parent_opt(dylib_t),
            env_paths.deep_view(),
            system_dirs(os),
        );
        assert(roots.deep_view() =~= cands);
        let mut keys: Vec<String> = Vec::new();
        let mut i: usize = 0;
        while i < roots.len()
            invariant
                i <= roots.len(),
                keys.len() == i,
            decreases roots.len() - i,
        {
            let key = match canonical_form(roots[i].as_str()) {
                Some(c) => c,
                None => roots[i].clone(),
            };
            keys.push(key);
            i = i + 1;
        }
        let r = dedup_roots(&roots, &keys);
        assert(self.collects(env_paths.deep_view(), exe_t, dylib_t, os, keys.deep_view(), r.deep_view()));
        r
    }

    /// Whether the exclusion test may pass the path `p`: for some answers of
    /// the file system on what `p` and the excluded paths resolve to, no
    /// excluded path covers `p` (see `excluded_by`).
    pub open spec fn passes_exclusion(self, p: Seq<char>) -> bool {
        exists|canonical: Option<Seq<char>>, keys: Seq<Seq<char>>|
            keys.len() == self@.excluded.len() && !#[trigger] excluded_by(p, canonical, self@.excluded, keys)
    }

    /// Whether the exclusion test may answer `r` for the path `p`: for some
    /// answers of the file system on what `p` and the excluded paths
    /// resolve to, `r` tells whether an excluded path covers `p` (see
    /// `excluded_by`).
    pub open spec fn exclusion_answer(self, p: Seq<char>, r: bool) -> bool {
        exists|canonical: Option<Seq<char>>, keys: Seq<Seq<char>>|
            keys.len() == self@.excluded.len() && r == #[trigger] excluded_by(p, canonical, self@.excluded, keys)
    }

    /// Checks whether a path is excluded from search: it resolves on disk to
    /// the same path as an excluded path does, or it lies under one.
    pub fn is_excluded(&self, p: &str) -> (r: bool)
        ensures
            exists|canonical: Option<Seq<char>>, keys: Seq<Seq<char>>|
                keys.len() == self@.excluded.len() && r == #[trigger] excluded_by(p@, canonical, self@.excluded, keys),
            under_any(p@, self@.excluded) ==> r,
            !r ==> self.passes_exclusion(p@),
    {
        let canonical = canonical_form(p);
        let mut keys: Vec<String> = Vec::new();
        let mut i: usize = 0;
        while i < self.excluded.len()
            invariant
                i <= self.excluded.len(),
                keys.len() == i,
            decreases self.excluded.len() - i,
        {
            let key = match canonical_form(self.excluded[i].as_str()) {
                Some(c) => c,
                None => self.excluded[i].clone(),
            };
            keys.push(key);
            i = i + 1;
        }
        let r = excluded_given(p, &canonical, &self.excluded, &keys);
        proof {
            if under_any(p@, self@.excluded) {
                let j = choose|j: int| 0 <= j < self@.excluded.len() && #[trigger] path_starts_with(p@, self@.excluded[j]);
                assert(exclusion_covers(p@, opt_text(canonical), self@.excluded[j], keys.deep_view()[j]));
            }
            if !r {
                assert(keys.deep_view().len() == self@.excluded.len());
                assert(!excluded_by(p@, opt_text(canonical), self@.excluded, keys.deep_view()));
            }
        }
        r
    }

    /// Whether the path `p`, found under the root `root`, is a match for the
    /// file name `f`: it lies under `root`, its final component is `f`, it
    /// lies under no excluded path, and the exclusion test may pass it.
    pub open spec fn found_under(self, root: Seq<char>, f: Seq<char>, p: Seq<char>) -> bool {
        &&& path_starts_with(p, root)
        &&& self@.is_match(p, f)
        &&& self.passes_exclusion(p)
    }

    /// Whether `result` is what a search of `root` keeps when the walk of the
    /// root yielded `entries` (path and depth of each, or `None` for an entry
    /// the walk could not read), the file system reported `regular[i]` for
    /// whether entry `i` is a regular file, and the exclusion test answered
    /// `excluded[i]` for it (true where the test was not asked). The walk
    /// stays under `root` and within the depth limit.
    pub open spec fn walk_keeps(
        self,
        root: Seq<char>,
        entries: Seq<Option<(Seq<char>, usize)>>,
        regular: Seq<bool>,
        excluded: Seq<bool>,
        f: Seq<char>,
        result: Seq<Seq<char>>,
    ) -> bool {
        &&& regular.len() == entries.len()
        &&& excluded.len() == entries.len()
        &&& forall|i: int|
            0 <= i < entries.len() && (#[trigger] entries[i]) is Some ==> {
                &&& path_starts_with(entry_path(entries[i]), root)
                &&& entry_depth(entries[i]) <= walk_depth(self@.depth)
                &&& under_any(entry_path(entries[i]), self@.excluded) ==> excluded[i]
                &&& !excluded[i] ==> self.passes_exclusion(entry_path(entries[i]))
            }
        &&& result == kept_entries(entries, regular, excluded, f)
    }

    /// Whether a search of `root` for the file name `f` may find `found`:
    /// `found` is what the search keeps of some walk of the root (see
    /// `walk_keeps`).
    pub open spec fn root_search(self, root: Seq<char>, f: Seq<char>, found: Seq<Seq<char>>) -> bool {
        exists|entries: Seq<Option<(Seq<char>, usize)>>, regular: Seq<bool>, excluded: Seq<bool>|
            #[trigger] self.walk_keeps(root, entries, regular, excluded, f, found)
    }

    /// Searches for the library file in a single root directory: every
    /// regular file within the depth limit whose name is `filename` and
    /// that is not excluded, in the order of the walk.
    pub fn search_in_dir(&self, root: &str, filename: &str) -> (r: Vec<String>)
        ensures
            self.root_search(root@, filename@, r.deep_view()),
            forall|i: int| 0 <= i < r.len() ==> self.found_under(root@, filename@, #[trigger] r.deep_view()[i]),
    {
        let max = self.max_depth();
        let entries = walk_entries(root, max);
        let ghost walked = walk_texts(entries@);
        let mut regular: Vec<bool> = Vec::new();
        let mut excluded: Vec<bool> = Vec::new();
        let mut i: usize = 0;
        while i < entries.len()
            invariant
                i <= entries.len(),
                max == walk_depth(self@.depth),
                walked == walk_texts(entries@),
                forall|k: int|
                    0 <= k < entries.len() ==> match #[trigger] entries@[k] {
                        Some((p, d)) => path_starts_with(p@, root@) && d <= max,
                        None => true,
                    },
                regular.len() == i,
                excluded.len() == i,
                forall|k: int|
                    0 <= k < i && (#[trigger] walked[k]) is Some ==> {
                        &&& path_starts_with(entry_path(walked[k]), root@)
                        &&& entry_depth(walked[k]) <= walk_depth(self@.depth)
                        &&& under_any(entry_path(walked[k]), self@.excluded) ==> excluded@[k]
                        &&& !excluded@[k] ==> self.passes_exclusion(entry_path(walked[k]))
                    },
            decreases entries.len() - i,
        {
            assert(walked[i as int] == match entries@[i as int] {
                Some((p, d)) => Some((p@, d)),
                None => None::<(Seq<char>, usize)>,
            });
            match &entries[i] {
                Some((path, _)) => {
                    let is_file = is_regular_file(path.as_str());
                    let name = file_name_of(path.as_str());
                    let name_matches = match &name {
                        Some(n) => text_is(n, filename),
                        None => false,
                    };
                    let exc = if is_file && name_matches {
                        self.is_excluded(path.as_str())
                    } else {
                        true
                    };
                    regular.push(is_file);
                    excluded.push(exc);
                },
                None => {
                    regular.push(false);
                    excluded.push(true);
                },
            }
            i = i + 1;
        }
        let r = keep_matches(&entries, &regular, &excluded, filename);
        proof {
            assert(self.walk_keeps(root@, walked, regular@, excluded@, filename@, r.deep_view()));
            lemma_kept_entries_origin(walked, regular@, excluded@, filename@);
            assert forall|k: int| 0 <= k < r.len() implies self.found_under(
                root@,
                filename@,
                #[trigger] r.deep_view()[k],
            ) by {
                assert(kept_from(walked, regular@, excluded@, filename@, r.deep_view()[k]));
                let j = choose|j: int|
                    0 <= j < walked.len() && #[trigger] keeps_entry(walked, regular@, excluded@, filename@, j)
                        && entry_path(walked[j]) == r.deep_view()[k];
                assert(walked[j] is Some);
            }
        }
        r
    }

    // ── Public Search Interface ──
    /// Whether a search for `name`, with the environment listing `env`, may
    /// have resolved the name to the file name `f`, collected the search
    /// roots `roots`, skipped the roots marked in `skipped`, those and only
    /// those for which the exclusion test answered that they are excluded,
    /// and found `per_root[i]` under `roots[i]` for each root it reached. A
    /// strict search reaches every root; a first-match search reaches the
    /// roots up to the first with a match, and finds nothing before it.
    pub open spec fn search_trace(
        self,
        name: Seq<char>,
        env: Seq<Seq<char>>,
        f: Seq<char>,
        roots: Seq<Seq<char>>,
        per_root: Seq<Seq<Seq<char>>>,
        skipped: Seq<bool>,
    ) -> bool {
        &&& self@.file_name_for(name, f)
        &&& exists|exe: Option<Seq<char>>, dylib: Option<Seq<char>>, os: TargetOs, keys: Seq<Seq<char>>|
            #[trigger] self.collects(env, exe, dylib, os, keys, roots)
        &&& per_root.len() <= roots.len()
        &&& skipped.len() == per_root.len()
        &&& !self@.first_only ==> per_root.len() == roots.len()
        &&& self@.first_only ==> reaches_first_match(per_root, roots.len() as int)
        &&& forall|i: int|
            0 <= i < per_root.len() ==> if #[trigger] skipped[i] {
                per_root[i].len() == 0
            } else {
                self.passes_exclusion(roots[i]) && self.root_search(roots[i], f, per_root[i])
            }
        &&& forall|i: int| 0 <= i < per_root.len() ==> self.exclusion_answer(roots[i], #[trigger] skipped[i])
        &&& forall|i: int| 0 <= i < per_root.len() && under_any(roots[i], self@.excluded) ==> #[trigger] skipped[i]
        &&& forall|i: int, j: int|
            0 <= i < per_root.len() && 0 <= j < per_root[i].len() ==> self.found_under(
                roots[i],
                f,
                #[trigger] per_root[i][j],
            )
    }

    /// Whether a search for `name`, with the environment listing `env`, may
    /// report `o`: `o` is what `search_outcome` makes of some search trace.
    pub open spec fn may_report(self, name: Seq<char>, env: Seq<Seq<char>>, o: Outcome) -> bool {
        exists|f: Seq<char>, roots: Seq<Seq<char>>, per_root: Seq<Seq<Seq<char>>>, skipped: Seq<bool>|
            #[trigger] self.search_trace(name, env, f, roots, per_root, skipped) && o == search_outcome(
                self@.first_only,
                name,
                f,
                per_root,
            )
    }

    /// Searches for a library and returns a `Result`.
    ///
    /// The roots are searched in order of priority. In first-match mode the
    /// search stops at the first root with a match and returns that root's
    /// first match; in strict mode all roots are searched.
    ///
    /// `env_paths` are the paths that the environment variables named by
    /// `env_var_names` list, in order.
    ///
    /// # Errors
    ///
    /// Returns `FindError::NotFound` if the library cannot be found.
    /// Returns `FindError::Ambiguous` if multiple candidates exist (strict mode only).
    pub fn find_result(&self, name: &str, env_paths: &Vec<String>) -> (r: Result<String, FindError>)
        ensures
            self.may_report(name@, env_paths.deep_view(), outcome(r)),
    {
        let filename = self.library_filename(name);
        let roots = self.collect_roots(env_paths);
        let ghost f = filename@;
        let ghost rv = roots.deep_view();
        let ghost mut skipped: Seq<bool> = Seq::empty();
        let mut per_root: Vec<Vec<String>> = Vec::new();
        let mut i: usize = 0;
        while i < roots.len()
            invariant_except_break
                i <= roots.len(),
                per_root.len() == i,
                self@.first_only ==> forall|k: int|
                    0 <= k < per_root.deep_view().len() ==> (#[trigger] per_root.deep_view()[k]).len() == 0,
            invariant
                per_root.len() <= roots.len(),
                f == filename@,
                rv == roots.deep_view(),
                skipped.len() == per_root.len(),
                forall|k: int|
                    0 <= k < per_root.len() ==> if #[trigger] skipped[k] {
                        per_root.deep_view()[k].len() == 0
                    } else {
                        self.passes_exclusion(rv[k]) && self.root_search(rv[k], f, per_root.deep_view()[k])
                    },
                forall|k: int| 0 <= k < per_root.len() ==> self.exclusion_answer(rv[k], #[trigger] skipped[k]),
                forall|k: int| 0 <= k < per_root.len() && under_any(rv[k], self@.excluded) ==> #[trigger] skipped[k],
                forall|k: int, j: int|
                    0 <= k < per_root.deep_view().len() && 0 <= j < per_root.deep_view()[k].len()
                        ==> self.found_under(rv[k], f, #[trigger] per_root.deep_view()[k][j]),
            ensures
                per_root.len() <= roots.len(),
                !self@.first_only ==> per_root.len() == roots.len(),
                self@.first_only ==> reaches_first_match(per_root.deep_view(), roots.len() as int),
            decreases roots.len() - i,
        {
            let excluded_root = self.is_excluded(roots[i].as_str());
            assert(self.exclusion_answer(rv[i as int], excluded_root));
            let found = if !excluded_root {
                self.search_in_dir(roots[i].as_str(), filename.as_str())
            } else {
                Vec::new()
            };
            let stop = self.first_only && found.len() > 0;
            let ghost before = per_root.deep_view();
            proof {
                skipped = skipped.push(excluded_root);
            }
            per_root.push(found);
            assert(per_root.deep_view() =~= before.push(found.deep_view()));
            assert(per_root.deep_view()[i as int] == found.deep_view());
            if stop {
                break;
            }
            i = i + 1;
        }
        let r = resolve_search(self.first_only, name, filename.as_str(), per_root);
        proof {
            assert(self.search_trace(name@, env_paths.deep_view(), f, rv, per_root.deep_view(), skipped));
        }
        r
    }

    /// Simplified search: the first match, or `None` where nothing matches.
    ///
    /// In strict mode with several matches this is the first of them.
    pub fn find(&self, name: &str, env_paths: &Vec<String>) -> (r: Option<String>)
        ensures
            exists|o: Outcome| #[trigger] self.may_report(name@, env_paths.deep_view(), o) && opt_text(r) == first_found(o),
    {
        let res = self.find_result(name, env_paths);
        first_match(res)
    }
}

} // verus!
