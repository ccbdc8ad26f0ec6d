//! Properties of the finder that hold across its operations.
use crate::builder::{candidate_roots, differs_from, opt_seq, walk_depth, BuilderView, FindLibBuilder};
use crate::naming::{default_file_name, NamingView};
use crate::paths::{path_equal, path_file_name, path_starts_with};
use crate::search::{
    conclusion, dedup_by_key, excluded_by, exclusion_covers, first_found, first_match_outcome, kept_entries,
    entry_path, keeps_entry, key_seen, lemma_first_match_at, lemma_first_match_none, not_found_message, search_outcome, under_any,
    Outcome,
};
use crate::host::os_for_target;
use crate::target_os::TargetOs;
use vstd::prelude::*;

verus! {

/// An unknown OS names library files the Linux way (`lib{name}.so`).
pub proof fn law_unknown_os_named_like_linux(name: Seq<char>)
    ensures
        default_file_name(TargetOs::Unknown, name) == default_file_name(TargetOs::Linux, name),
{
}

/// Once an OS is assumed and no custom naming is set, the file name searched
/// for is exactly that OS's default file name.
pub proof fn law_assumed_os_fixes_file_name(v: BuilderView, os: TargetOs, name: Seq<char>, f: Seq<char>)
    requires
        v.naming.view() == NamingView::OsDefault,
        v.assume_os == Some(os),
    ensures
        v.file_name_for(name, f) <==> f == default_file_name(os, name),
{
    if f == default_file_name(os, name) {
        assert(v.may_target(os) && f == default_file_name(os, name));
    }
}

/// A custom file naming (a closure, or a prefix and suffix) takes precedence
/// over the OS: assuming another OS does not change the file name searched for.
pub proof fn law_custom_naming_ignores_os(v: BuilderView, os: Option<TargetOs>, name: Seq<char>, f: Seq<char>)
    requires
        v.naming.view() != NamingView::OsDefault,
    ensures
        v.file_name_for(name, f) <==> (BuilderView { assume_os: os, ..v }).file_name_for(name, f),
{
}

/// A search that gathered matches reports ambiguity exactly when it gathered
/// two or more, and a single match is the path found.
pub proof fn law_ambiguous_iff_several(name: Seq<char>, f: Seq<char>, found: Seq<Seq<char>>)
    ensures
        conclusion(name, f, found) is Ambiguous <==> found.len() >= 2,
        found.len() == 1 ==> conclusion(name, f, found) == Outcome::Found(found[0]),
        found.len() == 0 ==> conclusion(name, f, found) is NotFound,
{
}

/// Without the default paths, the only candidate roots are the custom ones.
pub proof fn law_no_defaults_only_custom(
    v: BuilderView,
    exe_dir: Option<Seq<char>>,
    dylib_dir: Option<Seq<char>>,
    env: Seq<Seq<char>>,
    sys: Seq<Seq<char>>,
)
    requires
        !v.use_defaults,
    ensures
        candidate_roots(v, exe_dir, dylib_dir, env, sys) == v.custom_roots,
{
}

/// Whatever the paths resolve to on disk, a path that lies under an excluded
/// path is excluded.
pub proof fn law_under_excluded_is_excluded(
    p: Seq<char>,
    canonical: Option<Seq<char>>,
    excluded: Seq<Seq<char>>,
    keys: Seq<Seq<char>>,
)
    requires
        under_any(p, excluded),
        keys.len() == excluded.len(),
    ensures
        excluded_by(p, canonical, excluded, keys),
{
    let i = choose|i: int| 0 <= i < excluded.len() && #[trigger] path_starts_with(p, excluded[i]);
    assert(exclusion_covers(p, canonical, excluded[i], keys[i]));
}

/// After `remove_path(p)` every path under `p` counts as excluded, whether
/// it comes from a custom root or from a default one.
pub proof fn law_removed_path_excludes_what_lies_under_it(v: BuilderView, p: Seq<char>, q: Seq<char>)
    requires
        path_starts_with(q, p),
    ensures
        under_any(q, v.excluded.push(p)),
{
    assert(v.excluded.push(p)[v.excluded.len() as int] == p);
}

/// After `remove_path(p)` no custom root is the same path as `p`.
pub proof fn law_removed_path_leaves_custom_roots(roots: Seq<Seq<char>>, p: Seq<char>)
    ensures
        forall|i: int|
            0 <= i < roots.filter(differs_from(p)).len() ==> !path_equal(
                #[trigger] roots.filter(differs_from(p))[i],
                p,
            ),
{
    assert forall|i: int| 0 <= i < roots.filter(differs_from(p)).len() implies !path_equal(
        #[trigger] roots.filter(differs_from(p))[i],
        p,
    ) by {
        roots.lemma_filter_pred(differs_from(p), i);
    }
}

/// The kept roots and the kept keys of a deduplication go together.
pub proof fn law_dedup_kept_match_keys(roots: Seq<Seq<char>>, keys: Seq<Seq<char>>)
    requires
        keys.len() == roots.len(),
    ensures
        dedup_by_key(roots, keys).0.len() == dedup_by_key(roots, keys).1.len(),
        dedup_by_key(roots, keys).0.len() <= roots.len(),
    decreases roots.len(),
{
    if roots.len() > 0 {
        law_dedup_kept_match_keys(roots.drop_last(), keys.take(roots.len() - 1));
    }
}

/// Deduplication keeps the first root.
pub proof fn law_dedup_keeps_first(roots: Seq<Seq<char>>, keys: Seq<Seq<char>>)
    requires
        keys.len() == roots.len(),
        roots.len() > 0,
    ensures
        dedup_by_key(roots, keys).0.len() > 0,
        dedup_by_key(roots, keys).0[0] == roots[0],
{
    law_dedup_prefix(roots, keys, 1);
    let one = roots.take(1);
    let k1 = keys.take(1);
    let e = dedup_by_key(one.drop_last(), k1.take(0));
    assert(one.drop_last().len() == 0);
    assert(e.1.len() == 0);
    assert(!key_seen(e.1, k1[0]));
    assert(dedup_by_key(one, k1).0 == e.0.push(one.last()));
    assert(dedup_by_key(one, k1).0[0] == roots[0]);
}

/// Deduplicating a prefix of the roots gives a prefix of the deduplicated
/// roots: what is kept of the earlier roots does not depend on later ones.
pub proof fn law_dedup_prefix(roots: Seq<Seq<char>>, keys: Seq<Seq<char>>, n: int)
    requires
        keys.len() == roots.len(),
        0 <= n <= roots.len(),
    ensures
        dedup_by_key(roots.take(n), keys.take(n)).0.is_prefix_of(dedup_by_key(roots, keys).0),
        dedup_by_key(roots.take(n), keys.take(n)).1.is_prefix_of(dedup_by_key(roots, keys).1),
    decreases roots.len() - n,
{
    if n == roots.len() {
        assert(roots.take(n) =~= roots);
        assert(keys.take(n) =~= keys);
    } else {
        law_dedup_prefix(roots, keys, n + 1);
        let r1 = roots.take(n + 1);
        let k1 = keys.take(n + 1);
        assert(r1.drop_last() =~= roots.take(n));
        assert(k1.take(r1.len() - 1) =~= keys.take(n));
        law_dedup_kept_match_keys(roots.take(n), keys.take(n));
    }
}

/// No two roots kept by deduplication have keys that are the same path:
/// each kept key differs from every key kept before it.
pub proof fn law_dedup_keys_distinct(roots: Seq<Seq<char>>, keys: Seq<Seq<char>>)
    requires
        keys.len() == roots.len(),
    ensures
        forall|i: int, j: int|
            0 <= i < j < dedup_by_key(roots, keys).1.len() ==> !path_equal(
                #[trigger] dedup_by_key(roots, keys).1[j],
                #[trigger] dedup_by_key(roots, keys).1[i],
            ),
    decreases roots.len(),
{
    if roots.len() > 0 {
        let rest = roots.drop_last();
        let krest = keys.take(roots.len() - 1);
        law_dedup_keys_distinct(rest, krest);
        let seen = dedup_by_key(rest, krest).1;
        let key = keys[roots.len() - 1];
        if !key_seen(seen, key) {
            assert forall|i: int, j: int|
                0 <= i < j < dedup_by_key(roots, keys).1.len() implies !path_equal(
                #[trigger] dedup_by_key(roots, keys).1[j],
                #[trigger] dedup_by_key(roots, keys).1[i],
            ) by {
                if j == seen.len() {
                    assert(dedup_by_key(roots, keys).1[i] == seen[i]);
                    assert(!path_equal(key, seen[i]));
                } else {
                    assert(dedup_by_key(roots, keys).1[i] == seen[i]);
                    assert(dedup_by_key(roots, keys).1[j] == seen[j]);
                }
            }
        }
    }
}

/// The custom roots come first: what deduplication keeps of them, in their
/// order, opens the list of search roots.
pub proof fn law_custom_roots_first(
    v: BuilderView,
    exe_dir: Option<Seq<char>>,
    dylib_dir: Option<Seq<char>>,
    env: Seq<Seq<char>>,
    sys: Seq<Seq<char>>,
    keys: Seq<Seq<char>>,
)
    requires
        keys.len() == candidate_roots(v, exe_dir, dylib_dir, env, sys).len(),
    ensures
        dedup_by_key(v.custom_roots, keys.take(v.custom_roots.len() as int)).0.is_prefix_of(
            dedup_by_key(candidate_roots(v, exe_dir, dylib_dir, env, sys), keys).0,
        ),
{
    let cands = candidate_roots(v, exe_dir, dylib_dir, env, sys);
    let n = v.custom_roots.len() as int;
    assert(cands.take(n) =~= v.custom_roots);
    law_dedup_prefix(cands, keys, n);
}

/// Every path in a sequence of per-root matches that are all matches for
/// `f` is itself a match for `f` after flattening.
proof fn lemma_flatten_matches(v: BuilderView, f: Seq<char>, s: Seq<Seq<Seq<char>>>)
    requires
        forall|i: int, j: int| 0 <= i < s.len() && 0 <= j < s[i].len() ==> v.is_match(#[trigger] s[i][j], f),
    ensures
        forall|k: int| 0 <= k < s.flatten().len() ==> v.is_match(#[trigger] s.flatten()[k], f),
    decreases s.len(),
{
    if s.len() > 0 {
        let t = s.drop_first();
        assert forall|i: int, j: int| 0 <= i < t.len() && 0 <= j < t[i].len() implies v.is_match(
            #[trigger] t[i][j],
            f,
        ) by {
            assert(t[i] == s[i + 1]);
        }
        lemma_flatten_matches(v, f, t);
        assert forall|k: int| 0 <= k < s.flatten().len() implies v.is_match(#[trigger] s.flatten()[k], f) by {
            assert(s.flatten() == s.first() + t.flatten());
            if k < s.first().len() {
                assert(s.flatten()[k] == s[0][k]);
            } else {
                assert(s.flatten()[k] == t.flatten()[k - s.first().len()]);
            }
        }
    }
}

/// A first-match search reports a match found under some root, or that
/// nothing was found; never ambiguity.
proof fn lemma_first_match_outcome_shape(v: BuilderView, name: Seq<char>, f: Seq<char>, s: Seq<Seq<Seq<char>>>)
    requires
        forall|i: int, j: int| 0 <= i < s.len() && 0 <= j < s[i].len() ==> v.is_match(#[trigger] s[i][j], f),
    ensures
        match first_match_outcome(name, f, s) {
            Outcome::Found(p) => v.is_match(p, f),
            Outcome::NotFound(m) => m == not_found_message(name, f),
            Outcome::Ambiguous(_) => false,
        },
    decreases s.len(),
{
    if s.len() > 0 && s[0].len() == 0 {
        let t = s.drop_first();
        assert forall|i: int, j: int| 0 <= i < t.len() && 0 <= j < t[i].len() implies v.is_match(
            #[trigger] t[i][j],
            f,
        ) by {
            assert(t[i] == s[i + 1]);
        }
        lemma_first_match_outcome_shape(v, name, f, t);
    } else if s.len() > 0 {
        assert(v.is_match(s[0][0], f));
    }
}

/// What a search reports is consistent with the file name it searched for:
/// a path found, and every path of an ambiguity, is a match for that file
/// name (its final component, under no excluded path); a failure's message
/// names the library and that file name; and ambiguity comes only in strict
/// mode, with two paths or more.
pub proof fn law_reports_are_matches(b: FindLibBuilder, name: Seq<char>, env: Seq<Seq<char>>, o: Outcome)
    requires
        b.may_report(name, env, o),
    ensures
        exists|f: Seq<char>| b@.file_name_for(name, f) && #[trigger] b@.reports(name, f, o),
{
    let (f, roots, per_root, skipped) = choose|
        f: Seq<char>,
        roots: Seq<Seq<char>>,
        per_root: Seq<Seq<Seq<char>>>,
        skipped: Seq<bool>,
    | #[trigger] b.search_trace(name, env, f, roots, per_root, skipped) && o == search_outcome(
            b@.first_only,
            name,
            f,
            per_root,
        );
    assert forall|i: int, j: int| 0 <= i < per_root.len() && 0 <= j < per_root[i].len() implies b@.is_match(
        #[trigger] per_root[i][j],
        f,
    ) by {
        assert(b.found_under(roots[i], f, per_root[i][j]));
    }
    if b@.first_only {
        lemma_first_match_outcome_shape(b@, name, f, per_root);
    } else {
        lemma_flatten_matches(b@, f, per_root);
    }
    assert(b@.reports(name, f, o));
}

/// In first-match mode a search never reports ambiguity.
pub proof fn law_first_match_never_ambiguous(b: FindLibBuilder, name: Seq<char>, env: Seq<Seq<char>>, o: Outcome)
    requires
        b@.first_only,
        b.may_report(name, env, o),
    ensures
        !(o is Ambiguous),
{
    law_reports_are_matches(b, name, env, o);
}

/// An exclusion is never lifted: once `e` is excluded, every later
/// configuration whose exclusions extend the earlier ones (every builder
/// call keeps the exclusions, and `remove_path` only adds to them, so
/// `add_path(e)` does not undo them) still excludes everything under `e`.
pub proof fn law_exclusion_persists(v1: BuilderView, v2: BuilderView, k: int, q: Seq<char>)
    requires
        0 <= k < v1.excluded.len(),
        v1.excluded.is_prefix_of(v2.excluded),
        path_starts_with(q, v1.excluded[k]),
    ensures
        under_any(q, v2.excluded),
{
    assert(v2.excluded[k] == v1.excluded[k]);
}

/// Where nothing is found before root `k` and something at root `k`, a
/// strict search's matches start with that root's first match.
proof fn lemma_flatten_first(s: Seq<Seq<Seq<char>>>, k: int)
    requires
        0 <= k < s.len(),
        forall|j: int| 0 <= j < k ==> (#[trigger] s[j]).len() == 0,
        s[k].len() > 0,
    ensures
        s.flatten().len() > 0,
        s.flatten()[0] == s[k][0],
    decreases k,
{
    if k == 0 {
        assert(s.flatten() == s.first() + s.drop_first().flatten());
    } else {
        let t = s.drop_first();
        assert forall|j: int| 0 <= j < k - 1 implies (#[trigger] t[j]).len() == 0 by {
            assert(t[j] == s[j + 1]);
        }
        lemma_flatten_first(t, k - 1);
        assert(s[0].len() == 0);
        assert(s.flatten() =~= t.flatten());
    }
}

/// Where nothing is found under any root, a strict search gathers nothing.
proof fn lemma_flatten_none(s: Seq<Seq<Seq<char>>>)
    requires
        forall|j: int| 0 <= j < s.len() ==> (#[trigger] s[j]).len() == 0,
    ensures
        s.flatten().len() == 0,
    decreases s.len(),
{
    if s.len() > 0 {
        let t = s.drop_first();
        assert forall|j: int| 0 <= j < t.len() implies (#[trigger] t[j]).len() == 0 by {
            assert(t[j] == s[j + 1]);
        }
        lemma_flatten_none(t);
        assert(s.flatten() =~= s.first() + t.flatten());
    }
}

/// The first root with a match, if any.
proof fn lemma_first_nonempty(s: Seq<Seq<Seq<char>>>) -> (k: int)
    ensures
        0 <= k <= s.len(),
        forall|j: int| 0 <= j < k ==> (#[trigger] s[j]).len() == 0,
        k < s.len() ==> s[k].len() > 0,
    decreases s.len(),
{
    if s.len() == 0 {
        0
    } else if s[0].len() > 0 {
        0
    } else {
        let t = s.drop_first();
        let k = lemma_first_nonempty(t);
        assert forall|j: int| 0 <= j < k + 1 implies (#[trigger] s[j]).len() == 0 by {
            if j > 0 {
                assert(s[j] == t[j - 1]);
            }
        }
        k + 1
    }
}

/// On the same matches under the same roots, strict mode agrees with
/// first-match mode: both find nothing together; a single strict match is
/// the first match; and an ambiguity starts with the first match.
pub proof fn law_strict_agrees_with_first_match(name: Seq<char>, f: Seq<char>, s: Seq<Seq<Seq<char>>>)
    ensures
        search_outcome(false, name, f, s) is NotFound <==> search_outcome(true, name, f, s) is NotFound,
        search_outcome(false, name, f, s) matches Outcome::Found(p) ==> search_outcome(true, name, f, s)
            == Outcome::Found(p),
        search_outcome(false, name, f, s) matches Outcome::Ambiguous(v) ==> search_outcome(true, name, f, s)
            == Outcome::Found(v[0]),
{
    let k = lemma_first_nonempty(s);
    if k < s.len() {
        lemma_flatten_first(s, k);
        lemma_first_match_at(name, f, s, k);
    } else {
        lemma_flatten_none(s);
        lemma_first_match_none(name, f, s);
    }
}

/// Roots of lower priority cannot change a first match: where the matches
/// under the first roots already give a first match, appending more roots
/// (with whatever they hold) gives the same one.
pub proof fn law_first_match_stable_under_more_roots(
    name: Seq<char>,
    f: Seq<char>,
    s: Seq<Seq<Seq<char>>>,
    more: Seq<Seq<Seq<char>>>,
)
    requires
        first_match_outcome(name, f, s) is Found,
    ensures
        first_match_outcome(name, f, s + more) == first_match_outcome(name, f, s),
{
    let k = lemma_first_nonempty(s);
    if k == s.len() {
        lemma_first_match_none(name, f, s);
    } else {
        lemma_first_match_at(name, f, s, k);
        let t = s + more;
        assert forall|j: int| 0 <= j < k implies (#[trigger] t[j]).len() == 0 by {
            assert(t[j] == s[j]);
        }
        assert(t[k] == s[k]);
        lemma_first_match_at(name, f, t, k);
    }
}

/// Without the default paths, `add_path(q)` appends `q` as the candidate
/// root of lowest priority; so (with `law_dedup_prefix`) the roots searched
/// before are searched first, in the same order.
pub proof fn law_added_path_has_lowest_priority(
    v: BuilderView,
    q: Seq<char>,
    exe_dir: Option<Seq<char>>,
    dylib_dir: Option<Seq<char>>,
    env: Seq<Seq<char>>,
    sys: Seq<Seq<char>>,
)
    requires
        !v.use_defaults,
    ensures
        candidate_roots(BuilderView { custom_roots: v.custom_roots.push(q), ..v }, exe_dir, dylib_dir, env, sys)
            == candidate_roots(v, exe_dir, dylib_dir, env, sys).push(q),
{
}

/// More exclusion never creates a match: where the exclusion test excludes
/// at least what it excluded before, a walk keeps no more paths, and none
/// where it kept none.
pub proof fn law_more_exclusion_keeps_no_more(
    entries: Seq<Option<(Seq<char>, usize)>>,
    regular: Seq<bool>,
    exc1: Seq<bool>,
    exc2: Seq<bool>,
    f: Seq<char>,
)
    requires
        regular.len() == entries.len(),
        exc1.len() == entries.len(),
        exc2.len() == entries.len(),
        forall|i: int| 0 <= i < entries.len() && #[trigger] exc1[i] ==> exc2[i],
    ensures
        kept_entries(entries, regular, exc2, f).len() <= kept_entries(entries, regular, exc1, f).len(),
    decreases entries.len(),
{
    if entries.len() > 0 {
        let n = entries.len() - 1;
        law_more_exclusion_keeps_no_more(entries.drop_last(), regular.take(n), exc1.take(n), exc2.take(n), f);
    }
}

/// Adding an exclusion never turns a non-match into a match, and
/// `remove_path` keeps only custom roots that were there before.
pub proof fn law_remove_path_adds_no_match(v: BuilderView, p: Seq<char>, q: Seq<char>, f: Seq<char>)
    ensures
        (BuilderView { excluded: v.excluded.push(p), ..v }).is_match(q, f) ==> v.is_match(q, f),
        forall|x: Seq<char>|
            #[trigger] v.custom_roots.filter(differs_from(p)).contains(x) ==> v.custom_roots.contains(x),
{
    if (BuilderView { excluded: v.excluded.push(p), ..v }).is_match(q, f) && under_any(q, v.excluded) {
        let i = choose|i: int| 0 <= i < v.excluded.len() && #[trigger] path_starts_with(q, v.excluded[i]);
        assert(v.excluded.push(p)[i] == v.excluded[i]);
    }
    assert forall|x: Seq<char>| #[trigger] v.custom_roots.filter(differs_from(p)).contains(x) implies v.custom_roots.contains(x) by {
        v.custom_roots.lemma_filter_contains_rev(differs_from(p), x);
    }
}

/// A path that a search reports was found under one of the roots that
/// collecting the roots gives, one that the exclusion test passed: it lies under that root, has the file name
/// searched for, lies under no excluded path, and may pass the exclusion
/// test.
pub proof fn law_reported_paths_lie_under_searched_roots(
    b: FindLibBuilder,
    name: Seq<char>,
    env: Seq<Seq<char>>,
    o: Outcome,
    p: Seq<char>,
)
    requires
        b.may_report(name, env, o),
        first_found(o) == Some(p),
    ensures
        exists|f: Seq<char>, roots: Seq<Seq<char>>, i: int| {
            &&& b@.file_name_for(name, f)
            &&& exists|exe: Option<Seq<char>>, dylib: Option<Seq<char>>, os: TargetOs, keys: Seq<Seq<char>>|
                #[trigger] b.collects(env, exe, dylib, os, keys, roots)
            &&& 0 <= i < roots.len()
            &&& b.passes_exclusion(roots[i])
            &&& #[trigger] b.found_under(roots[i], f, p)
        },
{
    let (f, roots, per_root, skipped) = choose|
        f: Seq<char>,
        roots: Seq<Seq<char>>,
        per_root: Seq<Seq<Seq<char>>>,
        skipped: Seq<bool>,
    | #[trigger] b.search_trace(name, env, f, roots, per_root, skipped) && o == search_outcome(
            b@.first_only,
            name,
            f,
            per_root,
        );
    let k = lemma_first_nonempty(per_root);
    if k < per_root.len() {
        if b@.first_only {
            lemma_first_match_at(name, f, per_root, k);
        } else {
            lemma_flatten_first(per_root, k);
            if per_root.flatten().len() == 1 {
                assert(o == Outcome::Found(per_root.flatten()[0]));
            }
        }
        assert(p == per_root[k][0]);
        assert(b.found_under(roots[k], f, per_root[k][0]));
        assert(!skipped[k]);
        assert(b.passes_exclusion(roots[k]));
    } else {
        if b@.first_only {
            lemma_first_match_none(name, f, per_root);
        } else {
            lemma_flatten_none(per_root);
        }
    }
}

/// A deeper (or unlimited) search never loses a match: whatever a search
/// of a root may find with a depth limit, a search with a limit at least as
/// deep, and otherwise the same configuration, may find from the same walk
/// entries and file-system answers.
pub proof fn law_deeper_search_keeps_matches(
    b1: FindLibBuilder,
    b2: FindLibBuilder,
    root: Seq<char>,
    f: Seq<char>,
    found: Seq<Seq<char>>,
)
    requires
        b2@ == (BuilderView { depth: b2@.depth, ..b1@ }),
        walk_depth(b1@.depth) <= walk_depth(b2@.depth),
        b1.root_search(root, f, found),
    ensures
        b2.root_search(root, f, found),
{
    let (entries, regular, excluded) = choose|
        entries: Seq<Option<(Seq<char>, usize)>>,
        regular: Seq<bool>,
        excluded: Seq<bool>,
    | #[trigger] b1.walk_keeps(root, entries, regular, excluded, f, found);
    assert forall|p: Seq<char>| b1.passes_exclusion(p) implies b2.passes_exclusion(p) by {
        let (c, ks) = choose|c: Option<Seq<char>>, ks: Seq<Seq<char>>|
            ks.len() == b1@.excluded.len() && !#[trigger] excluded_by(p, c, b1@.excluded, ks);
        assert(ks.len() == b2@.excluded.len() && !excluded_by(p, c, b2@.excluded, ks));
    }
    assert(b2.walk_keeps(root, entries, regular, excluded, f, found));
}

/// The OS of a compilation target is decided by the target's OS name alone,
/// whatever its environment (`gnu`, `msvc`, `musl`, ...), with one
/// exception: a `linux` target whose environment is `android` or
/// `androideabi` is Android, which counts as an unknown OS.
pub proof fn law_target_os_follows_os_name(os: Seq<char>, env: Seq<char>)
    ensures
        os_for_target("windows"@, env) == TargetOs::Windows,
        os_for_target("darwin"@, env) == TargetOs::Macos,
        os_for_target("macosx"@, env) == TargetOs::Macos,
        env != "android"@ && env != "androideabi"@ ==> os_for_target("linux"@, env) == TargetOs::Linux,
        os_for_target("linux"@, "android"@) == TargetOs::Unknown,
        os_for_target("linux"@, "androideabi"@) == TargetOs::Unknown,
        os != "linux"@ && os != "darwin"@ && os != "macosx"@ && os != "windows"@ ==> os_for_target(os, env)
            == TargetOs::Unknown,
{
    reveal_strlit("windows");
    reveal_strlit("darwin");
    reveal_strlit("macosx");
    reveal_strlit("linux");
    reveal_strlit("android");
    reveal_strlit("androideabi");
    assert("windows"@ =~= seq!['w', 'i', 'n', 'd', 'o', 'w', 's']);
    assert("darwin"@ =~= seq!['d', 'a', 'r', 'w', 'i', 'n']);
    assert("macosx"@ =~= seq!['m', 'a', 'c', 'o', 's', 'x']);
    assert("linux"@ =~= seq!['l', 'i', 'n', 'u', 'x']);
    assert("android"@ =~= seq!['a', 'n', 'd', 'r', 'o', 'i', 'd']);
    assert("androideabi"@ =~= seq!['a', 'n', 'd', 'r', 'o', 'i', 'd', 'e', 'a', 'b', 'i']);
    assert(!("windows"@ =~= seq!['l', 'i', 'n', 'u', 'x']));
    assert(!("darwin"@ =~= seq!['l', 'i', 'n', 'u', 'x']));
    assert(!("macosx"@ =~= seq!['l', 'i', 'n', 'u', 'x']));
    assert(!("windows"@ =~= seq!['d', 'a', 'r', 'w', 'i', 'n']));
    assert(!("windows"@ =~= seq!['m', 'a', 'c', 'o', 's', 'x']));
    assert(!("android"@ =~= seq!['a', 'n', 'd', 'r', 'o', 'i', 'd', 'e', 'a', 'b', 'i']));
}

/// With the default paths on, the candidate roots come in this order: the
/// custom roots; the executable's directory, where there is one; the current
/// library's directory, where there is one; the paths the environment lists,
/// in their order; and the system directories last. So every path from the
/// environment outranks every system directory.
pub proof fn law_candidate_order(
    v: BuilderView,
    exe_dir: Option<Seq<char>>,
    dylib_dir: Option<Seq<char>>,
    env: Seq<Seq<char>>,
    sys: Seq<Seq<char>>,
)
    requires
        v.use_defaults,
    ensures
        candidate_roots(v, exe_dir, dylib_dir, env, sys).len() == v.custom_roots.len() + (if exe_dir is Some {
            1int
        } else {
            0int
        }) + (if dylib_dir is Some {
            1int
        } else {
            0int
        }) + env.len() + sys.len(),
        forall|i: int|
            0 <= i < v.custom_roots.len() ==> #[trigger] candidate_roots(v, exe_dir, dylib_dir, env, sys)[i]
                == v.custom_roots[i],
        exe_dir matches Some(x) ==> candidate_roots(v, exe_dir, dylib_dir, env, sys)[v.custom_roots.len() as int]
            == x,
        dylib_dir matches Some(y) ==> candidate_roots(v, exe_dir, dylib_dir, env, sys)[v.custom_roots.len() + (
        if exe_dir is Some {
            1int
        } else {
            0int
        })] == y,
        forall|i: int|
            0 <= i < env.len() ==> candidate_roots(v, exe_dir, dylib_dir, env, sys)[v.custom_roots.len()
                + (if exe_dir is Some {
                1int
            } else {
                0int
            }) + (if dylib_dir is Some {
                1int
            } else {
                0int
            }) + i] == #[trigger] env[i],
        forall|j: int|
            0 <= j < sys.len() ==> candidate_roots(v, exe_dir, dylib_dir, env, sys)[v.custom_roots.len()
                + (if exe_dir is Some {
                1int
            } else {
                0int
            }) + (if dylib_dir is Some {
                1int
            } else {
                0int
            }) + env.len() + j] == #[trigger] sys[j],
{
    let c = candidate_roots(v, exe_dir, dylib_dir, env, sys);
    let a = v.custom_roots + opt_seq(exe_dir);
    let b = a + opt_seq(dylib_dir);
    let e = b + env;
    assert(c == e + sys);
    assert(a.len() == v.custom_roots.len() + (if exe_dir is Some { 1int } else { 0int }));
    assert(b.len() == a.len() + (if dylib_dir is Some { 1int } else { 0int }));
    assert forall|i: int| 0 <= i < v.custom_roots.len() implies #[trigger] c[i] == v.custom_roots[i] by {
        assert(c[i] == e[i] && e[i] == b[i] && b[i] == a[i]);
    }
    if let Some(x) = exe_dir {
        let m = v.custom_roots.len() as int;
        assert(c[m] == e[m] && e[m] == b[m] && b[m] == a[m]);
    }
    if let Some(y) = dylib_dir {
        let m = a.len() as int;
        assert(c[m] == e[m] && e[m] == b[m]);
    }
    assert forall|i: int| 0 <= i < env.len() implies c[b.len() + i] == #[trigger] env[i] by {
        assert(c[b.len() + i] == e[b.len() + i]);
    }
}

/// Where no OS is assumed and no custom naming is set, the file name searched
/// for is the default file name of the OS the crate was compiled for.
pub proof fn law_no_assumed_os_names_for_host(v: BuilderView, name: Seq<char>, f: Seq<char>)
    requires
        v.naming.view() == NamingView::OsDefault,
        v.assume_os is None,
    ensures
        v.file_name_for(name, f) <==> f == default_file_name(v.host, name),
{
    if f == default_file_name(v.host, name) {
        assert(v.may_target(v.host) && f == default_file_name(v.host, name));
    }
}

/// A search skips a root only where the exclusion test excludes it, and
/// searches every other root it reaches: a skipped root is covered by an
/// excluded path for some answers of the file system, and an unskipped one
/// holds what a search of it finds. So with nothing excluded no root is
/// skipped, not even one that lies under an earlier root, and a strict
/// search searches every root.
pub proof fn law_only_excluded_roots_are_skipped(
    b: FindLibBuilder,
    name: Seq<char>,
    env: Seq<Seq<char>>,
    f: Seq<char>,
    roots: Seq<Seq<char>>,
    per_root: Seq<Seq<Seq<char>>>,
    skipped: Seq<bool>,
)
    requires
        b.search_trace(name, env, f, roots, per_root, skipped),
    ensures
        forall|i: int|
            0 <= i < per_root.len() && #[trigger] skipped[i] ==> exists|c: Option<Seq<char>>, keys: Seq<Seq<char>>|
                keys.len() == b@.excluded.len() && #[trigger] excluded_by(roots[i], c, b@.excluded, keys),
        forall|i: int|
            0 <= i < per_root.len() && !#[trigger] skipped[i] ==> b.root_search(roots[i], f, per_root[i]),
        b@.excluded.len() == 0 ==> forall|i: int| 0 <= i < per_root.len() ==> !#[trigger] skipped[i],
        b@.excluded.len() == 0 && !b@.first_only ==> per_root.len() == roots.len() && forall|i: int|
            0 <= i < roots.len() ==> #[trigger] b.root_search(roots[i], f, per_root[i]),
{
    assert forall|i: int| 0 <= i < per_root.len() && #[trigger] skipped[i] implies exists|
        c: Option<Seq<char>>,
        keys: Seq<Seq<char>>,
    | keys.len() == b@.excluded.len() && #[trigger] excluded_by(roots[i], c, b@.excluded, keys) by {
        assert(b.exclusion_answer(roots[i], skipped[i]));
    }
    if b@.excluded.len() == 0 {
        assert forall|i: int| 0 <= i < per_root.len() implies !#[trigger] skipped[i] by {
            assert(b.exclusion_answer(roots[i], skipped[i]));
            let (c, keys) = choose|c: Option<Seq<char>>, keys: Seq<Seq<char>>|
                keys.len() == b@.excluded.len() && skipped[i] == #[trigger] excluded_by(roots[i], c, b@.excluded, keys);
            assert(!excluded_by(roots[i], c, b@.excluded, keys));
        }
        assert forall|i: int| 0 <= i < per_root.len() implies #[trigger] b.root_search(roots[i], f, per_root[i]) by {
            assert(!skipped[i]);
        }
    }
}

/// What a walk keeps misses none of its entries that qualify: every entry
/// that is a readable regular file named `f` and that the exclusion test
/// passed is kept.
proof fn lemma_kept_entries_complete(
    entries: Seq<Option<(Seq<char>, usize)>>,
    regular: Seq<bool>,
    excluded: Seq<bool>,
    f: Seq<char>,
    i: int,
)
    requires
        regular.len() == entries.len(),
        excluded.len() == entries.len(),
        0 <= i < entries.len(),
        keeps_entry(entries, regular, excluded, f, i),
    ensures
        kept_entries(entries, regular, excluded, f).contains(entry_path(entries[i])),
    decreases entries.len(),
{
    let n = entries.len() - 1;
    let rest = kept_entries(entries.drop_last(), regular.take(n), excluded.take(n), f);
    if i < n {
        assert(keeps_entry(entries.drop_last(), regular.take(n), excluded.take(n), f, i));
        lemma_kept_entries_complete(entries.drop_last(), regular.take(n), excluded.take(n), f, i);
        let k = choose|k: int| 0 <= k < rest.len() && rest[k] == entry_path(entries.drop_last()[i]);
        assert(kept_entries(entries, regular, excluded, f)[k] == rest[k]);
    } else {
        let all = kept_entries(entries, regular, excluded, f);
        assert(all[all.len() - 1] == entry_path(entries[n]));
    }
}

/// A search of a root misses no match that its walk met: every entry of the
/// walk, within the depth limit, that is a regular file named `f` and that
/// the exclusion test passed is among the paths found.
pub proof fn law_walk_keeps_every_match(
    b: FindLibBuilder,
    root: Seq<char>,
    entries: Seq<Option<(Seq<char>, usize)>>,
    regular: Seq<bool>,
    excluded: Seq<bool>,
    f: Seq<char>,
    found: Seq<Seq<char>>,
)
    requires
        b.walk_keeps(root, entries, regular, excluded, f, found),
    ensures
        forall|i: int|
            0 <= i < entries.len() && (#[trigger] entries[i]) is Some && regular[i] && !excluded[i]
                && path_file_name(entry_path(entries[i])) == Some(f) ==> found.contains(entry_path(entries[i])),
{
    assert forall|i: int|
        0 <= i < entries.len() && (#[trigger] entries[i]) is Some && regular[i] && !excluded[i]
            && path_file_name(entry_path(entries[i])) == Some(f) implies found.contains(entry_path(entries[i])) by {
        assert(keeps_entry(entries, regular, excluded, f, i));
        lemma_kept_entries_complete(entries, regular, excluded, f, i);
    }
}

} // verus!
