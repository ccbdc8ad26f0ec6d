//! The decisions of a search, on values that the file system has already
//! given: which search roots remain once duplicates are dropped, which
//! paths an exclusion covers, and what a search reports.
use crate::paths::{file_name_of, path_equal, path_file_name, path_has_prefix, path_starts_with, same_path};
use crate::target_os::text_is;
use vstd::prelude::*;

verus! {

/// Errors that can occur when searching for a library.
#[derive(Debug)]
pub enum FindError {
    /// Library was not found in any search path.
    NotFound(String),
    /// Multiple candidates were found (only returned in strict mode).
    Ambiguous(Vec<String>),
}

/// What a search reports, by the text of its paths and message.
pub enum Outcome {
    Found(Seq<char>),
    NotFound(Seq<char>),
    Ambiguous(Seq<Seq<char>>),
}

/// The outcome that a search's result stands for.
pub open spec fn outcome(r: Result<String, FindError>) -> Outcome {
    match r {
        Ok(p) => Outcome::Found(p@),
        Err(FindError::NotFound(m)) => Outcome::NotFound(m@),
        Err(FindError::Ambiguous(v)) => Outcome::Ambiguous(v.deep_view()),
    }
}

/// The message of a search for `name`, resolved to `file_name`, that found
/// nothing.
pub open spec fn not_found_message(name: Seq<char>, file_name: Seq<char>) -> Seq<char> {
    "library '"@ + name + "' (resolved to '"@ + file_name + "') not found in any search path"@
}

/// What a search reports once it has gathered `found`: nothing found is
/// `NotFound`, one match is that match, more are `Ambiguous`.
pub open spec fn conclusion(name: Seq<char>, file_name: Seq<char>, found: Seq<Seq<char>>) -> Outcome {
    if found.len() == 0 {
        Outcome::NotFound(not_found_message(name, file_name))
    } else if found.len() == 1 {
        Outcome::Found(found[0])
    } else {
        Outcome::Ambiguous(found)
    }
}

/// What a first-match search reports when it found `per_root[i]` under
/// its `i`-th root: the first match under the first root with any, else
/// `NotFound`.
pub open spec fn first_match_outcome(name: Seq<char>, file_name: Seq<char>, per_root: Seq<Seq<Seq<char>>>) -> Outcome
    decreases per_root.len(),
{
    if per_root.len() == 0 {
        Outcome::NotFound(not_found_message(name, file_name))
    } else if per_root[0].len() > 0 {
        Outcome::Found(per_root[0][0])
    } else {
        first_match_outcome(name, file_name, per_root.drop_first())
    }
}

/// What a search reports when it found `per_root[i]` under its `i`-th root:
/// in first-match mode see `first_match_outcome`; in strict mode, the
/// `conclusion` of all matches, in the order of the roots.
pub open spec fn search_outcome(
    first_only: bool,
    name: Seq<char>,
    file_name: Seq<char>,
    per_root: Seq<Seq<Seq<char>>>,
) -> Outcome {
    if first_only {
        first_match_outcome(name, file_name, per_root)
    } else {
        conclusion(name, file_name, per_root.flatten())
    }
}

/// The first path an outcome names: the path found, or the first of an
/// ambiguity; `None` where nothing was found.
pub open spec fn first_found(o: Outcome) -> Option<Seq<char>> {
    match o {
        Outcome::Found(p) => Some(p),
        Outcome::Ambiguous(v) => if v.len() > 0 {
            Some(v[0])
        } else {
            None
        },
        Outcome::NotFound(_) => None,
    }
}

/// The first path a search's result names: the path found, or the first
/// path of an ambiguity; `None` where nothing was found.
pub fn first_match(res: Result<String, FindError>) -> (r: Option<String>)
    ensures
        opt_text(r) == first_found(outcome(res)),
{
    match res {
        Ok(p) => Some(p),
        Err(FindError::Ambiguous(v)) => {
            let mut v = v;
            if v.len() > 0 {
                let p = v.swap_remove(0);
                Some(p)
            } else {
                None
            }
        },
        Err(FindError::NotFound(_)) => None,
    }
}

/// Reports the end of a search for `name`, resolved to `file_name`, that
/// gathered `found` (see `conclusion`).
pub fn conclude(name: &str, file_name: &str, found: Vec<String>) -> (r: Result<String, FindError>)
    ensures
        outcome(r) == conclusion(name@, file_name@, found.deep_view()),
{
    if found.len() == 0 {
        let mut m: String = "library '".to_owned();
        m.append(name);
        m.append("' (resolved to '");
        m.append(file_name);
        m.append("') not found in any search path");
        Err(FindError::NotFound(m))
    } else if found.len() == 1 {
        let mut found = found;
        let p = found.swap_remove(0);
        Ok(p)
    } else {
        Err(FindError::Ambiguous(found))
    }
}

/// Appends copies of the strings of `src` to `dst`.
pub(crate) fn append_all(dst: &mut Vec<String>, src: &Vec<String>)
    ensures
        final(dst).deep_view() == old(dst).deep_view() + src.deep_view(),
{
    let ghost start = dst.deep_view();
    let mut i: usize = 0;
    while i < src.len()
        invariant
            i <= src.len(),
            dst.deep_view() == start + src.deep_view().take(i as int),
        decreases src.len() - i,
    {
        let ghost before = dst.deep_view();
        let item = src[i].clone();
        dst.push(item);
        assert(dst.deep_view() =~= before.push(src[i as int]@));
        assert(src.deep_view().take(i + 1) =~= src.deep_view().take(i as int).push(src[i as int]@));
        assert(dst.deep_view() =~= start + src.deep_view().take(i + 1));
        i = i + 1;
    }
    assert(src.deep_view().take(src.len() as int) =~= src.deep_view());
}

/// In first-match mode, where nothing was found under the first `k` roots
/// and something under root `k`, the first match there is the path found.
pub proof fn lemma_first_match_at(name: Seq<char>, f: Seq<char>, s: Seq<Seq<Seq<char>>>, k: int)
    requires
        0 <= k < s.len(),
        forall|j: int| 0 <= j < k ==> (#[trigger] s[j]).len() == 0,
        s[k].len() > 0,
    ensures
        first_match_outcome(name, f, s) == Outcome::Found(s[k][0]),
    decreases k,
{
    if k > 0 {
        let t = s.drop_first();
        assert forall|j: int| 0 <= j < k - 1 implies (#[trigger] t[j]).len() == 0 by {
            assert(t[j] == s[j + 1]);
        }
        lemma_first_match_at(name, f, t, k - 1);
    }
}

/// In first-match mode, where nothing was found under any root, the search
/// reports that nothing was found.
pub proof fn lemma_first_match_none(name: Seq<char>, f: Seq<char>, s: Seq<Seq<Seq<char>>>)
    requires
        forall|j: int| 0 <= j < s.len() ==> (#[trigger] s[j]).len() == 0,
    ensures
        first_match_outcome(name, f, s) == Outcome::NotFound(not_found_message(name, f)),
    decreases s.len(),
{
    if s.len() > 0 {
        let t = s.drop_first();
        assert forall|j: int| 0 <= j < t.len() implies (#[trigger] t[j]).len() == 0 by {
            assert(t[j] == s[j + 1]);
        }
        lemma_first_match_none(name, f, t);
    }
}

/// Reports what a search for `name`, resolved to `file_name`, found when
/// it found `per_root[i]` under its `i`-th root (see `search_outcome`).
pub fn resolve_search(
    first_only: bool,
    name: &str,
    file_name: &str,
    per_root: Vec<Vec<String>>,
) -> (r: Result<String, FindError>)
    ensures
        outcome(r) == search_outcome(first_only, name@, file_name@, per_root.deep_view()),
{
    let ghost s = per_root.deep_view();
    if first_only {
        let mut i: usize = 0;
        while i < per_root.len()
            invariant
                i <= per_root.len(),
                first_only,
                s == per_root.deep_view(),
                forall|j: int| 0 <= j < i ==> (#[trigger] s[j]).len() == 0,
            decreases per_root.len() - i,
        {
            if per_root[i].len() > 0 {
                let p = per_root[i][0].clone();
                proof {
                    assert(s[i as int] == per_root[i as int].deep_view());
                    assert(s[i as int][0] == p@);
                    lemma_first_match_at(name@, file_name@, s, i as int);
                }
                return Ok(p);
            }
            i = i + 1;
        }
        proof {
            lemma_first_match_none(name@, file_name@, s);
        }
        conclude(name, file_name, Vec::new())
    } else {
        let mut all: Vec<String> = Vec::new();
        let mut i: usize = 0;
        while i < per_root.len()
            invariant
                i <= per_root.len(),
                s == per_root.deep_view(),
                all.deep_view() == s.take(i as int).flatten(),
            decreases per_root.len() - i,
        {
            proof {
                s.take(i as int).lemma_flatten_push(s[i as int]);
                assert(s.take(i + 1) =~= s.take(i as int).push(s[i as int]));
            }
            append_all(&mut all, &per_root[i]);
            i = i + 1;
        }
        assert(s.take(per_root.len() as int) =~= s);
        conclude(name, file_name, all)
    }
}

/// The paths and depths of a walk's entries, by their text.
pub open spec fn walk_texts(entries: Seq<Option<(String, usize)>>) -> Seq<Option<(Seq<char>, usize)>> {
    entries.map_values(
        |e: Option<(String, usize)>|
            match e {
                Some((p, d)) => Some((p@, d)),
                None => None,
            },
    )
}

/// The path of a walk entry (nothing for an error).
pub open spec fn entry_path(e: Option<(Seq<char>, usize)>) -> Seq<char> {
    match e {
        Some((p, _)) => p,
        None => Seq::empty(),
    }
}

/// The depth of a walk entry below the root (0 for an error).
pub open spec fn entry_depth(e: Option<(Seq<char>, usize)>) -> usize {
    match e {
        Some((_, d)) => d,
        None => 0,
    }
}

/// Whether entry `i` of a walk is one that a search for the file name `f`
/// keeps: a path (not an error), a regular file (`regular[i]`), with final
/// component `f`, and not excluded (`excluded[i]`).
pub open spec fn keeps_entry(
    entries: Seq<Option<(Seq<char>, usize)>>,
    regular: Seq<bool>,
    excluded: Seq<bool>,
    f: Seq<char>,
    i: int,
) -> bool {
    entries[i] is Some && regular[i] && path_file_name(entry_path(entries[i])) == Some(f) && !excluded[i]
}

/// The paths among a walk's `entries` that a search for the file name `f`
/// keeps (see `keeps_entry`), in walk order.
pub open spec fn kept_entries(
    entries: Seq<Option<(Seq<char>, usize)>>,
    regular: Seq<bool>,
    excluded: Seq<bool>,
    f: Seq<char>,
) -> Seq<Seq<char>>
    decreases entries.len(),
{
    if entries.len() == 0 {
        Seq::empty()
    } else {
        let n = entries.len() - 1;
        let rest = kept_entries(entries.drop_last(), regular.take(n), excluded.take(n), f);
        if keeps_entry(entries, regular, excluded, f, n) {
            rest.push(entry_path(entries[n]))
        } else {
            rest
        }
    }
}

/// Whether `p` is the path of an entry that a search for `f` keeps.
pub open spec fn kept_from(
    entries: Seq<Option<(Seq<char>, usize)>>,
    regular: Seq<bool>,
    excluded: Seq<bool>,
    f: Seq<char>,
    p: Seq<char>,
) -> bool {
    exists|i: int| 0 <= i < entries.len() && #[trigger] keeps_entry(entries, regular, excluded, f, i) && entry_path(entries[i]) == p
}

/// Every path kept from a walk is the path of an entry that the search
/// keeps.
pub proof fn lemma_kept_entries_origin(
    entries: Seq<Option<(Seq<char>, usize)>>,
    regular: Seq<bool>,
    excluded: Seq<bool>,
    f: Seq<char>,
)
    requires
        regular.len() == entries.len(),
        excluded.len() == entries.len(),
    ensures
        forall|k: int|
            0 <= k < kept_entries(entries, regular, excluded, f).len() ==> kept_from(
                entries,
                regular,
                excluded,
                f,
                #[trigger] kept_entries(entries, regular, excluded, f)[k],
            ),
    decreases entries.len(),
{
    if entries.len() > 0 {
        let n = entries.len() - 1;
        let e2 = entries.drop_last();
        let r2 = regular.take(n);
        let x2 = excluded.take(n);
        lemma_kept_entries_origin(e2, r2, x2, f);
        let rest = kept_entries(e2, r2, x2, f);
        let all = kept_entries(entries, regular, excluded, f);
        assert forall|k: int| 0 <= k < all.len() implies kept_from(entries, regular, excluded, f, #[trigger] all[k]) by {
            if k < rest.len() {
                assert(all[k] == rest[k]);
                assert(kept_from(e2, r2, x2, f, rest[k]));
                let i = choose|i: int|
                    0 <= i < e2.len() && #[trigger] keeps_entry(e2, r2, x2, f, i) && entry_path(e2[i]) == rest[k];
                assert(entries[i] == e2[i] && regular[i] == r2[i] && excluded[i] == x2[i]);
                assert(keeps_entry(entries, regular, excluded, f, i));
            } else {
                assert(keeps_entry(entries, regular, excluded, f, n));
            }
        }
    }
}

/// The paths of a walk's `entries` that a search for the file name `f`
/// keeps, given what the file system answered (see `kept_entries`).
pub fn keep_matches(
    entries: &Vec<Option<(String, usize)>>,
    regular: &Vec<bool>,
    excluded: &Vec<bool>,
    f: &str,
) -> (r: Vec<String>)
    requires
        regular.len() == entries.len(),
        excluded.len() == entries.len(),
    ensures
        r.deep_view() == kept_entries(walk_texts(entries@), regular@, excluded@, f@),
{
    let ghost walked = walk_texts(entries@);
    let mut results: Vec<String> = Vec::new();
    let mut i: usize = 0;
    while i < entries.len()
        invariant
            i <= entries.len(),
            regular.len() == entries.len(),
            excluded.len() == entries.len(),
            walked == walk_texts(entries@),
            results.deep_view() == kept_entries(walked.take(i as int), regular@.take(i as int), excluded@.take(i as int), f@),
        decreases entries.len() - i,
    {
        let ghost before = results.deep_view();
        let ghost e = walked.take(i + 1);
        let ghost rg = regular@.take(i + 1);
        let ghost ex = excluded@.take(i + 1);
        proof {
            assert(e.drop_last() =~= walked.take(i as int));
            assert(rg.take(i as int) =~= regular@.take(i as int));
            assert(ex.take(i as int) =~= excluded@.take(i as int));
            assert(e[i as int] == walked[i as int]);
        }
        if let Some((path, _)) = &entries[i] {
            if regular[i] && !excluded[i] {
                let name = file_name_of(path.as_str());
                let name_matches = match &name {
                    Some(n) => text_is(n, f),
                    None => false,
                };
                if name_matches {
                    results.push(path.clone());
                    assert(results.deep_view() =~= before.push(path@));
                }
            }
        }
        assert(results.deep_view() =~= kept_entries(e, rg, ex, f@));
        i = i + 1;
    }
    proof {
        assert(walked.take(entries.len() as int) =~= walked);
        assert(regular@.take(entries.len() as int) =~= regular@);
        assert(excluded@.take(entries.len() as int) =~= excluded@);
    }
    results
}

/// Whether some key of `seen` is the same path as `key`.
pub open spec fn key_seen(seen: Seq<Seq<char>>, key: Seq<char>) -> bool {
    exists|j: int| 0 <= j < seen.len() && #[trigger] path_equal(key, seen[j])
}

/// Drops every root whose key is the same path as the key of a root kept
/// before it, keeping the order. Returns the kept roots and their keys.
pub open spec fn dedup_by_key(roots: Seq<Seq<char>>, keys: Seq<Seq<char>>) -> (Seq<Seq<char>>, Seq<Seq<char>>)
    decreases roots.len(),
{
    if roots.len() == 0 {
        (Seq::empty(), Seq::empty())
    } else {
        let (kept, seen) = dedup_by_key(roots.drop_last(), keys.take(roots.len() - 1));
        let key = keys[roots.len() - 1];
        if key_seen(seen, key) {
            (kept, seen)
        } else {
            (kept.push(roots.last()), seen.push(key))
        }
    }
}

/// Whether `key` is the same path as some key of `keys`.
fn key_listed(keys: &Vec<String>, key: &String) -> (r: bool)
    ensures
        r == key_seen(keys.deep_view(), key@),
        !r ==> forall|j: int| 0 <= j < keys.len() ==> #[trigger] keys.deep_view()[j] != key@,
{
    let mut i: usize = 0;
    while i < keys.len()
        invariant
            i <= keys.len(),
            forall|j: int| 0 <= j < i ==> !path_equal(key@, #[trigger] keys.deep_view()[j]),
            forall|j: int| 0 <= j < i ==> #[trigger] keys.deep_view()[j] != key@,
        decreases keys.len() - i,
    {
        if same_path(key.as_str(), keys[i].as_str()) {
            assert(path_equal(key@, keys.deep_view()[i as int]));
            return true;
        }
        i = i + 1;
    }
    false
}

/// Drops every root whose key is the same path as the key of a root kept
/// before it, keeping the order (see `dedup_by_key`). In particular a root
/// whose key has the same text as a kept key is dropped: no two kept keys
/// have the same text.
pub fn dedup_roots(roots: &Vec<String>, keys: &Vec<String>) -> (r: Vec<String>)
    requires
        roots.len() == keys.len(),
    ensures
        r.deep_view() == dedup_by_key(roots.deep_view(), keys.deep_view()).0,
        forall|i: int, j: int|
            0 <= i < j < dedup_by_key(roots.deep_view(), keys.deep_view()).1.len() ==> #[trigger] dedup_by_key(
                roots.deep_view(),
                keys.deep_view(),
            ).1[i] != #[trigger] dedup_by_key(roots.deep_view(), keys.deep_view()).1[j],
{
    let mut kept: Vec<String> = Vec::new();
    let mut seen: Vec<String> = Vec::new();
    let mut i: usize = 0;
    while i < roots.len()
        invariant
            i <= roots.len(),
            roots.len() == keys.len(),
            (kept.deep_view(), seen.deep_view()) == dedup_by_key(
                roots.deep_view().take(i as int),
                keys.deep_view().take(i as int),
            ),
            forall|a: int, b: int|
                0 <= a < b < seen.deep_view().len() ==> #[trigger] seen.deep_view()[a] != #[trigger] seen.deep_view()[b],
        decreases roots.len() - i,
    {
        let ghost seen0 = seen.deep_view();
        let ghost rs = roots.deep_view().take(i + 1);
        let ghost ks = keys.deep_view().take(i + 1);
        assert(rs.drop_last() =~= roots.deep_view().take(i as int));
        assert(ks.take(rs.len() - 1) =~= keys.deep_view().take(i as int));
        if !key_listed(&seen, &keys[i]) {
            kept.push(roots[i].clone());
            seen.push(keys[i].clone());
            assert(seen.deep_view() =~= seen0.push(keys[i as int]@));
            assert forall|a: int, b: int|
                0 <= a < b < seen.deep_view().len() implies #[trigger] seen.deep_view()[a]
                    != #[trigger] seen.deep_view()[b] by {
                if b == seen0.len() {
                    assert(seen.deep_view()[a] == seen0[a]);
                }
            }
        }
        assert(kept.deep_view() =~= dedup_by_key(rs, ks).0);
        assert(seen.deep_view() =~= dedup_by_key(rs, ks).1);
        i = i + 1;
    }
    assert(roots.deep_view().take(roots.len() as int) =~= roots.deep_view());
    assert(keys.deep_view().take(keys.len() as int) =~= keys.deep_view());
    kept
}

/// The text of an optional string.
pub open spec fn opt_text(o: Option<String>) -> Option<Seq<char>> {
    match o {
        Some(s) => Some(s@),
        None => None,
    }
}

/// Whether the excluded path `exc`, which resolves on disk to `key`, covers
/// the path `p`, which resolves to `canonical`: either both resolve to the
/// same path, or `p` lies under `exc`.
pub open spec fn exclusion_covers(
    p: Seq<char>,
    canonical: Option<Seq<char>>,
    exc: Seq<char>,
    key: Seq<char>,
) -> bool {
    (canonical matches Some(c) && path_equal(c, key)) || path_starts_with(p, exc)
}

/// Whether some excluded path covers `p` (see `exclusion_covers`); the
/// excluded paths resolve on disk to `exc_keys`.
pub open spec fn excluded_by(
    p: Seq<char>,
    canonical: Option<Seq<char>>,
    excluded: Seq<Seq<char>>,
    exc_keys: Seq<Seq<char>>,
) -> bool {
    exists|i: int|
        0 <= i < excluded.len() && #[trigger] exclusion_covers(p, canonical, excluded[i], exc_keys[i])
}

/// Whether `p` lies under one of the `excluded` paths.
pub open spec fn under_any(p: Seq<char>, excluded: Seq<Seq<char>>) -> bool {
    exists|i: int| 0 <= i < excluded.len() && #[trigger] path_starts_with(p, excluded[i])
}

/// Whether the exclusion list covers `p`, given what `p` and the excluded
/// paths resolve to on disk (see `excluded_by`).
pub fn excluded_given(
    p: &str,
    canonical: &Option<String>,
    excluded: &Vec<String>,
    exc_keys: &Vec<String>,
) -> (r: bool)
    requires
        exc_keys.len() == excluded.len(),
    ensures
        r == excluded_by(p@, opt_text(*canonical), excluded.deep_view(), exc_keys.deep_view()),
{
    let ghost c = opt_text(*canonical);
    let mut i: usize = 0;
    while i < excluded.len()
        invariant
            i <= excluded.len(),
            exc_keys.len() == excluded.len(),
            c == opt_text(*canonical),
            forall|j: int|
                0 <= j < i ==> !#[trigger] exclusion_covers(
                    p@,
                    c,
                    excluded.deep_view()[j],
                    exc_keys.deep_view()[j],
                ),
        decreases excluded.len() - i,
    {
        let hit_canonical = match canonical {
            Some(cp) => same_path(cp.as_str(), exc_keys[i].as_str()),
            None => false,
        };
        if hit_canonical || path_has_prefix(p, excluded[i].as_str()) {
            assert(exclusion_covers(p@, c, excluded.deep_view()[i as int], exc_keys.deep_view()[i as int]));
            return true;
        }
        i = i + 1;
    }
    false
}

} // verus!
