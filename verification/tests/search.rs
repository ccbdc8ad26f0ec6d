use which_dylib::builder::{library_path_var_names, system_lib_dirs};
use which_dylib::search::{conclude, dedup_roots, excluded_given, first_match, keep_matches, resolve_search};
use which_dylib::{FindError, FindLibBuilder, TargetOs};

fn strings(v: &[&str]) -> Vec<String> {
    v.iter().map(|s| s.to_string()).collect()
}

#[test]
fn conclude_reports_each_case() {
    match conclude("foo", "libfoo.so", Vec::new()) {
        Err(FindError::NotFound(m)) => assert_eq!(
            m,
            "library 'foo' (resolved to 'libfoo.so') not found in any search path"
        ),
        other => panic!("unexpected {:?}", other),
    }
    match conclude("foo", "libfoo.so", strings(&["/a/libfoo.so"])) {
        Ok(p) => assert_eq!(p, "/a/libfoo.so"),
        other => panic!("unexpected {:?}", other),
    }
    match conclude("foo", "libfoo.so", strings(&["/a/libfoo.so", "/b/libfoo.so"])) {
        Err(FindError::Ambiguous(v)) => assert_eq!(v, strings(&["/a/libfoo.so", "/b/libfoo.so"])),
        other => panic!("unexpected {:?}", other),
    }
}

#[test]
fn dedup_keeps_first_of_same_paths() {
    let roots = strings(&["/x", "/usr/lib", "/y", "/usr//lib/", "/z"]);
    let keys = strings(&["/x", "/usr/lib", "/y", "/usr//lib/", "/x/"]);
    assert_eq!(dedup_roots(&roots, &keys), strings(&["/x", "/usr/lib", "/y"]));
}

#[test]
fn dedup_of_nothing_is_nothing() {
    assert_eq!(dedup_roots(&Vec::new(), &Vec::new()), Vec::<String>::new());
}

#[test]
fn dedup_compares_keys_not_roots() {
    let roots = strings(&["/a", "/b", "/a"]);
    let keys = strings(&["/k1", "/k2", "/k3"]);
    assert_eq!(dedup_roots(&roots, &keys), strings(&["/a", "/b", "/a"]));
}

#[test]
fn exclusion_by_prefix_and_by_canonical_form() {
    let excluded = strings(&["/usr/lib/debug"]);
    let keys = strings(&["/real/debug"]);
    assert!(excluded_given("/usr/lib/debug/libx.so", &None, &excluded, &keys));
    assert!(excluded_given("/usr/lib/debug", &None, &excluded, &keys));
    assert!(!excluded_given("/usr/lib/debugger/libx.so", &None, &excluded, &keys));
    assert!(!excluded_given("/usr/lib", &None, &excluded, &keys));
    assert!(excluded_given("/elsewhere", &Some("/real/debug".to_string()), &excluded, &keys));
    assert!(!excluded_given("/elsewhere", &Some("/real".to_string()), &excluded, &keys));
    assert!(!excluded_given("/usr/lib/debug", &None, &Vec::new(), &Vec::new()));
}

#[test]
fn system_dirs_per_os() {
    assert_eq!(
        system_lib_dirs(TargetOs::Linux),
        strings(&["/usr/lib", "/usr/local/lib", "/lib", "/usr/lib/x86_64-linux-gnu"])
    );
    assert_eq!(system_lib_dirs(TargetOs::Macos), strings(&["/usr/lib", "/usr/local/lib", "/opt/homebrew/lib"]));
    assert_eq!(system_lib_dirs(TargetOs::Windows), strings(&["C:\\Windows\\System32", "C:\\Windows"]));
    assert!(system_lib_dirs(TargetOs::Unknown).is_empty());
}

#[test]
fn env_vars_per_os() {
    assert_eq!(library_path_var_names(TargetOs::Linux), strings(&["LD_LIBRARY_PATH"]));
    assert_eq!(
        library_path_var_names(TargetOs::Macos),
        strings(&["DYLD_LIBRARY_PATH", "DYLD_FALLBACK_LIBRARY_PATH"])
    );
    assert_eq!(library_path_var_names(TargetOs::Windows), strings(&["PATH"]));
    assert!(library_path_var_names(TargetOs::Unknown).is_empty());
    assert_eq!(FindLibBuilder::new().assume_os(TargetOs::Windows).env_var_names(), strings(&["PATH"]));
}

fn in_package_root() -> bool {
    std::path::Path::new("src/builder.rs").is_file() && std::path::Path::new("tests/builder.rs").is_file()
}

#[test]
fn find_in_custom_path() {
    if !in_package_root() {
        return;
    }
    let b = FindLibBuilder::new().no_defaults().add_path("tests").set_prefix_suffix("", ".rs");
    match b.find_result("search", &Vec::new()) {
        Ok(p) => assert_eq!(p, "tests/search.rs"),
        other => panic!("unexpected {:?}", other),
    }
    assert_eq!(b.find("search", &Vec::new()), Some("tests/search.rs".to_string()));
}

#[test]
fn find_reports_not_found() {
    if !in_package_root() {
        return;
    }
    let b = FindLibBuilder::new().no_defaults().add_path("tests").assume_os(TargetOs::Linux);
    match b.find_result("surely_absent", &Vec::new()) {
        Err(FindError::NotFound(m)) => assert_eq!(
            m,
            "library 'surely_absent' (resolved to 'libsurely_absent.so') not found in any search path"
        ),
        other => panic!("unexpected {:?}", other),
    }
    assert_eq!(b.find("surely_absent", &Vec::new()), None);
}

#[test]
fn first_match_wins_unless_strict() {
    if !in_package_root() {
        return;
    }
    let b = FindLibBuilder::new().no_defaults().add_paths(&["src", "tests"]).set_prefix_suffix("", ".rs");
    match b.find_result("builder", &Vec::new()) {
        Ok(p) => assert_eq!(p, "src/builder.rs"),
        other => panic!("unexpected {:?}", other),
    }
    match b.strict().find_result("builder", &Vec::new()) {
        Err(FindError::Ambiguous(v)) => assert_eq!(v, strings(&["src/builder.rs", "tests/builder.rs"])),
        other => panic!("unexpected {:?}", other),
    }
}

#[test]
fn removed_path_is_not_searched() {
    if !in_package_root() {
        return;
    }
    let b = FindLibBuilder::new()
        .no_defaults()
        .add_paths(&["src", "tests"])
        .set_prefix_suffix("", ".rs")
        .strict()
        .remove_path("src");
    match b.find_result("builder", &Vec::new()) {
        Ok(p) => assert_eq!(p, "tests/builder.rs"),
        other => panic!("unexpected {:?}", other),
    }
}

#[test]
fn excluded_subdirectory_is_skipped() {
    if !in_package_root() {
        return;
    }
    let b = FindLibBuilder::new()
        .no_defaults()
        .add_path(".")
        .depth(2)
        .set_prefix_suffix("", ".rs")
        .strict()
        .remove_path("./src");
    match b.find_result("builder", &Vec::new()) {
        Ok(p) => assert_eq!(p, "./tests/builder.rs"),
        other => panic!("unexpected {:?}", other),
    }
}

#[test]
fn depth_limits_the_walk() {
    if !in_package_root() {
        return;
    }
    let shallow = FindLibBuilder::new().no_defaults().add_path(".").set_prefix_suffix("", ".rs");
    assert_eq!(shallow.find("search", &Vec::new()), None);
    let deeper = shallow.depth(2);
    let found = deeper.find("search", &Vec::new()).expect("search.rs lies two levels down");
    assert!(found == "./src/search.rs" || found == "./tests/search.rs");
}

#[test]
fn duplicate_roots_are_searched_once() {
    if !in_package_root() {
        return;
    }
    let b = FindLibBuilder::new()
        .no_defaults()
        .add_paths(&["tests", "tests/", "./tests"])
        .set_prefix_suffix("", ".rs")
        .strict();
    assert_eq!(b.collect_roots(&Vec::new()), strings(&["tests"]));
    match b.find_result("search", &Vec::new()) {
        Ok(p) => assert_eq!(p, "tests/search.rs"),
        other => panic!("unexpected {:?}", other),
    }
}

#[test]
fn roots_in_priority_order() {
    let b = FindLibBuilder::new().assume_os(TargetOs::Unknown).add_paths(&["/nonexistent/a", "/nonexistent/b"]);
    let roots = b.collect_roots(&strings(&["/nonexistent/env1", "/nonexistent/a"]));
    assert_eq!(&roots[..2], &strings(&["/nonexistent/a", "/nonexistent/b"])[..]);
    assert_eq!(roots.last().map(|s| s.as_str()), Some("/nonexistent/env1"));
    assert_eq!(roots.iter().filter(|r| r.as_str() == "/nonexistent/a").count(), 1);
    let only = FindLibBuilder::new().no_defaults().add_path("/nonexistent/a");
    assert_eq!(only.collect_roots(&strings(&["/nonexistent/env1"])), strings(&["/nonexistent/a"]));
}

#[test]
fn resolve_first_match_takes_first_root_with_matches() {
    let per_root = vec![strings(&[]), strings(&["/b/libz.so", "/b/sub/libz.so"]), strings(&["/c/libz.so"])];
    match resolve_search(true, "z", "libz.so", per_root.clone()) {
        Ok(p) => assert_eq!(p, "/b/libz.so"),
        other => panic!("unexpected {:?}", other),
    }
    match resolve_search(false, "z", "libz.so", per_root) {
        Err(FindError::Ambiguous(v)) => assert_eq!(v, strings(&["/b/libz.so", "/b/sub/libz.so", "/c/libz.so"])),
        other => panic!("unexpected {:?}", other),
    }
}

#[test]
fn resolve_without_matches_is_not_found() {
    let per_root = vec![strings(&[]), strings(&[])];
    for first_only in [true, false] {
        match resolve_search(first_only, "z", "z.dll", per_root.clone()) {
            Err(FindError::NotFound(m)) => {
                assert_eq!(m, "library 'z' (resolved to 'z.dll') not found in any search path")
            }
            other => panic!("unexpected {:?}", other),
        }
    }
    match resolve_search(false, "z", "z.dll", vec![strings(&[]), strings(&["/only/z.dll"])]) {
        Ok(p) => assert_eq!(p, "/only/z.dll"),
        other => panic!("unexpected {:?}", other),
    }
}

#[test]
fn strict_find_returns_first_of_several() {
    if !in_package_root() {
        return;
    }
    let b = FindLibBuilder::new()
        .no_defaults()
        .add_paths(&["src", "tests"])
        .set_prefix_suffix("", ".rs")
        .strict();
    assert_eq!(b.find("builder", &Vec::new()), Some("src/builder.rs".to_string()));
    assert_eq!(b.find("surely_absent", &Vec::new()), None);
}

#[test]
fn keep_matches_filters_by_the_file_system_answers() {
    let entries = vec![
        Some(("/r".to_string(), 0)),
        Some(("/r/libz.so".to_string(), 1)),
        None,
        Some(("/r/a/libz.so".to_string(), 2)),
        Some(("/r/b/libz.so".to_string(), 2)),
        Some(("/r/c/liby.so".to_string(), 2)),
    ];
    let regular = vec![false, true, false, false, true, true];
    let excluded = vec![false, false, false, false, true, false];
    assert_eq!(keep_matches(&entries, &regular, &excluded, "libz.so"), strings(&["/r/libz.so"]));
    let none_excluded = vec![false; 6];
    assert_eq!(
        keep_matches(&entries, &regular, &none_excluded, "libz.so"),
        strings(&["/r/libz.so", "/r/b/libz.so"])
    );
}

#[test]
fn search_in_dir_stays_within_root_and_depth() {
    if !in_package_root() {
        return;
    }
    let b = FindLibBuilder::new().set_prefix_suffix("", ".rs");
    assert_eq!(b.search_in_dir("tests", "search.rs"), strings(&["tests/search.rs"]));
    assert!(b.search_in_dir(".", "search.rs").is_empty());
    assert!(b.search_in_dir("tests", "tests").is_empty());
    let deep = b.depth(2);
    let found = deep.search_in_dir(".", "search.rs");
    assert_eq!(found.len(), 2);
    assert!(found.iter().all(|p| p.starts_with("./")));
}

#[test]
fn first_match_of_each_result() {
    assert_eq!(first_match(Ok("/a/libz.so".to_string())), Some("/a/libz.so".to_string()));
    assert_eq!(
        first_match(Err(FindError::Ambiguous(strings(&["/a/libz.so", "/b/libz.so"])))),
        Some("/a/libz.so".to_string())
    );
    assert_eq!(first_match(Err(FindError::NotFound("nothing".to_string()))), None);
}

#[test]
fn identical_keys_are_kept_once() {
    let roots = strings(&["/a", "/b", "/c"]);
    let keys = strings(&["/k", "/k", "/j"]);
    assert_eq!(dedup_roots(&roots, &keys), strings(&["/a", "/c"]));
}
