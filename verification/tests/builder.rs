use which_dylib::{FindLibBuilder, TargetOs};

#[test]
fn new_builder_defaults() {
    let b = FindLibBuilder::new();
    assert_eq!(b.max_depth(), 1);
    assert!(b.collect_roots(&Vec::new()).len() <= 64);
}

#[test]
fn depth_settings() {
    assert_eq!(FindLibBuilder::new().depth(3).max_depth(), 3);
    assert_eq!(FindLibBuilder::new().depth(0).max_depth(), 0);
    assert_eq!(FindLibBuilder::new().depth(-1).max_depth(), usize::MAX);
    assert_eq!(FindLibBuilder::new().depth(i32::MIN).max_depth(), usize::MAX);
}

#[test]
fn remove_path_drops_custom_root_and_excludes_it() {
    let b = FindLibBuilder::new()
        .no_defaults()
        .add_paths(&["/opt/a", "/usr/lib", "/opt/b", "/usr//lib/"])
        .remove_path("/usr/lib");
    assert_eq!(b.collect_roots(&Vec::new()), vec!["/opt/a".to_string(), "/opt/b".to_string()]);
    assert!(b.is_excluded("/usr/lib/debug/libx.so"));
    assert!(b.is_excluded("/usr/lib"));
    assert!(!b.is_excluded("/usr/libexec"));
    assert!(!b.is_excluded("/opt/a/libx.so"));
}

#[test]
fn effective_os_follows_assumption() {
    assert_eq!(FindLibBuilder::new().assume_os(TargetOs::Windows).effective_os(), TargetOs::Windows);
    assert_eq!(FindLibBuilder::new().effective_os(), TargetOs::current());
    let b = FindLibBuilder::new().assume_os(TargetOs::Macos);
    assert_eq!(b.sys_dirs(), vec!["/usr/lib".to_string(), "/usr/local/lib".to_string(), "/opt/homebrew/lib".to_string()]);
}

#[test]
fn builder_settings_are_independent() {
    let b = FindLibBuilder::new()
        .assume_os(TargetOs::Linux)
        .depth(4)
        .strict()
        .no_defaults()
        .add_path("/nonexistent/x");
    assert_eq!(b.library_filename("q"), "libq.so");
    assert_eq!(b.max_depth(), 4);
    assert_eq!(b.collect_roots(&Vec::new()), vec!["/nonexistent/x".to_string()]);
}

#[test]
fn default_roots_start_with_executable_directory() {
    let b = FindLibBuilder::new().assume_os(TargetOs::Unknown);
    let roots = b.collect_roots(&Vec::new());
    assert!(!roots.is_empty());
    assert!(std::path::Path::new(&roots[0]).is_dir());
}

#[test]
fn unknown_os_has_no_system_dirs() {
    let b = FindLibBuilder::new().assume_os(TargetOs::Unknown);
    assert!(b.sys_dirs().is_empty());
    assert!(b.env_var_names().is_empty());
    let roots = b.collect_roots(&vec!["/nonexistent/env".to_string()]);
    assert_eq!(roots.last().map(|s| s.as_str()), Some("/nonexistent/env"));
}
