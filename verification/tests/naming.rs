use std::str::FromStr;
use which_dylib::naming::{affixed_filename, default_library_filename};
use which_dylib::{FindLibBuilder, TargetOs};

#[test]
fn test_custom_filename_fn() {
    let builder = FindLibBuilder::new().set_filename_fn(|name| format!("my_{}_v2.so", name));

    assert_eq!(builder.library_filename("test"), "my_test_v2.so");
}

#[test]
fn test_set_prefix_suffix() {
    let builder = FindLibBuilder::new().set_prefix_suffix("lib", "_debug.so.1");

    assert_eq!(builder.library_filename("mylib"), "libmylib_debug.so.1");
}

#[test]
fn test_empty_prefix_suffix() {
    let builder = FindLibBuilder::new().set_prefix_suffix("", "");

    assert_eq!(builder.library_filename("mylib"), "mylib");
}

#[test]
fn test_custom_fn_overrides_os() {
    let builder = FindLibBuilder::new()
        .set_filename_fn(|_| "custom_name.ext".to_string())
        .assume_os_str("windows");

    // Custom function should take precedence over OS setting
    assert_eq!(builder.library_filename("anything"), "custom_name.ext");
}

#[test]
fn test_target_os_from_str() {
    assert_eq!(TargetOs::from_str("linux").expect("Unknown Error"), TargetOs::Linux);
    assert_eq!(TargetOs::from_str("GNU").expect("Unknown Error"), TargetOs::Linux);
    assert_eq!(TargetOs::from_str("macos").expect("Unknown Error"), TargetOs::Macos);
    assert_eq!(TargetOs::from_str("DARWIN").expect("Unknown Error"), TargetOs::Macos);
    assert_eq!(TargetOs::from_str("windows").expect("Unknown Error"), TargetOs::Windows);
    assert_eq!(TargetOs::from_str("MSVC").expect("Unknown Error"), TargetOs::Windows);
    assert_eq!(TargetOs::from_str("unknown").expect("Unknown Error"), TargetOs::Unknown);
}

#[test]
fn test_library_filename_defaults() {
    let linux = FindLibBuilder::new().assume_os(TargetOs::Linux);
    assert_eq!(linux.library_filename("foo"), "libfoo.so");

    let macos = FindLibBuilder::new().assume_os(TargetOs::Macos);
    assert_eq!(macos.library_filename("foo"), "libfoo.dylib");

    let windows = FindLibBuilder::new().assume_os(TargetOs::Windows);
    assert_eq!(windows.library_filename("foo"), "foo.dll");
}

#[test]
fn target_os_doc_examples() {
    assert_eq!(TargetOs::from_str("linux").unwrap(), TargetOs::Linux);
    assert_eq!(TargetOs::from_str("DARWIN").unwrap(), TargetOs::Macos);
    assert_eq!(TargetOs::from_str("Win").unwrap(), TargetOs::Windows);
    assert_eq!(TargetOs::from_str("freebsd").unwrap(), TargetOs::Unknown);
}

#[test]
fn target_os_names_are_case_insensitive() {
    assert_eq!(TargetOs::from_name("ApPlE"), TargetOs::Macos);
    assert_eq!(TargetOs::from_name("Gnu"), TargetOs::Linux);
    assert_eq!(TargetOs::from_name("WIN"), TargetOs::Windows);
    assert_eq!(TargetOs::from_name(""), TargetOs::Unknown);
    assert_eq!(TargetOs::from_name("linux "), TargetOs::Unknown);
    assert_eq!(TargetOs::from_lowercase_name(&"msvc".to_string()), TargetOs::Windows);
    assert_eq!(TargetOs::from_lowercase_name(&"MSVC".to_string()), TargetOs::Unknown);
}

#[test]
fn target_os_of_compilation_targets() {
    let t = |os: &str, env: &str| TargetOs::for_target(&os.to_string(), &env.to_string());
    assert_eq!(t("linux", "gnu"), TargetOs::Linux);
    assert_eq!(t("linux", "musl"), TargetOs::Linux);
    assert_eq!(t("linux", "android"), TargetOs::Unknown);
    assert_eq!(t("linux", "androideabi"), TargetOs::Unknown);
    assert_eq!(t("darwin", "unknown"), TargetOs::Macos);
    assert_eq!(t("macosx", "unknown"), TargetOs::Macos);
    assert_eq!(t("windows", "msvc"), TargetOs::Windows);
    assert_eq!(t("freebsd", "unknown"), TargetOs::Unknown);
    assert_eq!(t("ios", "unknown"), TargetOs::Unknown);
}

#[test]
fn current_os_matches_compilation_target() {
    let os = target_lexicon::OperatingSystem::host().to_string();
    let env = target_lexicon::Environment::host().to_string();
    assert_eq!(TargetOs::current(), TargetOs::for_target(&os, &env));
    let (t, os2, env2) = TargetOs::current_target();
    assert_eq!((t, os2, env2), (TargetOs::current(), os, env));
}

#[test]
fn unknown_os_uses_linux_naming() {
    let unknown = FindLibBuilder::new().assume_os(TargetOs::Unknown);
    assert_eq!(unknown.library_filename("foo"), "libfoo.so");
    assert_eq!(default_library_filename(TargetOs::Unknown, "z"), default_library_filename(TargetOs::Linux, "z"));
}

#[test]
fn default_file_names_per_os() {
    assert_eq!(default_library_filename(TargetOs::Linux, "ssl"), "libssl.so");
    assert_eq!(default_library_filename(TargetOs::Macos, "ssl"), "libssl.dylib");
    assert_eq!(default_library_filename(TargetOs::Windows, "ssl"), "ssl.dll");
    assert_eq!(default_library_filename(TargetOs::Windows, ""), ".dll");
}

#[test]
fn prefix_suffix_overrides_os() {
    let b = FindLibBuilder::new().set_prefix_suffix("my_", "_debug.dll").assume_os(TargetOs::Linux);
    assert_eq!(b.library_filename("foo"), "my_foo_debug.dll");
    assert_eq!(affixed_filename("a", "b", "c"), "abc");
}

#[test]
fn last_naming_setting_wins() {
    let b = FindLibBuilder::new()
        .set_prefix_suffix("lib", ".so.3")
        .set_filename_fn(|name| format!("{}.bin", name));
    assert_eq!(b.library_filename("x"), "x.bin");
    let b = b.set_prefix_suffix("pre_", "");
    assert_eq!(b.library_filename("x"), "pre_x");
}

#[test]
fn conditional_filename_fn() {
    let b = FindLibBuilder::new().set_filename_fn(|name| {
        if name.starts_with("ssl") {
            format!("lib{}_openssl.so.3", name)
        } else {
            format!("lib{}.so.1", name)
        }
    });
    assert_eq!(b.library_filename("ssl"), "libssl_openssl.so.3");
    assert_eq!(b.library_filename("z"), "libz.so.1");
}

#[test]
fn assume_os_str_sets_os() {
    let b = FindLibBuilder::new().assume_os_str("Darwin");
    assert_eq!(b.effective_os(), TargetOs::Macos);
    assert_eq!(b.library_filename("foo"), "libfoo.dylib");
    let b = FindLibBuilder::new().assume_os_str("plan9");
    assert_eq!(b.effective_os(), TargetOs::Unknown);
}
