# which_dylib

Locates dynamic/shared library files (`lib*.so`, `lib*.dylib`, `*.dll`) in a
configurable list of directories, with its logic verified by Verus.

## Layout

- `src/target_os.rs` – `TargetOs` and parsing OS names (case-insensitive).
- `src/host.rs` – the OS the crate was compiled for (`TargetOs::current`).
- `src/naming.rs` – how a library name becomes a file name: the OS
  convention, a prefix and suffix, or a user closure.
- `src/paths.rs` – paths held as text, and the `std::path::Path` operations
  used on them.
- `src/probe.rs` – what the process and the file system report, through
  `process_path` and `walkdir`.
- `src/search.rs` – the decisions of a search: dropping duplicate roots,
  exclusions, and what a search reports.
- `src/builder.rs` – `FindLibBuilder`: configuration, search roots in order
  of priority, and the search.
- `src/laws.rs` – properties that hold across operations, proved.
- `app/lib.rs` – reads the library-path environment variables and offers
  searches that return `PathBuf`s.

The environment variables are read outside the verified library: its search
functions take the paths they list as an argument.
