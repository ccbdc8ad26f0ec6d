//! Locating dynamic/shared library files (`lib*.so`, `lib*.dylib`, `*.dll`)
//! in a configurable list of search directories.
pub mod builder;
pub mod host;
pub mod laws;
pub mod naming;
pub mod paths;
mod probe;
pub mod search;
pub mod target_os;

pub use builder::FindLibBuilder;
pub use search::FindError;
pub use target_os::TargetOs;
