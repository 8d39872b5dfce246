//! Reads of dependency source in language caches.
//!
//! A path like `~/go/pkg/mod/github.com/foo@v1/bar.go` or
//! `~/.cargo/registry/src/.../lib.rs` lies outside a project and fails its path
//! jail. This library recognises such paths ([`patterns`]), knows where the
//! toolchains keep their caches ([`roots`]), and decides, one step at a time,
//! whether the root of the cache becomes a read-only root of the session
//! ([`access`]). What holds of all this together is proved in [`laws`].

pub mod access;
pub mod laws;
pub mod os_path;
pub mod patterns;
pub mod roots;
pub mod text;

pub use crate::access::{
    language_cache_access, CacheAccess, Progress, Replies, Reply, Request,
};
pub use crate::os_path::OsPath;
pub use crate::patterns::{
    detect_language_cache, detected_cache_hint, CanonicalRoot, DetectedCache,
};
pub use crate::roots::{
    cargo_registry, find_root, go_mod_cache, probe_toolchain_path, RootPath, RootSearch,
    ToolchainRun,
};
