//! Classification of build output into typed modules, and the bindings of a
//! deployed worker.
//!
//! A worker is uploaded as a set of files. Each file that takes part is a
//! module of exactly one [`module_type::ModuleType`], chosen by glob patterns
//! on its file name; a file that the patterns of two types accept is an error,
//! and one that no pattern accepts is left out. The resources that the worker
//! refers to by name are its bindings.
//!
//! Glob matching is done by the `ignore` crate and path arithmetic by `std`
//! and `path-slash`; [`matching`] and [`paths`] hold the contracts that are
//! assumed of them. Everything else is proved.

pub mod assets;
pub mod binding;
pub mod error;
pub mod globs;
pub mod manifest;
pub mod matching;
pub mod module_type;
pub mod paths;
