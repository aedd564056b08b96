//! Change impact in a repository of Python packages: which files and which
//! services a changed file affects.
//!
//! The library keeps a graph of the imports between source files, an index
//! of the packages that each file imports, and a registry of the manifests
//! that declare requirements. It reads no file and watches none: the caller
//! hands it paths and texts and asks it what a change affects.
pub mod collections;
pub mod dependency;
pub mod package_deps;
pub mod paths;
pub mod service;
pub mod text;
pub mod utils;
pub mod watcher;
