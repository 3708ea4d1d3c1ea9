//! Installation engine for a realm-segmented package manager.
//!
//! Given an already-computed dependency resolution graph, the library plans
//! the on-disk package tree: one directory per installed package version and
//! one link file per dependency edge, where a link file `require`s the real
//! package location and may re-export its public generic type aliases.
//!
//! The library is organised leaves-first:
//! - [`text`]: character classes and string/character-vector conversions;
//! - [`lexer`]: removes comment and string-literal bodies from source text;
//! - [`extract_types`]: scans stripped source for `export type` declarations
//!   and renders forwarding statements;
//! - [`descriptor`]: locates a package's entry file from its project
//!   descriptor;
//! - [`installation`]: realm rules, link-file contents and the whole-install
//!   link plan.
//!
//! All file, network and concurrency plumbing lives outside this crate; the
//! library computes contents and paths as plain values.
#![verifier::loop_isolation(false)]

pub mod descriptor;
pub mod extract_types;
pub mod installation;
pub mod lexer;
pub mod text;
