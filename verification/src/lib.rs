//! Tools for manipulating kustomization manifests.
//!
//! The central operation replaces the pinned tag of a named container image
//! inside a kustomization file by a literal text substitution over the raw
//! file contents, so that comments, key ordering and whitespace survive the
//! rewrite.

pub mod cli;
pub mod replace_tag;
pub mod text;
pub mod yaml;
