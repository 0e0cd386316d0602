//! Project descriptors, a git-backed module cache and the assembly of an
//! ordered source bundle for the scorch runtime.

pub mod text;
pub mod project;
pub mod gitops;
pub mod cache;
pub mod bundle;
pub mod order;
pub mod assemble;
