//! Duplicate-file scan core: directory collection, size-based pre-filtering,
//! content hashing, digest grouping, and result assembly, together with the
//! log-keeping part of the delete/move file operations.

pub mod assemble;
pub mod collect;
pub mod file_ops;
pub mod grouping;
pub mod hashing;
pub mod records;
pub mod scan;
pub mod seq_util;
pub mod size_filter;
pub mod text_util;
pub mod walk;
