//! What a download leaves behind: file names, checks, records and totals.

pub mod metadata;
pub mod naming;
pub mod summary;
pub mod validation;
