//! Batch validation of catalog mod references: extraction of references from
//! text lines, the lookup request, classification of the catalog's answer, a
//! chunked rate-limited schedule and the failure report.

pub mod catalog;
pub mod extract;
pub mod reference;
pub mod report;
pub mod schedule;
pub mod text;
pub mod validate;
