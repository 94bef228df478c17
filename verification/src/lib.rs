//! Verified core of a staff-management HTTP function: request routing,
//! pagination, the staff store's semantics, and view-model assembly.
//! All network, database and rendering I/O lives outside this crate's
//! verified surface and hands plain values in and out.

pub mod text;
pub mod pagination;
pub mod errors;
pub mod store;
pub mod handler;
pub mod router;
