//! An in-memory static asset server core: an asset store built once from a
//! directory snapshot, content negotiation over it, and response header policy.
pub mod compress;
pub mod index;
pub mod mime;
pub mod text;
pub mod store;
pub mod negotiate;
pub mod headers;
pub mod response;
pub mod config;
pub mod laws;
