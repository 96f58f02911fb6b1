//! A content-addressed inference cache for an image-classification service.
//!
//! Raw image bytes are identified by a collision-resistant fingerprint;
//! classification results are stored under that fingerprint so that a
//! previously seen input is answered from the store instead of being
//! scored again.

pub mod cache;
pub mod digest;
pub mod events;
pub mod format;
pub mod labels;
pub mod query;
pub mod scoring;
pub mod store;

pub use digest::fingerprint;
