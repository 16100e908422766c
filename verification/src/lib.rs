//! A fetch-filter-notify pipeline for a daily comic: extract release
//! metadata from the source page, fetch the comic image, look up the
//! subscribers of the comic's category in a key-value store, and build one
//! MIME mail with the image attached for each subscriber, tolerating
//! per-recipient relay failures.

pub mod codec;
pub mod errors;
pub mod extract;
pub mod message;
pub mod metadata;
pub mod pipeline;
pub mod response;
pub mod store;
