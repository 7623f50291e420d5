//! A public registry of software add-ons: untrusted submissions are
//! normalized and bounds-checked, their binary URLs canonicalized against an
//! allow-list of hosting patterns, and then written through an atomic
//! insert-or-conditionally-update keyed by the `owner/name` identity, gated
//! on the per-identity secret and on strictly increasing semantic versions.

pub mod entry;
pub mod error;
pub mod hook;
pub mod laws;
pub mod normalize;
pub mod pipeline;
pub mod search;
pub mod store;
pub mod text;
pub mod urls;
pub mod version;
