//! A small product catalogue, verified with Verus.
//!
//! - [`codec`]: the photo codec, which turns the bytes of a photo into text
//!   and back without losing a bit.
//! - [`media_type`]: the media-type strings that say how a stored photo is
//!   to be read, and the file extension that such a string gives.
//! - [`models`]: the rows of the catalogue and their mathematical views.
//! - [`store`]: the catalogue store and its rules: what an insert returns
//!   and changes, when it is refused, and what the store lists.
//! - [`import`]: the draft of a product from a photo file.
//! - [`export`]: the file that a product's photo is exported to.

pub mod codec;
pub mod export;
pub mod import;
pub mod media_type;
pub mod models;
pub mod store;
