//! The core of a small image gallery.
//!
//! The index page shows one record for each regular file of an image
//! directory, with the metadata that the file carries. This crate decides
//! what the page shows and how a request is answered; listing the directory,
//! reading the files, rendering the template and serving the answer are the
//! caller's work.
//!
//! - `store`: what was found in the image directory, as plain values.
//! - `extract`: the metadata fields of a file, read from its bytes.
//! - `metadata`: the fields of one image, a mapping from tag name to value.
//! - `handler`: the records that the index page shows.
//! - `context`: the shared configuration, and what a rendering comes to.
//! - `error`: the failures, and the answer a client gets.

pub mod context;
pub mod error;
pub mod extract;
pub mod handler;
pub mod metadata;
pub mod store;
