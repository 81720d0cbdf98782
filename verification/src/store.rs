//! What a look into the image directory brings back, as plain values.
//!
//! Listing the directory and reading the files is the caller's work. The
//! result comes in these types.

use vstd::prelude::*;

verus! {

/// What kind of thing a directory entry is.
#[derive(Clone, Copy, Debug, PartialEq, Eq, Structural)]
pub enum EntryKind {
    RegularFile,
    Directory,
    Other,
}

/// One entry of the image directory.
#[derive(Debug)]
pub struct StoreEntry {
    /// The name of the entry within the directory.
    pub filename: String,
    pub kind: EntryKind,
    /// The bytes of the file, or `None` where they could not be read.
    pub contents: Option<Vec<u8>>,
}

/// The image directory as found at the time of a request.
#[derive(Debug)]
pub enum StoreListing {
    /// The directory could not be listed.
    Unavailable,
    /// The entries in the order in which the directory gave them.
    Entries(Vec<StoreEntry>),
}

/// The entry is a regular file, and so counts as an image.
pub open spec fn is_regular_file(entry: StoreEntry) -> bool {
    entry.kind == EntryKind::RegularFile
}

/// `is_regular_file` as a predicate on entries.
pub open spec fn regular() -> spec_fn(StoreEntry) -> bool {
    |entry: StoreEntry| is_regular_file(entry)
}

/// The bytes of the entry's file, where they were read.
pub open spec fn contents_of(entry: StoreEntry) -> Option<Seq<u8>> {
    match entry.contents {
        Some(bytes) => Some(bytes@),
        None => None,
    }
}

impl StoreEntry {
    /// An entry for a regular file whose bytes were read.
    pub fn file(filename: String, contents: Vec<u8>) -> (entry: Self)
        ensures
            entry.filename == filename,
            entry.kind == EntryKind::RegularFile,
            entry.contents == Some(contents),
    {
        StoreEntry { filename, kind: EntryKind::RegularFile, contents: Some(contents) }
    }

    /// An entry for a regular file whose bytes could not be read.
    pub fn unreadable_file(filename: String) -> (entry: Self)
        ensures
            entry.filename == filename,
            entry.kind == EntryKind::RegularFile,
            entry.contents is None,
    {
        StoreEntry { filename, kind: EntryKind::RegularFile, contents: None }
    }

    /// An entry that is no regular file.
    pub fn other(filename: String, kind: EntryKind) -> (entry: Self)
        ensures
            entry.filename == filename,
            entry.kind == kind,
            entry.contents is None,
    {
        StoreEntry { filename, kind, contents: None }
    }
}

} // verus!
