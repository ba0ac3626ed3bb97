//! Directory listings: the entry model handed back for a listed directory.
//!
//! Enumerating a directory is filesystem I/O and happens outside the library;
//! the entries carry the reported name, path and type flags unchanged, in the
//! order the underlying storage yielded them (callers must not assume one).

use vstd::prelude::*;

verus! {

/// One immediate child of a listed directory. The type flags are reported,
/// not derived: an entry may have every flag false (a broken link), but never
/// claims a type the filesystem did not report.
#[derive(Clone, Debug)]
pub struct DirectoryEntry {
    pub is_file: bool,
    pub is_directory: bool,
    pub is_symlink: bool,
    pub file_name: String,
    pub path: String,
}

impl DirectoryEntry {
    /// Builds an entry carrying exactly the reported values.
    pub fn new(
        is_file: bool,
        is_directory: bool,
        is_symlink: bool,
        file_name: String,
        path: String,
    ) -> (e: Self)
        ensures
            e.is_file == is_file,
            e.is_directory == is_directory,
            e.is_symlink == is_symlink,
            e.file_name@ == file_name@,
            e.path@ == path@,
    {
        DirectoryEntry { is_file, is_directory, is_symlink, file_name, path }
    }
}

/// A whole listing, built up one child at a time as the enumeration yields
/// them; derived once per listing call, never cached.
#[derive(Clone, Debug)]
pub struct DirectoryEntries {
    pub items: Vec<DirectoryEntry>,
}

impl DirectoryEntries {
    /// An empty listing.
    pub fn new() -> (d: Self)
        ensures
            d.items@.len() == 0,
    {
        DirectoryEntries { items: Vec::new() }
    }

    /// Appends one enumerated child.
    pub fn push(&mut self, e: DirectoryEntry)
        ensures
            final(self).items@ == old(self).items@.push(e),
    {
        self.items.push(e);
    }

    /// Number of children collected so far.
    pub fn len(&self) -> (n: usize)
        ensures
            n == self.items@.len(),
    {
        self.items.len()
    }
}

} // verus!
