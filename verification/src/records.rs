//! The records that flow through the scan pipeline: one discovered file with
//! its metadata, and the scan configuration.

use vstd::prelude::*;

verus! {

/// Hard ceiling on the size of a file the scanner will consider (10 GiB).
pub const MAX_FILE_SIZE: u64 = 10 * 1024 * 1024 * 1024;

/// Mathematical image of a [`FileEntry`]: the same fields with strings as
/// character sequences.
pub struct FileEntryV {
    pub path: Seq<char>,
    pub name: Seq<char>,
    pub size: u64,
    pub hash: Option<Seq<char>>,
}

/// Represents a scanned file with metadata.
pub struct FileEntry {
    pub path: String,
    pub name: String,
    pub size: u64,
    pub hash: Option<String>,
}

impl View for FileEntry {
    type V = FileEntryV;

    open spec fn view(&self) -> FileEntryV {
        FileEntryV {
            path: self.path@,
            name: self.name@,
            size: self.size,
            hash: match self.hash {
                Some(h) => Some(h@),
                None => None,
            },
        }
    }
}

impl FileEntry {
    pub fn new(path: String, name: String, size: u64) -> (e: Self)
        ensures
            e@.path == path@,
            e@.name == name@,
            e@.size == size,
            e@.hash is None,
    {
        FileEntry { path, name, size, hash: None }
    }
}

impl Clone for FileEntry {
    fn clone(&self) -> (e: Self)
        ensures
            e@ == self@,
    {
        FileEntry {
            path: self.path.clone(),
            name: self.name.clone(),
            size: self.size,
            hash: match &self.hash {
                Some(h) => Some(h.clone()),
                None => None,
            },
        }
    }
}

/// The view of a sequence of entries.
pub open spec fn entries_view(s: Seq<FileEntry>) -> Seq<FileEntryV> {
    s.map_values(|e: FileEntry| e@)
}

/// The view of a sequence of strings.
pub open spec fn strings_view(s: Seq<String>) -> Seq<Seq<char>> {
    s.map_values(|e: String| e@)
}

/// Scanner configuration.
pub struct ScannerConfig {
    pub recursive: bool,
    pub min_size: u64,
}

impl ScannerConfig {
    pub fn new(recursive: bool, min_size: u64) -> (c: Self)
        ensures
            c.recursive == recursive,
            c.min_size == min_size,
    {
        ScannerConfig { recursive, min_size }
    }
}

impl Clone for ScannerConfig {
    fn clone(&self) -> (c: Self)
        ensures
            c == *self,
    {
        ScannerConfig { recursive: self.recursive, min_size: self.min_size }
    }
}

impl Default for ScannerConfig {
    fn default() -> (c: Self)
        ensures
            c.recursive == true,
            c.min_size == 1,
    {
        ScannerConfig { recursive: true, min_size: 1 }
    }
}

/// Progress tracking for scan operations.
pub struct ScanProgress {
    pub phase: String,
    pub total_files: usize,
    pub processed_files: usize,
    pub current_file: String,
}

impl ScanProgress {
    pub fn new() -> (p: Self)
        ensures
            p.phase@ == Seq::<char>::empty(),
            p.total_files == 0,
            p.processed_files == 0,
            p.current_file@ == Seq::<char>::empty(),
    {
        ScanProgress {
            phase: String::new(),
            total_files: 0,
            processed_files: 0,
            current_file: String::new(),
        }
    }
}

/// An entry is one the collector is allowed to emit under `config`: its size
/// lies between the configured minimum and the hard ceiling, and it has not
/// been hashed yet.
pub open spec fn collectable(e: FileEntryV, min_size: u64) -> bool {
    &&& min_size <= e.size
    &&& e.size <= MAX_FILE_SIZE
    &&& e.hash is None
}

} // verus!
