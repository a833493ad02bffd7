//! FileCollector: walks one root, filters entries by type and size, and emits
//! flat file records. Traversal is interruptible through a shared cancel flag,
//! and per-entry failures are recorded as non-fatal error messages.

use vstd::prelude::*;

use std::sync::atomic::{AtomicBool, Ordering};

use crate::records::{collectable, FileEntry, FileEntryV, ScannerConfig, MAX_FILE_SIZE};
use crate::text_util::dec_rep;
use crate::walk::{
    entry_file_name, entry_is_file, entry_path_string, entry_size, walk_next,
    walk_start_recursive, walk_start_shallow,
};

verus! {

/// The message recorded when an entry's metadata cannot be read.
pub open spec fn read_error_msg(path: Seq<char>, err: Seq<char>) -> Seq<char> {
    "Failed to read "@ + path + ": "@ + err
}

/// Builds the non-fatal error message for an entry whose metadata read failed.
pub fn read_error_message(path: &str, err: &str) -> (s: String)
    ensures
        s@ == read_error_msg(path@, err@),
{
    let mut s = String::from_str("Failed to read ");
    s.append(path);
    s.append(": ");
    s.append(err);
    proof {
        assert(s@ =~= read_error_msg(path@, err@));
    }
    s
}

/// The message recorded when a collected entry exceeds the hard size ceiling.
pub open spec fn oversize_entry_msg(path: Seq<char>, size: u64) -> Seq<char> {
    "File too large: "@ + path + " ("@ + dec_rep(size as int) + " > "@ + dec_rep(
        MAX_FILE_SIZE as int,
    ) + " bytes)"@
}

/// Builds the non-fatal error message for an oversized entry.
pub fn oversize_entry_message(path: &str, size: u64) -> (s: String)
    ensures
        s@ == oversize_entry_msg(path@, size),
{
    let mut s = String::from_str("File too large: ");
    s.append(path);
    s.append(" (");
    s.append(crate::text_util::u64_to_string(size).as_str());
    s.append(" > ");
    s.append(crate::text_util::u64_to_string(MAX_FILE_SIZE).as_str());
    s.append(" bytes)");
    proof {
        assert(s@ =~= oversize_entry_msg(path@, size));
    }
    s
}

/// The record admitted for a regular file of the given path, name and size.
pub open spec fn admitted_record(path: Seq<char>, name: Seq<char>, size: u64) -> FileEntryV {
    FileEntryV { path, name, size, hash: None }
}

/// The per-entry decision of the collector, applied to one regular file whose
/// size was read (or failed to read): admit it, skip it silently when it is
/// under the configured minimum, or record an error when it is over the hard
/// ceiling or unreadable.
pub fn admit_entry(
    min_size: u64,
    path: String,
    name: String,
    size_result: Result<u64, String>,
    files: &mut Vec<FileEntry>,
    errors: &mut Vec<String>,
) -> (admitted: bool)
    ensures
        match size_result {
            Ok(size) => {
                &&& (min_size <= size <= MAX_FILE_SIZE) == admitted
                &&& admitted ==> {
                    &&& final(files)@ == old(files)@.push(final(files)@.last())
                    &&& final(files)@.last()@ == admitted_record(path@, name@, size)
                    &&& final(errors)@ == old(errors)@
                }
                &&& size > MAX_FILE_SIZE ==> {
                    &&& final(files)@ == old(files)@
                    &&& final(errors)@ == old(errors)@.push(final(errors)@.last())
                    &&& final(errors)@.last()@ == oversize_entry_msg(path@, size)
                }
                &&& (size < min_size && size <= MAX_FILE_SIZE) ==> final(files)@ == old(files)@
                    && final(errors)@ == old(errors)@
            },
            Err(err) => {
                &&& !admitted
                &&& final(files)@ == old(files)@
                &&& final(errors)@ == old(errors)@.push(final(errors)@.last())
                &&& final(errors)@.last()@ == read_error_msg(path@, err@)
            },
        },
{
    match size_result {
        Ok(size) => {
            if size >= min_size && size <= MAX_FILE_SIZE {
                files.push(FileEntry::new(path, name, size));
                true
            } else if size > MAX_FILE_SIZE {
                let msg = oversize_entry_message(path.as_str(), size);
                errors.push(msg);
                false
            } else {
                false
            }
        },
        Err(err) => {
            let msg = read_error_message(path.as_str(), err.as_str());
            errors.push(msg);
            false
        },
    }
}

/// Collects every regular file under `root` whose size lies between the
/// configured minimum and the hard ceiling. Descends into subdirectories only
/// when the configuration says so; symbolic links are never followed. Before
/// each entry the shared cancel flag is consulted, and traversal of this root
/// stops promptly once it is set, returning whatever was collected so far.
/// Per-entry failures are appended to `errors` and do not abort the walk.
pub fn collect_files_with_cancel(
    config: &ScannerConfig,
    root: &str,
    cancel_flag: &AtomicBool,
    errors: &mut Vec<String>,
) -> (files: Vec<FileEntry>)
    ensures
        forall|i: int|
            0 <= i < files@.len() ==> collectable(#[trigger] files@[i]@, config.min_size),
        old(errors)@.is_prefix_of(final(errors)@),
{
    let mut files: Vec<FileEntry> = Vec::new();
    let mut it = if config.recursive {
        walk_start_recursive(root)
    } else {
        walk_start_shallow(root)
    };
    loop
        invariant
            forall|i: int|
                0 <= i < files@.len() ==> collectable(#[trigger] files@[i]@, config.min_size),
            old(errors)@.is_prefix_of(errors@),
        decreases it.remaining(),
    {
        if cancel_flag.load(Ordering::Relaxed) {
            break;
        }
        match walk_next(&mut it) {
            None => {
                break;
            },
            Some(Err(msg)) => {
                errors.push(msg);
                proof {
                    assert(old(errors)@.is_prefix_of(errors@));
                }
            },
            Some(Ok(entry)) => {
                if entry_is_file(&entry) {
                    let path = entry_path_string(&entry);
                    let name = entry_file_name(&entry);
                    let size_result = entry_size(&entry);
                    admit_entry(config.min_size, path, name, size_result, &mut files, errors);
                }
            },
        }
    }
    files
}

} // verus!
