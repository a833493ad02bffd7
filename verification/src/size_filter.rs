//! SizeBucketer: partitions the collected set by exact byte size and keeps
//! only the records whose size occurs at least twice. A file whose size is
//! unique in the collected set cannot have a duplicate, so it is dropped
//! before any hashing happens. This stage is pure: it never touches the
//! filesystem.

use vstd::prelude::*;

use crate::records::{entries_view, FileEntry, FileEntryV};
use crate::seq_util::lemma_filter_push;

verus! {

/// Holds of the sizes equal to `sz`.
pub open spec fn size_eq_pred(sz: u64) -> spec_fn(u64) -> bool {
    |x: u64| x == sz
}

/// How often the exact size `sz` occurs in a list of sizes.
pub open spec fn size_occurs(sizes: Seq<u64>, sz: u64) -> nat {
    sizes.filter(size_eq_pred(sz)).len()
}

/// The sizes of a sequence of records, in order.
pub open spec fn sizes_of(s: Seq<FileEntryV>) -> Seq<u64> {
    s.map_values(|e: FileEntryV| e.size)
}

/// Holds of a record whose size occurs at least twice in the collected set.
pub open spec fn dup_size_pred(all_sizes: Seq<u64>) -> spec_fn(FileEntryV) -> bool {
    |e: FileEntryV| size_occurs(all_sizes, e.size) >= 2
}

/// The records that survive size bucketing: exactly those, in their original
/// order, whose exact size occurs at least twice in the collected set.
pub open spec fn size_candidates(s: Seq<FileEntryV>) -> Seq<FileEntryV> {
    s.filter(dup_size_pred(sizes_of(s)))
}

/// Counts the records with size exactly `sz`.
fn count_size(sizes: &Vec<u64>, sz: u64) -> (n: usize)
    ensures
        n == size_occurs(sizes@, sz),
{
    let mut n: usize = 0;
    let mut i: usize = 0;
    while i < sizes.len()
        invariant
            i <= sizes@.len(),
            n == size_occurs(sizes@.take(i as int), sz),
            n <= i,
        decreases sizes@.len() - i,
    {
        proof {
            assert(sizes@.take(i + 1 as int).drop_last() =~= sizes@.take(i as int));
            lemma_filter_push(sizes@.take(i as int), sizes@[i as int], size_eq_pred(sz));
            assert(sizes@.take(i as int).push(sizes@[i as int]) =~= sizes@.take(i + 1 as int));
        }
        if sizes[i] == sz {
            n = n + 1;
        }
        i = i + 1;
    }
    proof {
        assert(sizes@.take(sizes@.len() as int) =~= sizes@);
    }
    n
}

/// Partitions the collected records by exact byte size and returns the
/// concatenation of all buckets with two or more members, keeping the
/// collected order. Singleton-size files are provably non-duplicates and are
/// dropped without being hashed.
pub fn group_by_size(files: Vec<FileEntry>) -> (out: Vec<FileEntry>)
    ensures
        entries_view(out@) == size_candidates(entries_view(files@)),
{
    let ghost all: Seq<FileEntryV> = entries_view(files@);
    let ghost pred = dup_size_pred(sizes_of(all));

    // First pass: the full list of sizes, so that each record's bucket
    // population can be counted against the whole collected set.
    let mut sizes: Vec<u64> = Vec::new();
    let mut i: usize = 0;
    while i < files.len()
        invariant
            i <= files@.len(),
            all == entries_view(files@),
            sizes@ =~= sizes_of(all.take(i as int)),
        decreases files@.len() - i,
    {
        sizes.push(files[i].size);
        proof {
            assert(sizes@ =~= sizes_of(all.take(i + 1 as int)));
        }
        i = i + 1;
    }
    proof {
        assert(all.take(all.len() as int) =~= all);
        assert(sizes@ =~= sizes_of(all));
    }

    // Second pass: keep exactly the records whose size occurs twice or more.
    let mut rest = files;
    let mut out: Vec<FileEntry> = Vec::new();
    while rest.len() > 0
        invariant
            rest@.len() <= all.len(),
            entries_view(rest@) =~= all.skip(all.len() - rest@.len()),
            entries_view(out@) =~= all.take(all.len() - rest@.len()).filter(pred),
            sizes@ == sizes_of(all),
            pred == dup_size_pred(sizes_of(all)),
        decreases rest@.len(),
    {
        let ghost j: int = all.len() - rest@.len();
        let ghost prev = rest@;
        proof {
            assert(entries_view(prev)[0] == all.skip(j)[0]);
            assert(all.skip(j)[0] == all[j]);
        }
        let e = rest.remove(0);
        proof {
            assert(e@ == all[j]);
            assert(entries_view(rest@) =~= entries_view(prev).skip(1));
            assert(entries_view(rest@) =~= all.skip(j + 1));
            lemma_filter_push(all.take(j), all[j], pred);
            assert(all.take(j).push(all[j]) =~= all.take(j + 1));
        }
        let keep = count_size(&sizes, e.size) >= 2;
        if keep {
            out.push(e);
            proof {
                assert(entries_view(out@) =~= all.take(j + 1).filter(pred));
            }
        } else {
            proof {
                assert(entries_view(out@) =~= all.take(j + 1).filter(pred));
            }
        }
    }
    proof {
        assert(all.take(all.len() as int) =~= all);
        assert(entries_view(out@) =~= size_candidates(entries_view(files@)));
    }
    out
}

} // verus!
