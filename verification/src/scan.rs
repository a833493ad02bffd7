//! ScanCoordinator: sequences collection, size filtering, hashing and
//! grouping, aggregates errors, computes the summary statistics and returns
//! an immutable result snapshot.
//!
//! The hashing phase performs file I/O and runs on a worker pool, so it is
//! driven by the host: the coordinator prepares the candidate list
//! ([`Scanner::begin_scan`]), the host hashes each candidate (streaming its
//! bytes through [`crate::hashing::ContentHasher`]) and hands back one
//! [`HashOutcome`] per candidate, and the coordinator folds the outcomes into
//! the final result ([`Scanner::finish_scan`]). Cancellation and progress are
//! shared atomics: nothing is assumed about what a load returns, and every
//! contract holds for every value the flags may take.

use vstd::prelude::*;

use std::sync::atomic::{AtomicBool, AtomicUsize, Ordering};
use std::sync::Arc;

use crate::assemble::{
    excess_count, sat_usize, sort_desc, sort_groups_by_wasted, wasted_total, ScanResult,
};
use crate::collect::collect_files_with_cancel;
use crate::grouping::{
    all_hashed, group_by_hash, groups_spec, sat64, sum_sizes, DuplicateGroupV,
};
use crate::hashing::{hash_error_message, hash_error_msg};
use crate::records::{
    collectable, entries_view, strings_view, FileEntry, FileEntryV, ScannerConfig,
};
use crate::size_filter::size_candidates;

verus! {

/// What the host reports for one hashing candidate: the hex digest of its
/// content, a failure message (open/read error, oversize), or that the file
/// was skipped because cancellation was observed first.
pub enum HashOutcome {
    Hashed(String),
    Failed(String),
    Skipped,
}

/// Mathematical image of a [`HashOutcome`].
pub enum HashOutcomeV {
    Hashed(Seq<char>),
    Failed(Seq<char>),
    Skipped,
}

impl View for HashOutcome {
    type V = HashOutcomeV;

    open spec fn view(&self) -> HashOutcomeV {
        match self {
            HashOutcome::Hashed(d) => HashOutcomeV::Hashed(d@),
            HashOutcome::Failed(m) => HashOutcomeV::Failed(m@),
            HashOutcome::Skipped => HashOutcomeV::Skipped,
        }
    }
}

/// The view of a sequence of outcomes.
pub open spec fn outcomes_view(s: Seq<HashOutcome>) -> Seq<HashOutcomeV> {
    s.map_values(|o: HashOutcome| o@)
}

/// The record `e` with its digest filled in.
pub open spec fn with_hash(e: FileEntryV, d: Seq<char>) -> FileEntryV {
    FileEntryV { path: e.path, name: e.name, size: e.size, hash: Some(d) }
}

/// The hashed set produced from the candidates and their outcomes, in
/// candidate order: exactly the successfully hashed records, each with its
/// digest filled in. Failed and skipped candidates never appear — a record
/// with a missing digest cannot reach grouping.
pub open spec fn collate_spec(fs: Seq<FileEntryV>, os: Seq<HashOutcomeV>) -> Seq<FileEntryV>
    decreases fs.len(),
{
    if fs.len() == 0 || os.len() == 0 {
        Seq::empty()
    } else {
        let rest = collate_spec(fs.drop_last(), os.drop_last());
        match os.last() {
            HashOutcomeV::Hashed(d) => rest.push(with_hash(fs.last(), d)),
            _ => rest,
        }
    }
}

/// The error messages produced from the candidates and their outcomes, in
/// candidate order: one per failed candidate. Skipped candidates are not
/// errors — cancellation is not a failure.
pub open spec fn collate_errors_spec(fs: Seq<FileEntryV>, os: Seq<HashOutcomeV>) -> Seq<Seq<char>>
    decreases fs.len(),
{
    if fs.len() == 0 || os.len() == 0 {
        Seq::empty()
    } else {
        let rest = collate_errors_spec(fs.drop_last(), os.drop_last());
        match os.last() {
            HashOutcomeV::Failed(m) => rest.push(hash_error_msg(fs.last().path, m)),
            _ => rest,
        }
    }
}

/// Every collated record carries a digest.
pub proof fn lemma_collate_all_hashed(fs: Seq<FileEntryV>, os: Seq<HashOutcomeV>)
    ensures
        all_hashed(collate_spec(fs, os)),
    decreases fs.len(),
{
    if fs.len() == 0 || os.len() == 0 {
    } else {
        lemma_collate_all_hashed(fs.drop_last(), os.drop_last());
        let rest = collate_spec(fs.drop_last(), os.drop_last());
        match os.last() {
            HashOutcomeV::Hashed(d) => {
                assert(forall|i: int|
                    0 <= i < rest.len() ==> collate_spec(fs, os)[i] == rest[i]);
            },
            _ => {},
        }
    }
}

/// No more records come out of collation than candidates went in.
pub proof fn lemma_collate_bounded(fs: Seq<FileEntryV>, os: Seq<HashOutcomeV>)
    ensures
        collate_spec(fs, os).len() <= fs.len(),
    decreases fs.len(),
{
    if fs.len() == 0 || os.len() == 0 {
    } else {
        lemma_collate_bounded(fs.drop_last(), os.drop_last());
    }
}

/// Every collated record is a candidate with its digest filled in.
pub proof fn lemma_collate_member_origin(fs: Seq<FileEntryV>, os: Seq<HashOutcomeV>, i: int)
    requires
        0 <= i < collate_spec(fs, os).len(),
    ensures
        exists|j: int|
            0 <= j < fs.len() && collate_spec(fs, os)[i] == with_hash(
                #[trigger] fs[j],
                collate_spec(fs, os)[i].hash.unwrap(),
            ),
    decreases fs.len(),
{
    let out = collate_spec(fs, os);
    let rest = collate_spec(fs.drop_last(), os.drop_last());
    match os.last() {
        HashOutcomeV::Hashed(d) => {
            if i < rest.len() {
                lemma_collate_member_origin(fs.drop_last(), os.drop_last(), i);
                let j = choose|j: int|
                    0 <= j < fs.drop_last().len() && rest[i] == with_hash(
                        #[trigger] fs.drop_last()[j],
                        rest[i].hash.unwrap(),
                    );
                assert(fs[j] == fs.drop_last()[j]);
                assert(out[i] == rest[i]);
            } else {
                assert(out[i] == with_hash(fs.last(), d));
                assert(fs[fs.len() - 1] == fs.last());
            }
        },
        _ => {
            lemma_collate_member_origin(fs.drop_last(), os.drop_last(), i);
            let j = choose|j: int|
                0 <= j < fs.drop_last().len() && rest[i] == with_hash(
                    #[trigger] fs.drop_last()[j],
                    rest[i].hash.unwrap(),
                );
            assert(fs[j] == fs.drop_last()[j]);
            assert(out[i] == rest[i]);
        },
    }
}

/// Folds the per-candidate outcomes into the hashed set and the error list.
/// Failed candidates contribute an error message; skipped candidates (the
/// host saw cancellation) contribute nothing.
pub fn collate_hash_results(
    files: Vec<FileEntry>,
    outcomes: Vec<HashOutcome>,
    errors: &mut Vec<String>,
) -> (hashed: Vec<FileEntry>)
    requires
        files@.len() == outcomes@.len(),
    ensures
        entries_view(hashed@) == collate_spec(entries_view(files@), outcomes_view(outcomes@)),
        strings_view(final(errors)@) == strings_view(old(errors)@) + collate_errors_spec(
            entries_view(files@),
            outcomes_view(outcomes@),
        ),
        all_hashed(entries_view(hashed@)),
{
    let ghost all_f = entries_view(files@);
    let ghost all_o = outcomes_view(outcomes@);
    let mut frest = files;
    let mut orest = outcomes;
    let mut hashed: Vec<FileEntry> = Vec::new();
    while frest.len() > 0
        invariant
            frest@.len() == orest@.len(),
            frest@.len() <= all_f.len(),
            all_f.len() == all_o.len(),
            entries_view(frest@) =~= all_f.skip(all_f.len() - frest@.len()),
            outcomes_view(orest@) =~= all_o.skip(all_f.len() - frest@.len()),
            entries_view(hashed@) =~= collate_spec(
                all_f.take(all_f.len() - frest@.len()),
                all_o.take(all_f.len() - frest@.len()),
            ),
            strings_view(errors@) =~= strings_view(old(errors)@) + collate_errors_spec(
                all_f.take(all_f.len() - frest@.len()),
                all_o.take(all_f.len() - frest@.len()),
            ),
        decreases frest@.len(),
    {
        let ghost j: int = all_f.len() - frest@.len();
        let ghost fprev = frest@;
        let ghost oprev = orest@;
        proof {
            assert(entries_view(fprev)[0] == all_f.skip(j)[0]);
            assert(all_f.skip(j)[0] == all_f[j]);
            assert(outcomes_view(oprev)[0] == all_o.skip(j)[0]);
            assert(all_o.skip(j)[0] == all_o[j]);
        }
        let mut e = frest.remove(0);
        let o = orest.remove(0);
        proof {
            assert(e@ == all_f[j]);
            assert(o@ == all_o[j]);
            assert(entries_view(frest@) =~= entries_view(fprev).skip(1));
            assert(entries_view(frest@) =~= all_f.skip(j + 1));
            assert(outcomes_view(orest@) =~= outcomes_view(oprev).skip(1));
            assert(outcomes_view(orest@) =~= all_o.skip(j + 1));
            assert(all_f.take(j + 1).drop_last() =~= all_f.take(j));
            assert(all_o.take(j + 1).drop_last() =~= all_o.take(j));
            assert(all_f.take(j + 1).last() == all_f[j]);
            assert(all_o.take(j + 1).last() == all_o[j]);
        }
        let ghost hprev = entries_view(hashed@);
        let ghost eprev = strings_view(errors@);
        match o {
            HashOutcome::Hashed(d) => {
                let ghost dv = d@;
                proof {
                    assert(all_o[j] == HashOutcomeV::Hashed(dv));
                }
                e.hash = Some(d);
                proof {
                    assert(e@ == with_hash(all_f[j], dv));
                    assert(collate_spec(all_f.take(j + 1), all_o.take(j + 1)) == collate_spec(
                        all_f.take(j),
                        all_o.take(j),
                    ).push(with_hash(all_f[j], dv)));
                    assert(collate_errors_spec(all_f.take(j + 1), all_o.take(j + 1))
                        == collate_errors_spec(all_f.take(j), all_o.take(j)));
                }
                hashed.push(e);
                proof {
                    assert(entries_view(hashed@) =~= hprev.push(with_hash(all_f[j], dv)));
                    assert(entries_view(hashed@) =~= collate_spec(
                        all_f.take(j + 1),
                        all_o.take(j + 1),
                    ));
                    assert(strings_view(errors@) =~= strings_view(old(errors)@)
                        + collate_errors_spec(all_f.take(j + 1), all_o.take(j + 1)));
                }
            },
            HashOutcome::Failed(m) => {
                proof {
                    assert(all_o[j] == HashOutcomeV::Failed(m@));
                }
                let msg = hash_error_message(e.path.as_str(), m.as_str());
                proof {
                    assert(e@.path == all_f[j].path);
                    assert(msg@ == hash_error_msg(all_f[j].path, m@));
                    assert(collate_spec(all_f.take(j + 1), all_o.take(j + 1)) == collate_spec(
                        all_f.take(j),
                        all_o.take(j),
                    ));
                    assert(collate_errors_spec(all_f.take(j + 1), all_o.take(j + 1))
                        == collate_errors_spec(all_f.take(j), all_o.take(j)).push(hash_error_msg(
                        all_f[j].path,
                        m@,
                    )));
                }
                errors.push(msg);
                proof {
                    assert(strings_view(errors@) =~= eprev.push(msg@));
                    assert(entries_view(hashed@) =~= collate_spec(
                        all_f.take(j + 1),
                        all_o.take(j + 1),
                    ));
                    assert(strings_view(errors@) =~= strings_view(old(errors)@)
                        + collate_errors_spec(all_f.take(j + 1), all_o.take(j + 1)));
                }
            },
            HashOutcome::Skipped => {
                proof {
                    assert(all_o[j] == HashOutcomeV::Skipped);
                    assert(collate_spec(all_f.take(j + 1), all_o.take(j + 1)) == collate_spec(
                        all_f.take(j),
                        all_o.take(j),
                    ));
                    assert(collate_errors_spec(all_f.take(j + 1), all_o.take(j + 1))
                        == collate_errors_spec(all_f.take(j), all_o.take(j)));
                    assert(entries_view(hashed@) =~= collate_spec(
                        all_f.take(j + 1),
                        all_o.take(j + 1),
                    ));
                    assert(strings_view(errors@) =~= strings_view(old(errors)@)
                        + collate_errors_spec(all_f.take(j + 1), all_o.take(j + 1)));
                }
            },
        }
    }
    proof {
        assert(all_f.take(all_f.len() as int) =~= all_f);
        assert(all_o.take(all_o.len() as int) =~= all_o);
        lemma_collate_all_hashed(all_f, all_o);
    }
    hashed
}

/// Relies on `std::sync::Arc::clone`: another handle to the same shared flag.
#[verifier::external_body]
fn arc_clone_flag(a: &Arc<AtomicBool>) -> Arc<AtomicBool> {
    Arc::clone(a)
}

/// What `begin_scan` hands to the host: the candidates still to hash, the
/// partial result accumulated so far (totals and collection errors, no
/// groups), and whether cancellation was already observed. The ghost field
/// carries the collected set the candidates were filtered from, so that
/// callers can reason about the whole pipeline.
pub struct ScanPlan {
    pub candidates: Vec<FileEntry>,
    pub partial: ScanResult,
    pub cancelled: bool,
    pub collected: Ghost<Seq<FileEntryV>>,
}

/// The main scanner: configuration plus the shared cancellation flag and
/// progress counters that an observer on another thread may poll.
pub struct Scanner {
    config: ScannerConfig,
    cancel_flag: Arc<AtomicBool>,
    progress_total: Arc<AtomicUsize>,
    progress_current: Arc<AtomicUsize>,
}

impl Scanner {
    /// The configuration this scanner was built with.
    pub closed spec fn spec_config(&self) -> ScannerConfig {
        self.config
    }

    pub fn new(config: ScannerConfig) -> (s: Self)
        ensures
            s.spec_config() == config,
    {
        Scanner {
            config,
            cancel_flag: Arc::new(AtomicBool::new(false)),
            progress_total: Arc::new(AtomicUsize::new(0)),
            progress_current: Arc::new(AtomicUsize::new(0)),
        }
    }

    /// A handle to the shared cancellation flag.
    pub fn get_cancel_flag(&self) -> Arc<AtomicBool> {
        arc_clone_flag(&self.cancel_flag)
    }

    /// The shared progress counters: files hashed so far, and the total to
    /// hash. Their values are written concurrently, so nothing is promised
    /// about what a read returns.
    pub fn get_progress(&self) -> (usize, usize) {
        (
            self.progress_current.load(Ordering::Relaxed),
            self.progress_total.load(Ordering::Relaxed),
        )
    }

    /// Requests cancellation of the current scan.
    pub fn cancel(&self) {
        self.cancel_flag.store(true, Ordering::Relaxed);
    }

    /// Clears the cancellation flag and the progress counters.
    pub fn reset(&self) {
        self.cancel_flag.store(false, Ordering::Relaxed);
        self.progress_current.store(0, Ordering::Relaxed);
        self.progress_total.store(0, Ordering::Relaxed);
    }

    /// The collection and size-filtering phases. Resets the progress
    /// counters, collects the files of every root (checking the cancel flag
    /// before each root and each entry), records per-entry failures as error
    /// messages, totals what was collected, and keeps as hashing candidates
    /// exactly the records whose size occurs at least twice. Sets the shared
    /// total to the candidate count so observers can read `processed/total`.
    ///
    /// On cancellation the plan is marked cancelled and carries no
    /// candidates, with totals still zero, like a scan that never got to
    /// counting.
    pub fn begin_scan(
        &self,
        paths: &Vec<String>,
        progress_current: &AtomicUsize,
        progress_total: &AtomicUsize,
        cancel_flag: &AtomicBool,
    ) -> (plan: ScanPlan)
        ensures
            forall|i: int|
                0 <= i < plan.collected@.len() ==> collectable(
                    #[trigger] plan.collected@[i],
                    self.spec_config().min_size,
                ),
            plan.partial@.duplicate_groups == Seq::<DuplicateGroupV>::empty(),
            plan.partial@.total_duplicates == 0,
            plan.partial@.wasted_space == 0,
            !plan.cancelled ==> {
                &&& entries_view(plan.candidates@) == size_candidates(plan.collected@)
                &&& plan.partial@.total_files == plan.collected@.len()
                &&& plan.partial@.total_size == sat64(sum_sizes(plan.collected@))
            },
            plan.cancelled ==> {
                &&& plan.candidates@.len() == 0
                &&& plan.partial@.total_files == 0
                &&& plan.partial@.total_size == 0
            },
    {
        progress_current.store(0, Ordering::Relaxed);
        progress_total.store(0, Ordering::Relaxed);

        let mut partial = ScanResult::new();
        let mut files: Vec<FileEntry> = Vec::new();
        let mut i: usize = 0;
        while i < paths.len()
            invariant
                forall|t: int|
                    0 <= t < files@.len() ==> collectable(
                        #[trigger] files@[t]@,
                        self.spec_config().min_size,
                    ),
                partial@.duplicate_groups == Seq::<DuplicateGroupV>::empty(),
                partial@.total_duplicates == 0,
                partial@.wasted_space == 0,
                partial@.total_files == 0,
                partial@.total_size == 0,
            decreases paths@.len() - i,
        {
            if cancel_flag.load(Ordering::Relaxed) {
                return ScanPlan {
                    candidates: Vec::new(),
                    partial,
                    cancelled: true,
                    collected: Ghost(Seq::empty()),
                };
            }
            let mut dir_files = collect_files_with_cancel(
                &self.config,
                paths[i].as_str(),
                cancel_flag,
                &mut partial.errors,
            );
            files.append(&mut dir_files);
            i = i + 1;
        }

        if cancel_flag.load(Ordering::Relaxed) {
            return ScanPlan {
                candidates: Vec::new(),
                partial,
                cancelled: true,
                collected: Ghost(Seq::empty()),
            };
        }

        let ghost collected = entries_view(files@);
        partial.total_files = files.len();
        partial.total_size = crate::grouping::sum_entry_sizes(&files);

        let candidates = crate::size_filter::group_by_size(files);

        progress_total.store(candidates.len(), Ordering::Relaxed);
        progress_current.store(0, Ordering::Relaxed);

        ScanPlan { candidates, partial, cancelled: false, collected: Ghost(collected) }
    }

    /// The grouping and assembly phase. Folds the host's per-candidate
    /// outcomes into the error list and the hashed set; then, unless
    /// cancellation is observed, groups the hashed records by digest, sorts
    /// the groups by descending wasted size and computes the totals. A
    /// cancelled scan keeps the partial totals and all errors accumulated so
    /// far, with no groups — well-formed, for the caller to discard.
    pub fn finish_scan(
        &self,
        partial: ScanResult,
        candidates: Vec<FileEntry>,
        outcomes: Vec<HashOutcome>,
        cancel_flag: &AtomicBool,
    ) -> (r: ScanResult)
        requires
            candidates@.len() == outcomes@.len(),
        ensures
            ({
                let hashed = collate_spec(entries_view(candidates@), outcomes_view(outcomes@));
                let sorted = sort_desc(groups_spec(hashed));
                &&& r@.total_files == partial@.total_files
                &&& r@.total_size == partial@.total_size
                &&& r@.errors == partial@.errors + collate_errors_spec(
                    entries_view(candidates@),
                    outcomes_view(outcomes@),
                )
                &&& {
                    ||| {
                        &&& r@.duplicate_groups == partial@.duplicate_groups
                        &&& r@.total_duplicates == partial@.total_duplicates
                        &&& r@.wasted_space == partial@.wasted_space
                    }
                    ||| {
                        &&& r@.duplicate_groups == sorted
                        &&& r@.total_duplicates == excess_count(sorted)
                        &&& r@.wasted_space == sat64(wasted_total(sorted))
                    }
                }
            }),
    {
        let mut partial = partial;
        let hashed = collate_hash_results(candidates, outcomes, &mut partial.errors);

        if cancel_flag.load(Ordering::Relaxed) {
            return partial;
        }

        assemble_result(partial, hashed)
    }
}

/// The deterministic tail of the pipeline: groups the hashed records by
/// digest, sorts the groups by descending wasted size (stable in discovery
/// order) and fills in the summary statistics. The totals satisfy, by
/// construction, `total_duplicates == Σ (member_count − 1)` and
/// `wasted_space == Σ wasted_size` over the reported groups (saturating at
/// the machine word).
pub fn assemble_result(partial: ScanResult, hashed: Vec<FileEntry>) -> (r: ScanResult)
    requires
        all_hashed(entries_view(hashed@)),
    ensures
        r@.total_files == partial@.total_files,
        r@.total_size == partial@.total_size,
        r@.errors == partial@.errors,
        r@.duplicate_groups == sort_desc(groups_spec(entries_view(hashed@))),
        r@.total_duplicates == sat_usize(excess_count(r@.duplicate_groups)),
        r@.total_duplicates == excess_count(r@.duplicate_groups),
        r@.wasted_space == sat64(wasted_total(r@.duplicate_groups)),
        crate::assemble::sorted_desc(r@.duplicate_groups),
{
    let hashed_count = hashed.len();
    proof {
        assert(entries_view(hashed@).len() == hashed_count);
        crate::assemble::lemma_total_duplicates_exact(entries_view(hashed@));
        crate::assemble::lemma_sort_desc_sorted(groups_spec(entries_view(hashed@)));
    }
    let groups = group_by_hash(hashed);
    let sorted = sort_groups_by_wasted(groups);
    let stats = crate::assemble::result_stats(&sorted);
    ScanResult {
        total_files: partial.total_files,
        total_size: partial.total_size,
        duplicate_groups: sorted,
        total_duplicates: stats.0,
        wasted_space: stats.1,
        errors: partial.errors,
    }
}

/// The groups one whole scan reports for a collected set, given the per-file
/// hashing outcomes: size filtering, collation of the digests, grouping by
/// digest, and the final sort by descending wasted size.
pub open spec fn pipeline_groups(
    collected: Seq<FileEntryV>,
    outcomes: Seq<HashOutcomeV>,
) -> Seq<DuplicateGroupV> {
    sort_desc(groups_spec(collate_spec(size_candidates(collected), outcomes)))
}

/// Every group a scan reports is well formed, whatever the hashing outcomes
/// were: it has at least two members, all of one size and the group's own
/// digest; its total is size times member count (saturating at the word);
/// and its wasted size is the total minus the one copy that would be kept.
pub proof fn lemma_pipeline_group_well_formed(
    collected: Seq<FileEntryV>,
    outcomes: Seq<HashOutcomeV>,
    g: DuplicateGroupV,
)
    requires
        pipeline_groups(collected, outcomes).contains(g),
    ensures
        g.files.len() >= 2,
        forall|i: int|
            0 <= i < g.files.len() ==> (#[trigger] g.files[i]).size == g.files[0].size,
        forall|i: int|
            0 <= i < g.files.len() ==> (#[trigger] g.files[i]).hash == Some(g.hash),
        sum_sizes(g.files) == g.files[0].size * g.files.len(),
        sum_sizes(g.files) <= u64::MAX ==> g.total_size == g.files[0].size * g.files.len(),
        g.wasted_size == g.total_size - g.files[0].size,
{
    let hashed = collate_spec(size_candidates(collected), outcomes);
    crate::assemble::lemma_sort_desc_membership(groups_spec(hashed), g);
    crate::grouping::lemma_group_well_formed(hashed, g);
}

/// Every member of a reported group survived the size filter: some collected
/// record has its exact size, and that size occurs at least twice among the
/// collected records.
pub proof fn lemma_pipeline_member_origin(
    collected: Seq<FileEntryV>,
    outcomes: Seq<HashOutcomeV>,
    g: DuplicateGroupV,
    i: int,
)
    requires
        pipeline_groups(collected, outcomes).contains(g),
        0 <= i < g.files.len(),
    ensures
        exists|j: int|
            0 <= j < collected.len() && (#[trigger] collected[j]).size == g.files[i].size,
        crate::size_filter::size_occurs(
            crate::size_filter::sizes_of(collected),
            g.files[i].size,
        ) >= 2,
{
    let cands = size_candidates(collected);
    let hashed = collate_spec(cands, outcomes);
    crate::assemble::lemma_sort_desc_membership(groups_spec(hashed), g);
    crate::grouping::lemma_group_well_formed(hashed, g);
    assert(hashed.contains(g.files[i]));
    let hj = choose|hj: int| 0 <= hj < hashed.len() && hashed[hj] == g.files[i];
    lemma_collate_member_origin(cands, outcomes, hj);
    let cj = choose|cj: int|
        0 <= cj < cands.len() && hashed[hj] == with_hash(
            #[trigger] cands[cj],
            hashed[hj].hash.unwrap(),
        );
    assert(g.files[i].size == cands[cj].size);
    crate::seq_util::lemma_filter_sound(
        collected,
        crate::size_filter::dup_size_pred(crate::size_filter::sizes_of(collected)),
        cj,
    );
    assert(crate::size_filter::size_occurs(
        crate::size_filter::sizes_of(collected),
        cands[cj].size,
    ) >= 2);
    let t = choose|t: int| 0 <= t < collected.len() && collected[t] == cands[cj];
    assert(collected[t].size == g.files[i].size);
}

/// No file whose size is unique within the collected set ever appears in a
/// reported group: the size pre-filter is correct.
pub proof fn lemma_unique_size_never_grouped(
    collected: Seq<FileEntryV>,
    outcomes: Seq<HashOutcomeV>,
    g: DuplicateGroupV,
    i: int,
)
    requires
        pipeline_groups(collected, outcomes).contains(g),
        0 <= i < g.files.len(),
    ensures
        crate::size_filter::size_occurs(
            crate::size_filter::sizes_of(collected),
            g.files[i].size,
        ) >= 2,
{
    lemma_pipeline_member_origin(collected, outcomes, g, i);
}

/// No file strictly smaller than the configured minimum size ever appears in
/// a reported group, provided — as the collector guarantees — every collected
/// record respects the minimum.
pub proof fn lemma_min_size_respected(
    collected: Seq<FileEntryV>,
    outcomes: Seq<HashOutcomeV>,
    min_size: u64,
    g: DuplicateGroupV,
    i: int,
)
    requires
        forall|t: int| 0 <= t < collected.len() ==> (#[trigger] collected[t]).size >= min_size,
        pipeline_groups(collected, outcomes).contains(g),
        0 <= i < g.files.len(),
    ensures
        g.files[i].size >= min_size,
{
    lemma_pipeline_member_origin(collected, outcomes, g, i);
    let j = choose|j: int|
        0 <= j < collected.len() && (#[trigger] collected[j]).size == g.files[i].size;
    assert(collected[j].size >= min_size);
}

/// The pure pipeline is deterministic: scanning the same collected records
/// with the same hashing outcomes reports identical groups. Together with
/// the digest's determinism (equal bytes give equal digests), running a scan
/// twice over an unmodified tree that is traversed in the same order yields
/// the same groups.
pub proof fn lemma_scan_deterministic(
    c1: Seq<FileEntryV>,
    o1: Seq<HashOutcomeV>,
    c2: Seq<FileEntryV>,
    o2: Seq<HashOutcomeV>,
)
    requires
        c1 == c2,
        o1 == o2,
    ensures
        pipeline_groups(c1, o1) == pipeline_groups(c2, o2),
{
}

} // verus!
