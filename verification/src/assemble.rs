//! Result assembly: the immutable scan result, its summary statistics, and
//! the stable descending sort by wasted size that surfaces the most
//! storage-impactful duplicate groups first.

use vstd::prelude::*;
use vstd::multiset::Multiset;

use crate::grouping::{groups_view, sat64, DuplicateGroup, DuplicateGroupV};
use crate::records::strings_view;

verus! {

/// Mathematical image of a [`ScanResult`].
pub struct ScanResultV {
    pub total_files: usize,
    pub total_size: u64,
    pub duplicate_groups: Seq<DuplicateGroupV>,
    pub total_duplicates: usize,
    pub wasted_space: u64,
    pub errors: Seq<Seq<char>>,
}

/// Result of a duplicate scan.
pub struct ScanResult {
    pub total_files: usize,
    pub total_size: u64,
    pub duplicate_groups: Vec<DuplicateGroup>,
    pub total_duplicates: usize,
    pub wasted_space: u64,
    pub errors: Vec<String>,
}

impl View for ScanResult {
    type V = ScanResultV;

    open spec fn view(&self) -> ScanResultV {
        ScanResultV {
            total_files: self.total_files,
            total_size: self.total_size,
            duplicate_groups: groups_view(self.duplicate_groups@),
            total_duplicates: self.total_duplicates,
            wasted_space: self.wasted_space,
            errors: strings_view(self.errors@),
        }
    }
}

impl ScanResult {
    /// An empty result: nothing scanned, nothing found, nothing failed.
    pub fn new() -> (r: Self)
        ensures
            r.total_files == 0,
            r.total_size == 0,
            r@.duplicate_groups == Seq::<DuplicateGroupV>::empty(),
            r.total_duplicates == 0,
            r.wasted_space == 0,
            r@.errors == Seq::<Seq<char>>::empty(),
    {
        let r = ScanResult {
            total_files: 0,
            total_size: 0,
            duplicate_groups: Vec::new(),
            total_duplicates: 0,
            wasted_space: 0,
            errors: Vec::new(),
        };
        proof {
            assert(r@.duplicate_groups =~= Seq::<DuplicateGroupV>::empty());
            assert(r@.errors =~= Seq::<Seq<char>>::empty());
        }
        r
    }
}

impl Default for ScanResult {
    fn default() -> (r: Self)
        ensures
            r.total_files == 0,
            r.total_size == 0,
            r@.duplicate_groups == Seq::<DuplicateGroupV>::empty(),
            r.total_duplicates == 0,
            r.wasted_space == 0,
            r@.errors == Seq::<Seq<char>>::empty(),
    {
        ScanResult::new()
    }
}

/// Insertion of one group into a sequence sorted by descending wasted size:
/// the new group goes in front of the first strictly smaller entry, hence
/// after every earlier group with the same wasted size (a stable insertion).
pub open spec fn insert_desc(s: Seq<DuplicateGroupV>, g: DuplicateGroupV) -> Seq<DuplicateGroupV>
    decreases s.len(),
{
    if s.len() == 0 {
        seq![g]
    } else if s[0].wasted_size < g.wasted_size {
        seq![g] + s
    } else {
        seq![s[0]] + insert_desc(s.skip(1), g)
    }
}

/// Stable insertion sort by descending wasted size, processing groups in
/// discovery order.
pub open spec fn sort_desc(s: Seq<DuplicateGroupV>) -> Seq<DuplicateGroupV>
    decreases s.len(),
{
    if s.len() == 0 {
        Seq::empty()
    } else {
        insert_desc(sort_desc(s.drop_last()), s.last())
    }
}

/// Sorted by non-increasing wasted size.
pub open spec fn sorted_desc(s: Seq<DuplicateGroupV>) -> bool {
    forall|i: int, j: int|
        0 <= i <= j < s.len() ==> #[trigger] s[i].wasted_size >= #[trigger] s[j].wasted_size
}

proof fn lemma_insert_desc_at(s: Seq<DuplicateGroupV>, g: DuplicateGroupV, idx: int)
    requires
        0 <= idx <= s.len(),
        forall|t: int| 0 <= t < idx ==> !((#[trigger] s[t]).wasted_size < g.wasted_size),
        idx < s.len() ==> s[idx].wasted_size < g.wasted_size,
    ensures
        insert_desc(s, g) == s.take(idx) + seq![g] + s.skip(idx),
    decreases idx,
{
    if idx == 0 {
        if s.len() == 0 {
            assert(insert_desc(s, g) =~= s.take(0) + seq![g] + s.skip(0));
        } else {
            assert(insert_desc(s, g) =~= s.take(0) + seq![g] + s.skip(0));
        }
    } else {
        let rest = s.skip(1);
        lemma_insert_desc_at(rest, g, idx - 1);
        assert(seq![s[0]] + (rest.take(idx - 1) + seq![g] + rest.skip(idx - 1)) =~= s.take(idx)
            + seq![g] + s.skip(idx));
    }
}

/// Inserting keeps sortedness.
pub proof fn lemma_insert_desc_sorted(s: Seq<DuplicateGroupV>, g: DuplicateGroupV)
    requires
        sorted_desc(s),
    ensures
        sorted_desc(insert_desc(s, g)),
        insert_desc(s, g).len() == s.len() + 1,
    decreases s.len(),
{
    if s.len() == 0 {
    } else if s[0].wasted_size < g.wasted_size {
        let out = seq![g] + s;
        assert forall|i: int, j: int| 0 <= i <= j < out.len() implies (#[trigger] out[i])
            .wasted_size >= (#[trigger] out[j]).wasted_size by {
            if i == 0 && j > 0 {
                assert(out[j] == s[j - 1]);
                assert(s[0].wasted_size >= s[j - 1].wasted_size);
            }
        }
    } else {
        let rest = s.skip(1);
        assert(sorted_desc(rest)) by {
            assert forall|i: int, j: int| 0 <= i <= j < rest.len() implies (#[trigger] rest[i])
                .wasted_size >= (#[trigger] rest[j]).wasted_size by {
                assert(rest[i] == s[i + 1]);
                assert(rest[j] == s[j + 1]);
            }
        }
        lemma_insert_desc_sorted(rest, g);
        let inner = insert_desc(rest, g);
        let out = seq![s[0]] + inner;
        assert(insert_desc(s, g) == out);
        assert forall|i: int, j: int| 0 <= i <= j < out.len() implies (#[trigger] out[i])
            .wasted_size >= (#[trigger] out[j]).wasted_size by {
            if i == 0 && j > 0 {
                assert(out[j] == inner[j - 1]);
                lemma_insert_desc_member_bound(rest, g, j - 1);
            } else if i > 0 {
                assert(out[i] == inner[i - 1]);
                assert(out[j] == inner[j - 1]);
            }
        }
    }
}

/// Every element of an insertion result is the inserted group or an element
/// whose wasted size is bounded by the head's, when the head dominates.
proof fn lemma_insert_desc_member_bound(s: Seq<DuplicateGroupV>, g: DuplicateGroupV, i: int)
    requires
        0 <= i < insert_desc(s, g).len(),
    ensures
        insert_desc(s, g)[i] == g || s.contains(insert_desc(s, g)[i]),
    decreases s.len(),
{
    if s.len() == 0 {
    } else if s[0].wasted_size < g.wasted_size {
        if i > 0 {
            assert(insert_desc(s, g)[i] == s[i - 1]);
            assert(s.contains(s[i - 1]));
        }
    } else {
        if i == 0 {
            assert(s.contains(s[0]));
        } else {
            let rest = s.skip(1);
            lemma_insert_desc_member_bound(rest, g, i - 1);
            assert(insert_desc(s, g)[i] == insert_desc(rest, g)[i - 1]);
            if insert_desc(rest, g)[i - 1] != g {
                let e = insert_desc(rest, g)[i - 1];
                assert(rest.contains(e));
                let t = choose|t: int| 0 <= t < rest.len() && rest[t] == e;
                assert(s[t + 1] == e);
                assert(s.contains(e));
            }
        }
    }
}

/// Sorting yields a sorted sequence of the same length.
pub proof fn lemma_sort_desc_sorted(s: Seq<DuplicateGroupV>)
    ensures
        sorted_desc(sort_desc(s)),
        sort_desc(s).len() == s.len(),
    decreases s.len(),
{
    if s.len() > 0 {
        lemma_sort_desc_sorted(s.drop_last());
        lemma_insert_desc_sorted(sort_desc(s.drop_last()), s.last());
    }
}

/// Every group of the sorted sequence comes from the unsorted one, and the
/// other way round.
pub proof fn lemma_sort_desc_membership(s: Seq<DuplicateGroupV>, g: DuplicateGroupV)
    ensures
        sort_desc(s).contains(g) <==> s.contains(g),
    decreases s.len(),
{
    lemma_sort_desc_multiset(s);
    crate::seq_util::lemma_multiset_membership(sort_desc(s), s, g);
}

/// Sorting preserves the multiset of groups: nothing is added, dropped or
/// duplicated.
pub proof fn lemma_sort_desc_multiset(s: Seq<DuplicateGroupV>)
    ensures
        sort_desc(s).to_multiset() == s.to_multiset(),
    decreases s.len(),
{
    broadcast use vstd::seq_lib::group_to_multiset_ensures;

    if s.len() > 0 {
        lemma_sort_desc_multiset(s.drop_last());
        lemma_insert_desc_multiset(sort_desc(s.drop_last()), s.last());
        assert(s.drop_last().push(s.last()) =~= s);
    }
}

proof fn lemma_insert_desc_multiset(s: Seq<DuplicateGroupV>, g: DuplicateGroupV)
    ensures
        insert_desc(s, g).to_multiset() == s.to_multiset().insert(g),
    decreases s.len(),
{
    broadcast use vstd::seq_lib::group_to_multiset_ensures;

    if s.len() == 0 {
        assert(insert_desc(s, g) =~= Seq::<DuplicateGroupV>::empty().push(g));
        assert(Seq::<DuplicateGroupV>::empty().to_multiset() =~= Multiset::<
            DuplicateGroupV,
        >::empty());
    } else if s[0].wasted_size < g.wasted_size {
        assert(insert_desc(s, g) =~= s.insert(0, g));
        vstd::seq_lib::lemma_multiset_commutative(seq![g], s);
        assert(seq![g] + s =~= s.insert(0, g));
        assert(seq![g].to_multiset() =~= Multiset::<DuplicateGroupV>::empty().insert(g)) by {
            assert(seq![g] =~= Seq::<DuplicateGroupV>::empty().push(g));
        }
        assert((seq![g] + s).to_multiset() =~= s.to_multiset().insert(g));
    } else {
        let rest = s.skip(1);
        lemma_insert_desc_multiset(rest, g);
        let inner = insert_desc(rest, g);
        assert(insert_desc(s, g) == seq![s[0]] + inner);
        vstd::seq_lib::lemma_multiset_commutative(seq![s[0]], inner);
        vstd::seq_lib::lemma_multiset_commutative(seq![s[0]], rest);
        assert(seq![s[0]] + rest =~= s);
        assert(seq![s[0]].to_multiset() =~= Multiset::<DuplicateGroupV>::empty().insert(s[0]))
            by {
            assert(seq![s[0]] =~= Seq::<DuplicateGroupV>::empty().push(s[0]));
        }
        assert((seq![s[0]] + inner).to_multiset() =~= s.to_multiset().insert(g));
    }
}

/// Sorts the groups by descending wasted size; equal values keep their
/// discovery order.
pub fn sort_groups_by_wasted(groups: Vec<DuplicateGroup>) -> (out: Vec<DuplicateGroup>)
    ensures
        groups_view(out@) == sort_desc(groups_view(groups@)),
{
    let ghost all = groups_view(groups@);
    let mut rest = groups;
    let mut out: Vec<DuplicateGroup> = Vec::new();
    while rest.len() > 0
        invariant
            rest@.len() <= all.len(),
            groups_view(rest@) =~= all.skip(all.len() - rest@.len()),
            groups_view(out@) =~= sort_desc(all.take(all.len() - rest@.len())),
        decreases rest@.len(),
    {
        let ghost j: int = all.len() - rest@.len();
        let ghost prev = rest@;
        proof {
            assert(groups_view(prev)[0] == all.skip(j)[0]);
            assert(all.skip(j)[0] == all[j]);
        }
        let g = rest.remove(0);
        proof {
            assert(g@ == all[j]);
            assert(groups_view(rest@) =~= groups_view(prev).skip(1));
            assert(groups_view(rest@) =~= all.skip(j + 1));
        }
        let mut idx: usize = 0;
        while idx < out.len() && !(out[idx].wasted_size < g.wasted_size)
            invariant
                idx <= out@.len(),
                forall|t: int|
                    0 <= t < idx ==> !((#[trigger] groups_view(out@)[t]).wasted_size
                        < g@.wasted_size),
            decreases out@.len() - idx,
        {
            proof {
                assert(groups_view(out@)[idx as int] == out@[idx as int]@);
            }
            idx = idx + 1;
        }
        proof {
            if idx < out@.len() {
                assert(groups_view(out@)[idx as int] == out@[idx as int]@);
            }
            lemma_insert_desc_at(groups_view(out@), g@, idx as int);
        }
        let ghost oseq = groups_view(out@);
        out.insert(idx, g);
        proof {
            assert(groups_view(out@) =~= oseq.take(idx as int) + seq![g@] + oseq.skip(idx as int));
            assert(groups_view(out@) =~= insert_desc(oseq, g@));
            assert(all.take(j + 1).drop_last() =~= all.take(j));
            assert(all.take(j + 1).last() == all[j]);
            assert(groups_view(out@) =~= sort_desc(all.take(j + 1)));
        }
    }
    proof {
        assert(all.take(all.len() as int) =~= all);
    }
    out
}

/// The exact number of redundant copies over a list of groups: for each
/// group, its member count beyond the first.
pub open spec fn excess_count(gs: Seq<DuplicateGroupV>) -> int
    decreases gs.len(),
{
    if gs.len() == 0 {
        0
    } else {
        excess_count(gs.drop_last()) + (if gs.last().files.len() == 0 {
            0int
        } else {
            gs.last().files.len() - 1
        })
    }
}

/// The exact total of wasted bytes over a list of groups.
pub open spec fn wasted_total(gs: Seq<DuplicateGroupV>) -> int
    decreases gs.len(),
{
    if gs.len() == 0 {
        0
    } else {
        wasted_total(gs.drop_last()) + gs.last().wasted_size
    }
}

/// Saturation of an integer into `usize`.
pub open spec fn sat_usize(x: int) -> usize {
    if x > usize::MAX {
        usize::MAX
    } else if x < 0 {
        0
    } else {
        x as usize
    }
}

proof fn lemma_excess_nonneg(gs: Seq<DuplicateGroupV>)
    ensures
        excess_count(gs) >= 0,
    decreases gs.len(),
{
    if gs.len() > 0 {
        lemma_excess_nonneg(gs.drop_last());
    }
}

proof fn lemma_wasted_nonneg(gs: Seq<DuplicateGroupV>)
    ensures
        wasted_total(gs) >= 0,
    decreases gs.len(),
{
    if gs.len() > 0 {
        lemma_wasted_nonneg(gs.drop_last());
    }
}

/// Computes the summary statistics over the reported groups: the duplicate
/// count (members beyond the first, per group) and the wasted bytes, both
/// saturating at the machine word.
pub fn result_stats(groups: &Vec<DuplicateGroup>) -> (stats: (usize, u64))
    ensures
        stats.0 == sat_usize(excess_count(groups_view(groups@))),
        stats.1 == sat64(wasted_total(groups_view(groups@))),
{
    let ghost all = groups_view(groups@);
    let mut dups: usize = 0;
    let mut wasted: u64 = 0;
    let mut i: usize = 0;
    while i < groups.len()
        invariant
            i <= groups@.len(),
            all == groups_view(groups@),
            dups == sat_usize(excess_count(all.take(i as int))),
            wasted == sat64(wasted_total(all.take(i as int))),
        decreases groups@.len() - i,
    {
        proof {
            assert(all.take(i + 1 as int).drop_last() =~= all.take(i as int));
            assert(all.take(i + 1 as int).last() == all[i as int]);
            assert(all[i as int] == groups@[i as int]@);
            lemma_excess_nonneg(all.take(i as int));
            lemma_wasted_nonneg(all.take(i as int));
        }
        let members = groups[i].files.len();
        let add = if members > 0 {
            members - 1
        } else {
            0
        };
        if dups > usize::MAX - add {
            dups = usize::MAX;
        } else {
            dups = dups + add;
        }
        let w = groups[i].wasted_size;
        if wasted > u64::MAX - w {
            wasted = u64::MAX;
        } else {
            wasted = wasted + w;
        }
        i = i + 1;
    }
    proof {
        assert(all.take(all.len() as int) =~= all);
    }
    (dups, wasted)
}

proof fn lemma_excess_concat(a: Seq<DuplicateGroupV>, b: Seq<DuplicateGroupV>)
    ensures
        excess_count(a + b) == excess_count(a) + excess_count(b),
    decreases b.len(),
{
    if b.len() == 0 {
        assert(a + b =~= a);
    } else {
        assert((a + b).drop_last() =~= a + b.drop_last());
        assert((a + b).last() == b.last());
        lemma_excess_concat(a, b.drop_last());
    }
}

proof fn lemma_excess_single(g: DuplicateGroupV)
    ensures
        excess_count(seq![g]) == if g.files.len() == 0 {
            0int
        } else {
            g.files.len() - 1
        },
{
    reveal_with_fuel(excess_count, 2);
    assert(seq![g] =~= Seq::<DuplicateGroupV>::empty().push(g));
    assert(Seq::<DuplicateGroupV>::empty().push(g).drop_last()
        =~= Seq::<DuplicateGroupV>::empty());
    assert(Seq::<DuplicateGroupV>::empty().push(g).last() == g);
}

proof fn lemma_insert_desc_excess(s: Seq<DuplicateGroupV>, g: DuplicateGroupV)
    ensures
        excess_count(insert_desc(s, g)) == excess_count(s.push(g)),
    decreases s.len(),
{
    assert(s.push(g).drop_last() =~= s);
    assert(s.push(g).last() == g);
    lemma_excess_single(g);
    if s.len() == 0 {
        assert(insert_desc(s, g) =~= s.push(g));
    } else if s[0].wasted_size < g.wasted_size {
        lemma_excess_concat(seq![g], s);
    } else {
        let rest = s.skip(1);
        lemma_insert_desc_excess(rest, g);
        lemma_excess_concat(seq![s[0]], insert_desc(rest, g));
        lemma_excess_concat(seq![s[0]], rest);
        lemma_excess_single(s[0]);
        assert(seq![s[0]] + rest =~= s);
        assert(rest.push(g).drop_last() =~= rest);
        assert(rest.push(g).last() == g);
    }
}

/// Sorting does not change the duplicate count.
pub proof fn lemma_sort_desc_excess(s: Seq<DuplicateGroupV>)
    ensures
        excess_count(sort_desc(s)) == excess_count(s),
    decreases s.len(),
{
    if s.len() > 0 {
        lemma_sort_desc_excess(s.drop_last());
        lemma_insert_desc_excess(sort_desc(s.drop_last()), s.last());
        assert(sort_desc(s.drop_last()).push(s.last()).drop_last() =~= sort_desc(s.drop_last()));
        assert(s.drop_last().push(s.last()) =~= s);
    }
}

proof fn lemma_wasted_concat(a: Seq<DuplicateGroupV>, b: Seq<DuplicateGroupV>)
    ensures
        wasted_total(a + b) == wasted_total(a) + wasted_total(b),
    decreases b.len(),
{
    if b.len() == 0 {
        assert(a + b =~= a);
    } else {
        assert((a + b).drop_last() =~= a + b.drop_last());
        assert((a + b).last() == b.last());
        lemma_wasted_concat(a, b.drop_last());
    }
}

proof fn lemma_wasted_single(g: DuplicateGroupV)
    ensures
        wasted_total(seq![g]) == g.wasted_size,
{
    reveal_with_fuel(wasted_total, 2);
    assert(seq![g] =~= Seq::<DuplicateGroupV>::empty().push(g));
    assert(Seq::<DuplicateGroupV>::empty().push(g).drop_last()
        =~= Seq::<DuplicateGroupV>::empty());
    assert(Seq::<DuplicateGroupV>::empty().push(g).last() == g);
}

proof fn lemma_insert_desc_wasted(s: Seq<DuplicateGroupV>, g: DuplicateGroupV)
    ensures
        wasted_total(insert_desc(s, g)) == wasted_total(s.push(g)),
    decreases s.len(),
{
    assert(s.push(g).drop_last() =~= s);
    assert(s.push(g).last() == g);
    lemma_wasted_single(g);
    if s.len() == 0 {
        assert(insert_desc(s, g) =~= s.push(g));
    } else if s[0].wasted_size < g.wasted_size {
        lemma_wasted_concat(seq![g], s);
    } else {
        let rest = s.skip(1);
        lemma_insert_desc_wasted(rest, g);
        lemma_wasted_concat(seq![s[0]], insert_desc(rest, g));
        lemma_wasted_concat(seq![s[0]], rest);
        lemma_wasted_single(s[0]);
        assert(seq![s[0]] + rest =~= s);
        assert(rest.push(g).drop_last() =~= rest);
        assert(rest.push(g).last() == g);
    }
}

/// Sorting does not change the total of wasted bytes.
pub proof fn lemma_sort_desc_wasted(s: Seq<DuplicateGroupV>)
    ensures
        wasted_total(sort_desc(s)) == wasted_total(s),
    decreases s.len(),
{
    if s.len() > 0 {
        lemma_sort_desc_wasted(s.drop_last());
        lemma_insert_desc_wasted(sort_desc(s.drop_last()), s.last());
        assert(sort_desc(s.drop_last()).push(s.last()).drop_last() =~= sort_desc(s.drop_last()));
        assert(s.drop_last().push(s.last()) =~= s);
    }
}

/// No duplicated key in the list.
spec fn distinct_keys(ks: Seq<(Seq<char>, u64)>) -> bool {
    forall|i: int, j: int| 0 <= i < j < ks.len() ==> ks[i] != ks[j]
}

/// The combined member count of the partitions of `h` for a list of keys.
spec fn members_sum(h: Seq<crate::records::FileEntryV>, ks: Seq<(Seq<char>, u64)>) -> int
    decreases ks.len(),
{
    if ks.len() == 0 {
        0
    } else {
        members_sum(h, ks.drop_last()) + crate::grouping::members_with(h, ks.last()).len()
    }
}

proof fn lemma_members_sum_nonneg(h: Seq<crate::records::FileEntryV>, ks: Seq<(Seq<char>, u64)>)
    ensures
        members_sum(h, ks) >= 0,
    decreases ks.len(),
{
    if ks.len() > 0 {
        lemma_members_sum_nonneg(h, ks.drop_last());
    }
}

proof fn lemma_members_sum_empty(ks: Seq<(Seq<char>, u64)>)
    ensures
        members_sum(Seq::<crate::records::FileEntryV>::empty(), ks) == 0,
    decreases ks.len(),
{
    reveal(Seq::filter);
    if ks.len() > 0 {
        lemma_members_sum_empty(ks.drop_last());
    }
}

proof fn lemma_members_sum_push_no_key(
    h: Seq<crate::records::FileEntryV>,
    x: crate::records::FileEntryV,
    ks: Seq<(Seq<char>, u64)>,
)
    requires
        !ks.contains(crate::grouping::entry_key(x)),
    ensures
        members_sum(h.push(x), ks) == members_sum(h, ks),
    decreases ks.len(),
{
    if ks.len() > 0 {
        let rest = ks.drop_last();
        let k = ks.last();
        assert(!rest.contains(crate::grouping::entry_key(x))) by {
            if rest.contains(crate::grouping::entry_key(x)) {
                let t = choose|t: int|
                    0 <= t < rest.len() && rest[t] == crate::grouping::entry_key(x);
                assert(ks[t] == crate::grouping::entry_key(x));
            }
        }
        lemma_members_sum_push_no_key(h, x, rest);
        assert(k != crate::grouping::entry_key(x)) by {
            assert(ks[ks.len() - 1] == k);
        }
        assert(!crate::grouping::key_match_pred(k)(x)) by {
            if crate::grouping::key_match_pred(k)(x) {
                assert(x.hash == Some(k.0));
                assert(crate::grouping::entry_key(x) == k);
            }
        }
        crate::seq_util::lemma_filter_push(h, x, crate::grouping::key_match_pred(k));
    }
}

proof fn lemma_members_sum_push(
    h: Seq<crate::records::FileEntryV>,
    x: crate::records::FileEntryV,
    ks: Seq<(Seq<char>, u64)>,
)
    requires
        distinct_keys(ks),
    ensures
        members_sum(h, ks) <= members_sum(h.push(x), ks) <= members_sum(h, ks) + 1,
    decreases ks.len(),
{
    if ks.len() > 0 {
        let rest = ks.drop_last();
        let k = ks.last();
        assert(distinct_keys(rest)) by {
            assert forall|i: int, j: int| 0 <= i < j < rest.len() implies rest[i] != rest[j] by {
                assert(rest[i] == ks[i]);
                assert(rest[j] == ks[j]);
            }
        }
        crate::seq_util::lemma_filter_push(h, x, crate::grouping::key_match_pred(k));
        if crate::grouping::key_match_pred(k)(x) {
            assert(crate::grouping::entry_key(x) == k);
            assert(!rest.contains(k)) by {
                if rest.contains(k) {
                    let t = choose|t: int| 0 <= t < rest.len() && rest[t] == k;
                    assert(ks[t] == ks[ks.len() - 1]);
                }
            }
            lemma_members_sum_push_no_key(h, x, rest);
        } else {
            lemma_members_sum_push(h, x, rest);
        }
    }
}

proof fn lemma_members_sum_bounded(
    h: Seq<crate::records::FileEntryV>,
    ks: Seq<(Seq<char>, u64)>,
)
    requires
        distinct_keys(ks),
    ensures
        0 <= members_sum(h, ks) <= h.len(),
    decreases h.len(),
{
    lemma_members_sum_nonneg(h, ks);
    if h.len() == 0 {
        assert(h =~= Seq::<crate::records::FileEntryV>::empty());
        lemma_members_sum_empty(ks);
    } else {
        lemma_members_sum_bounded(h.drop_last(), ks);
        lemma_members_sum_push(h.drop_last(), h.last(), ks);
        assert(h.drop_last().push(h.last()) =~= h);
    }
}

proof fn lemma_keys_distinct(h: Seq<crate::records::FileEntryV>)
    ensures
        distinct_keys(crate::grouping::keys_of(h)),
    decreases h.len(),
{
    if h.len() > 0 {
        lemma_keys_distinct(h.drop_last());
        let rest = crate::grouping::keys_of(h.drop_last());
        let k = crate::grouping::entry_key(h.last());
        if !rest.contains(k) {
            let out = rest.push(k);
            assert forall|i: int, j: int| 0 <= i < j < out.len() implies out[i] != out[j] by {
                if j < out.len() - 1 {
                    assert(out[i] == rest[i]);
                    assert(out[j] == rest[j]);
                } else {
                    assert(out[j] == k);
                    assert(out[i] == rest[i]);
                    assert(rest.contains(rest[i]));
                }
            }
        }
    }
}

proof fn lemma_members_sum_filter(
    h: Seq<crate::records::FileEntryV>,
    ks: Seq<(Seq<char>, u64)>,
    p: spec_fn((Seq<char>, u64)) -> bool,
)
    ensures
        members_sum(h, ks.filter(p)) <= members_sum(h, ks),
    decreases ks.len(),
{
    reveal(Seq::filter);
    if ks.len() > 0 {
        lemma_members_sum_filter(h, ks.drop_last(), p);
        if p(ks.last()) {
            let fs = ks.drop_last().filter(p);
            assert(ks.filter(p) == fs.push(ks.last()));
            assert(fs.push(ks.last()).drop_last() =~= fs);
        }
    }
}

proof fn lemma_excess_le_members(
    h: Seq<crate::records::FileEntryV>,
    ks: Seq<(Seq<char>, u64)>,
)
    ensures
        excess_count(ks.map_values(crate::grouping::group_of_fn(h))) <= members_sum(h, ks),
    decreases ks.len(),
{
    let gof = crate::grouping::group_of_fn(h);
    if ks.len() > 0 {
        lemma_excess_le_members(h, ks.drop_last());
        assert(ks.map_values(gof).drop_last() =~= ks.drop_last().map_values(gof));
        assert(ks.map_values(gof).last() == gof(ks.last()));
        assert(gof(ks.last()).files == crate::grouping::members_with(h, ks.last()));
    }
}

/// A scan can never report more redundant copies than it hashed files: the
/// partitions behind the groups are disjoint parts of the hashed set.
pub proof fn lemma_excess_within_hashed(h: Seq<crate::records::FileEntryV>)
    ensures
        0 <= excess_count(crate::grouping::groups_spec(h)) <= h.len(),
{
    let ks = crate::grouping::keys_of(h);
    let p = crate::grouping::dup_key_pred(h);
    lemma_keys_distinct(h);
    lemma_excess_le_members(h, ks.filter(p));
    lemma_members_sum_filter(h, ks, p);
    lemma_members_sum_bounded(h, ks);
    lemma_excess_nonneg(crate::grouping::groups_spec(h));
}

/// The duplicate count a scan reports is exact, never clipped: the sum of
/// member counts beyond the first can never exceed the number of hashed
/// files, which fits the machine word; and sorting does not change it.
pub proof fn lemma_total_duplicates_exact(h: Seq<crate::records::FileEntryV>)
    requires
        h.len() <= usize::MAX,
    ensures
        excess_count(sort_desc(crate::grouping::groups_spec(h))) == excess_count(
            crate::grouping::groups_spec(h),
        ),
        sat_usize(excess_count(sort_desc(crate::grouping::groups_spec(h)))) == excess_count(
            sort_desc(crate::grouping::groups_spec(h)),
        ),
        excess_count(sort_desc(crate::grouping::groups_spec(h))) <= h.len(),
{
    lemma_sort_desc_excess(crate::grouping::groups_spec(h));
    lemma_excess_within_hashed(h);
}

/// When the sums fit the machine words — as they do for any real filesystem —
/// the saturating totals are exactly the sums they stand for.
pub proof fn lemma_totals_exact(gs: Seq<DuplicateGroupV>)
    requires
        excess_count(gs) <= usize::MAX,
        wasted_total(gs) <= u64::MAX,
    ensures
        sat_usize(excess_count(gs)) == excess_count(gs),
        sat64(wasted_total(gs)) == wasted_total(gs),
{
    lemma_excess_nonneg(gs);
    lemma_wasted_nonneg(gs);
}

} // verus!
