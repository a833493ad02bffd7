//! HashGrouper: partitions the hashed records by digest (and size, which
//! members of one digest share) and keeps the partitions with two or more
//! members as duplicate groups. This stage is pure: no I/O and no
//! cancellation checks.

use vstd::prelude::*;

use crate::records::{entries_view, FileEntry, FileEntryV};
use crate::seq_util::{lemma_filter_push, lemma_filter_sound};

verus! {

/// Mathematical image of a [`DuplicateGroup`].
pub struct DuplicateGroupV {
    pub hash: Seq<char>,
    pub files: Seq<FileEntryV>,
    pub total_size: u64,
    pub wasted_size: u64,
}

/// A group of duplicate files (same digest, hence same size).
pub struct DuplicateGroup {
    pub hash: String,
    pub files: Vec<FileEntry>,
    pub total_size: u64,
    pub wasted_size: u64,
}

impl View for DuplicateGroup {
    type V = DuplicateGroupV;

    open spec fn view(&self) -> DuplicateGroupV {
        DuplicateGroupV {
            hash: self.hash@,
            files: entries_view(self.files@),
            total_size: self.total_size,
            wasted_size: self.wasted_size,
        }
    }
}

/// The view of a sequence of groups.
pub open spec fn groups_view(s: Seq<DuplicateGroup>) -> Seq<DuplicateGroupV> {
    s.map_values(|g: DuplicateGroup| g@)
}

/// Every record carries a digest.
pub open spec fn all_hashed(s: Seq<FileEntryV>) -> bool {
    forall|i: int| 0 <= i < s.len() ==> (#[trigger] s[i].hash) is Some
}

/// The grouping key of a hashed record: its digest string and its size.
pub open spec fn entry_key(e: FileEntryV) -> (Seq<char>, u64) {
    (e.hash.unwrap(), e.size)
}

/// Holds of the records with digest `h` and size `sz`.
pub open spec fn key_match_pred(k: (Seq<char>, u64)) -> spec_fn(FileEntryV) -> bool {
    |e: FileEntryV| e.hash == Some(k.0) && e.size == k.1
}

/// The records of `s` with the given key, in order.
pub open spec fn members_with(s: Seq<FileEntryV>, k: (Seq<char>, u64)) -> Seq<FileEntryV> {
    s.filter(key_match_pred(k))
}

/// The view of an executable key list.
pub open spec fn keys_view(ks: Seq<(String, u64)>) -> Seq<(Seq<char>, u64)> {
    ks.map_values(|p: (String, u64)| (p.0@, p.1))
}

/// The distinct grouping keys of `s`, in order of first occurrence.
pub open spec fn keys_of(s: Seq<FileEntryV>) -> Seq<(Seq<char>, u64)>
    decreases s.len(),
{
    if s.len() == 0 {
        Seq::empty()
    } else {
        let rest = keys_of(s.drop_last());
        if rest.contains(entry_key(s.last())) {
            rest
        } else {
            rest.push(entry_key(s.last()))
        }
    }
}

/// The exact sum of the member sizes, as an unbounded integer.
pub open spec fn sum_sizes(s: Seq<FileEntryV>) -> int
    decreases s.len(),
{
    if s.len() == 0 {
        0
    } else {
        sum_sizes(s.drop_last()) + s.last().size
    }
}

/// Saturation of an integer into `u64`.
pub open spec fn sat64(x: int) -> u64 {
    if x > u64::MAX {
        u64::MAX
    } else if x < 0 {
        0
    } else {
        x as u64
    }
}

/// The sum of member sizes is non-negative and at least any one member.
pub proof fn lemma_sum_bounds(s: Seq<FileEntryV>, i: int)
    requires
        0 <= i < s.len(),
    ensures
        sum_sizes(s) >= 0,
        sum_sizes(s) >= s[i].size,
    decreases s.len(),
{
    if s.len() == 1 {
    } else if i == s.len() - 1 {
        lemma_sum_nonneg(s.drop_last());
    } else {
        lemma_sum_bounds(s.drop_last(), i);
    }
}

/// The sum of member sizes is non-negative.
pub proof fn lemma_sum_nonneg(s: Seq<FileEntryV>)
    ensures
        sum_sizes(s) >= 0,
    decreases s.len(),
{
    if s.len() > 0 {
        lemma_sum_nonneg(s.drop_last());
    }
}

/// The group assembled for key `k` over the hashed set `s`: its members, the
/// (saturating) total of their sizes, and the wasted size — the total minus
/// the one copy that would be kept.
pub open spec fn group_of(s: Seq<FileEntryV>, k: (Seq<char>, u64)) -> DuplicateGroupV {
    let ms = members_with(s, k);
    let total = sat64(sum_sizes(ms));
    DuplicateGroupV {
        hash: k.0,
        files: ms,
        total_size: total,
        wasted_size: (total - k.1) as u64,
    }
}

/// Holds of the keys whose partition has two or more members.
pub open spec fn dup_key_pred(s: Seq<FileEntryV>) -> spec_fn((Seq<char>, u64)) -> bool {
    |k: (Seq<char>, u64)| members_with(s, k).len() >= 2
}

/// Builds the group for one key.
pub open spec fn group_of_fn(s: Seq<FileEntryV>) -> spec_fn((Seq<char>, u64)) -> DuplicateGroupV {
    |k: (Seq<char>, u64)| group_of(s, k)
}

/// The duplicate groups of the hashed set `s`: one group per distinct key
/// whose partition has two or more members, in order of first occurrence.
pub open spec fn groups_spec(s: Seq<FileEntryV>) -> Seq<DuplicateGroupV> {
    keys_of(s).filter(dup_key_pred(s)).map_values(group_of_fn(s))
}

/// A sum of uniformly sized records is the size times the count.
pub proof fn lemma_sum_uniform(s: Seq<FileEntryV>, sz: u64)
    requires
        forall|i: int| 0 <= i < s.len() ==> (#[trigger] s[i]).size == sz,
    ensures
        sum_sizes(s) == sz * s.len(),
    decreases s.len(),
{
    if s.len() == 0 {
        assert(sz * 0 == 0) by (nonlinear_arith);
    } else {
        let rest = s.drop_last();
        lemma_sum_uniform(rest, sz);
        assert(s.last().size == sz);
        let n = s.len() as int;
        assert(sz * (n - 1) + sz == sz * n) by (nonlinear_arith);
        assert(rest.len() == n - 1);
    }
}

/// Every duplicate group is well formed: it has at least two members, all of
/// one size and one digest (the group's own); its total is the saturating
/// sum of the member sizes — exactly size times member count whenever that
/// fits the word — and its wasted size is the total minus the one copy that
/// would be kept. Every member comes from the hashed set.
pub proof fn lemma_group_well_formed(h: Seq<FileEntryV>, g: DuplicateGroupV)
    requires
        groups_spec(h).contains(g),
    ensures
        g.files.len() >= 2,
        forall|i: int|
            0 <= i < g.files.len() ==> (#[trigger] g.files[i]).size == g.files[0].size,
        forall|i: int|
            0 <= i < g.files.len() ==> (#[trigger] g.files[i]).hash == Some(g.hash),
        forall|i: int| 0 <= i < g.files.len() ==> h.contains(#[trigger] g.files[i]),
        sum_sizes(g.files) == g.files[0].size * g.files.len(),
        g.total_size == sat64(sum_sizes(g.files)),
        sum_sizes(g.files) <= u64::MAX ==> g.total_size == g.files[0].size * g.files.len(),
        g.wasted_size == g.total_size - g.files[0].size,
{
    let fkeys = keys_of(h).filter(dup_key_pred(h));
    let gi = choose|gi: int| 0 <= gi < groups_spec(h).len() && groups_spec(h)[gi] == g;
    assert(groups_spec(h)[gi] == group_of_fn(h)(fkeys[gi]));
    let k = fkeys[gi];
    lemma_filter_sound(keys_of(h), dup_key_pred(h), gi);
    assert(dup_key_pred(h)(k));
    assert(g == group_of(h, k));
    let ms = members_with(h, k);
    assert(g.files == ms);
    assert(ms.len() >= 2);
    assert forall|i: int| 0 <= i < ms.len() implies (#[trigger] ms[i]).size == k.1
        && ms[i].hash == Some(k.0) && h.contains(ms[i]) by {
        lemma_filter_sound(h, key_match_pred(k), i);
    }
    assert(g.files[0].size == k.1);
    lemma_sum_uniform(ms, k.1);
    lemma_sum_bounds(ms, 0);
    assert(g.wasted_size == g.total_size - g.files[0].size);
}

/// Clones the digest of a provably hashed record.
fn entry_digest(e: &FileEntry) -> (h: String)
    requires
        e@.hash is Some,
    ensures
        h@ == e@.hash.unwrap(),
{
    match &e.hash {
        Some(h) => h.clone(),
        None => vstd::pervasive::unreached(),
    }
}

/// The distinct (digest, size) keys of the hashed set, in first-occurrence
/// order.
fn collect_keys(files: &Vec<FileEntry>) -> (keys: Vec<(String, u64)>)
    requires
        all_hashed(entries_view(files@)),
    ensures
        keys_view(keys@) == keys_of(entries_view(files@)),
{
    let ghost all = entries_view(files@);
    let mut keys: Vec<(String, u64)> = Vec::new();
    let mut i: usize = 0;
    while i < files.len()
        invariant
            i <= files@.len(),
            all == entries_view(files@),
            all_hashed(all),
            keys_view(keys@) =~= keys_of(all.take(i as int)),
        decreases files@.len() - i,
    {
        let ghost prefix = all.take(i as int);
        proof {
            assert(all[i as int] == files@[i as int]@);
            assert(all[i as int].hash is Some);
        }
        let h = entry_digest(&files[i]);
        let sz = files[i].size;
        proof {
            assert(entry_key(all[i as int]) == (h@, sz));
            assert(all.take(i + 1 as int).drop_last() =~= prefix);
            assert(all.take(i + 1 as int).last() == all[i as int]);
        }
        let mut seen = false;
        let mut j: usize = 0;
        while j < keys.len()
            invariant
                j <= keys@.len(),
                seen == exists|t: int|
                    0 <= t < j && (#[trigger] keys_view(keys@)[t]) == (h@, sz),
            decreases keys@.len() - j,
        {
            if keys[j].0 == h && keys[j].1 == sz {
                proof {
                    assert(keys_view(keys@)[j as int] == (h@, sz));
                }
                seen = true;
            }
            j = j + 1;
        }
        proof {
            assert(seen == keys_of(prefix).contains((h@, sz))) by {
                assert(keys_view(keys@) =~= keys_of(prefix));
            }
        }
        if !seen {
            keys.push((h, sz));
            proof {
                assert(keys_view(keys@) =~= keys_of(
                    all.take(i + 1 as int),
                ));
            }
        } else {
            proof {
                assert(keys_view(keys@) =~= keys_of(
                    all.take(i + 1 as int),
                ));
            }
        }
        i = i + 1;
    }
    proof {
        assert(all.take(all.len() as int) =~= all);
    }
    keys
}

/// Clones the records of `files` whose digest and size match the key, in
/// order.
fn collect_members(files: &Vec<FileEntry>, hash: &String, sz: u64) -> (ms: Vec<FileEntry>)
    ensures
        entries_view(ms@) == members_with(entries_view(files@), (hash@, sz)),
{
    let ghost all = entries_view(files@);
    let ghost k = (hash@, sz);
    let mut ms: Vec<FileEntry> = Vec::new();
    let mut i: usize = 0;
    while i < files.len()
        invariant
            i <= files@.len(),
            all == entries_view(files@),
            k == (hash@, sz),
            entries_view(ms@) =~= members_with(all.take(i as int), k),
        decreases files@.len() - i,
    {
        proof {
            assert(all.take(i + 1 as int).drop_last() =~= all.take(i as int));
            assert(all.take(i as int).push(all[i as int]) =~= all.take(i + 1 as int));
            lemma_filter_push(all.take(i as int), all[i as int], key_match_pred(k));
            assert(all[i as int] == files@[i as int]@);
        }
        let same = match &files[i].hash {
            Some(h) => *h == *hash && files[i].size == sz,
            None => false,
        };
        proof {
            assert(same == key_match_pred(k)(all[i as int]));
        }
        if same {
            let e = files[i].clone();
            ms.push(e);
            proof {
                assert(entries_view(ms@) =~= members_with(all.take(i + 1 as int), k));
            }
        } else {
            proof {
                assert(entries_view(ms@) =~= members_with(all.take(i + 1 as int), k));
            }
        }
        i = i + 1;
    }
    proof {
        assert(all.take(all.len() as int) =~= all);
    }
    ms
}

/// Sums the sizes of the given records, saturating at `u64::MAX`.
pub fn sum_entry_sizes(files: &Vec<FileEntry>) -> (total: u64)
    ensures
        total == sat64(sum_sizes(entries_view(files@))),
{
    let ghost all = entries_view(files@);
    let mut total: u64 = 0;
    let mut i: usize = 0;
    while i < files.len()
        invariant
            i <= files@.len(),
            all == entries_view(files@),
            total == sat64(sum_sizes(all.take(i as int))),
        decreases files@.len() - i,
    {
        let size = files[i].size;
        proof {
            assert(all.take(i + 1 as int).drop_last() =~= all.take(i as int));
            assert(all.take(i + 1 as int).last() == all[i as int]);
            assert(sum_sizes(all.take(i + 1 as int)) == sum_sizes(all.take(i as int))
                + all[i as int].size);
            lemma_sum_nonneg(all.take(i as int));
            assert(all[i as int].size == size);
        }
        if total > u64::MAX - size {
            total = u64::MAX;
        } else {
            total = total + size;
        }
        i = i + 1;
    }
    proof {
        assert(all.take(all.len() as int) =~= all);
    }
    total
}

/// Partitions the hashed records by digest value and returns, in
/// first-occurrence order, one duplicate group for every partition with two
/// or more members.
pub fn group_by_hash(files: Vec<FileEntry>) -> (groups: Vec<DuplicateGroup>)
    requires
        all_hashed(entries_view(files@)),
    ensures
        groups_view(groups@) == groups_spec(entries_view(files@)),
{
    let ghost all = entries_view(files@);
    let ghost dkp = dup_key_pred(all);
    let ghost gof = group_of_fn(all);
    let keys = collect_keys(&files);
    let ghost keyseq = keys_of(all);

    let mut groups: Vec<DuplicateGroup> = Vec::new();
    let mut j: usize = 0;
    while j < keys.len()
        invariant
            j <= keys@.len(),
            all == entries_view(files@),
            all_hashed(all),
            keys_view(keys@) == keyseq,
            keyseq == keys_of(all),
            dkp == dup_key_pred(all),
            gof == group_of_fn(all),
            groups_view(groups@) =~= keyseq.take(j as int).filter(dkp).map_values(gof),
        decreases keys@.len() - j,
    {
        let ghost k = keyseq[j as int];
        proof {
            assert(keys_view(keys@)[j as int] == k);
            assert((keys@[j as int].0@, keys@[j as int].1) == k);
            assert(keyseq.take(j + 1 as int).drop_last() =~= keyseq.take(j as int));
            assert(keyseq.take(j as int).push(k) =~= keyseq.take(j + 1 as int));
            lemma_filter_push(keyseq.take(j as int), k, dkp);
        }
        let hash = keys[j].0.clone();
        let sz = keys[j].1;
        let members = collect_members(&files, &hash, sz);
        proof {
            assert(entries_view(members@) == members_with(all, k));
        }
        if members.len() >= 2 {
            let total = sum_entry_sizes(&members);
            proof {
                assert(entries_view(members@)[0] == members@[0]@);
                lemma_filter_sound(all, key_match_pred(k), 0);
                assert(members@[0]@.size == k.1);
                lemma_sum_bounds(entries_view(members@), 0);
            }
            let first_size = members[0].size;
            let wasted = total - first_size;
            let group = DuplicateGroup { hash, files: members, total_size: total, wasted_size: wasted };
            proof {
                assert(group@ == gof(k));
                assert(dkp(k));
            }
            let ghost gseq = groups_view(groups@);
            groups.push(group);
            proof {
                assert(groups_view(groups@) =~= gseq.push(gof(k)));
                assert(keyseq.take(j + 1 as int).filter(dkp) == keyseq.take(j as int).filter(
                    dkp,
                ).push(k));
                assert(keyseq.take(j as int).filter(dkp).map_values(gof).push(gof(k)) =~= keyseq
                    .take(j + 1 as int)
                    .filter(dkp)
                    .map_values(gof));
                assert(groups_view(groups@) =~= keyseq.take(j + 1 as int).filter(dkp).map_values(
                    gof,
                ));
            }
        } else {
            proof {
                assert(!dkp(k));
                assert(groups_view(groups@) =~= keyseq.take(j + 1 as int).filter(dkp).map_values(
                    gof,
                ));
            }
        }
        j = j + 1;
    }
    proof {
        assert(keyseq.take(keyseq.len() as int) =~= keyseq);
        assert(groups_view(groups@) =~= groups_spec(entries_view(files@)));
    }
    groups
}

} // verus!
