//! Collection statistics: totals over the files of the collection and the
//! count of categories at the root. Walking the directory tree is the
//! caller's concern; it hands in the file sizes it found and the root
//! listing.

use vstd::prelude::*;
use crate::category::{DirEntryInfo, DirEntryInfoV, entries_view, spec_is_category};

verus! {

/// The collection's totals, as served to the interface.
pub struct StatsResponse {
    pub total_images: u64,
    pub categories: u32,
    pub storage_used: u64,
}

/// The sum of the sizes.
pub open spec fn spec_size_sum(sizes: Seq<u64>) -> int
    decreases sizes.len(),
{
    if sizes.len() == 0 {
        0
    } else {
        spec_size_sum(sizes.drop_last()) + sizes.last()
    }
}

/// How many entries of a root listing are categories.
pub open spec fn spec_category_count(entries: Seq<DirEntryInfoV>) -> int
    decreases entries.len(),
{
    if entries.len() == 0 {
        0
    } else {
        spec_category_count(entries.drop_last()) + (if spec_is_category(entries.last()) {
            1int
        } else {
            0int
        })
    }
}

/// Sums the sizes of the collection's files.
pub fn sum_file_sizes(sizes: &Vec<u64>) -> (r: u64)
    requires
        spec_size_sum(sizes@) <= u64::MAX,
    ensures
        r == spec_size_sum(sizes@),
{
    let mut r: u64 = 0;
    let mut i: usize = 0;
    while i < sizes.len()
        invariant
            i <= sizes@.len(),
            r == spec_size_sum(sizes@.take(i as int)),
            spec_size_sum(sizes@) <= u64::MAX,
        decreases sizes@.len() - i,
    {
        proof {
            assert(sizes@.take(i + 1).drop_last() =~= sizes@.take(i as int));
            assert(sizes@.take(i + 1).last() == sizes@[i as int]);
            lemma_size_sum_prefix(sizes@, i + 1);
        }
        r = r + sizes[i];
        i = i + 1;
    }
    proof {
        assert(sizes@.take(sizes@.len() as int) =~= sizes@);
    }
    r
}

/// A prefix never sums to more than the whole: sizes are nonnegative.
proof fn lemma_size_sum_prefix(sizes: Seq<u64>, i: int)
    requires
        0 <= i <= sizes.len(),
    ensures
        spec_size_sum(sizes.take(i)) <= spec_size_sum(sizes),
    decreases sizes.len() - i,
{
    if i < sizes.len() {
        lemma_size_sum_prefix(sizes, i + 1);
        assert(sizes.take(i + 1).drop_last() =~= sizes.take(i));
        assert(spec_size_sum(sizes.take(i)) <= spec_size_sum(sizes.take(i + 1)));
    } else {
        assert(sizes.take(i) =~= sizes);
    }
}

/// Counts the categories of a root listing.
pub fn count_categories(entries: &Vec<DirEntryInfo>) -> (r: usize)
    ensures
        r == spec_category_count(entries_view(entries@)),
        r <= entries@.len(),
{
    let ghost ev = entries_view(entries@);
    let mut r: usize = 0;
    let mut i: usize = 0;
    while i < entries.len()
        invariant
            ev == entries_view(entries@),
            ev.len() == entries@.len(),
            i <= entries@.len(),
            r == spec_category_count(ev.take(i as int)),
            r <= i,
        decreases entries@.len() - i,
    {
        proof {
            assert(ev.take(i + 1).drop_last() =~= ev.take(i as int));
            assert(ev.take(i + 1).last() == ev[i as int]);
            assert(ev[i as int] == entries@[i as int]@);
            reveal_strlit("temp");
        }
        if entries[i].is_dir && !crate::strutil::str_eq(entries[i].name.as_str(), "temp") {
            r = r + 1;
        }
        i = i + 1;
    }
    proof {
        assert(ev.take(ev.len() as int) =~= ev);
    }
    r
}

/// Builds the collection's totals: one image per file found, their sizes
/// summed, and the categories counted at the root.
pub fn build_stats(file_sizes: &Vec<u64>, root_entries: &Vec<DirEntryInfo>) -> (r: StatsResponse)
    requires
        spec_size_sum(file_sizes@) <= u64::MAX,
        file_sizes@.len() <= u64::MAX,
        root_entries@.len() <= u32::MAX,
    ensures
        r.total_images == file_sizes@.len(),
        r.storage_used == spec_size_sum(file_sizes@),
        r.categories == spec_category_count(entries_view(root_entries@)),
{
    let storage_used = sum_file_sizes(file_sizes);
    let categories = count_categories(root_entries);
    StatsResponse {
        total_images: file_sizes.len() as u64,
        categories: categories as u32,
        storage_used,
    }
}

} // verus!
