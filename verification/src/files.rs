//! File listings served to the interface: pagination of a cached listing, and
//! the reconciliation of a cached listing against what a directory actually
//! holds. Reading directories and the cache files is the caller's concern.

use vstd::prelude::*;
use vstd::arithmetic::div_mod::{
    lemma_div_is_ordered, lemma_div_is_ordered_by_denominator, lemma_div_nonincreasing,
};
use vstd::arithmetic::mul::lemma_mul_inequality;
use crate::filecache::FileInfo;

verus! {

/// One page of a listing: the files of the requested page and the paging
/// summary.
pub struct FileResponse {
    pub files: Vec<FileInfo>,
    pub current_page: u32,
    pub total_pages: u32,
    pub total_files: usize,
}

/// How many pages a listing of `total` files has under `limit`: one page when
/// no limit (or the all-pages limit `-1`) is given, else the total divided by
/// the limit, rounded up.
pub open spec fn spec_total_pages(total: int, limit: Option<i32>) -> int {
    match limit {
        Some(l) => if l == -1 {
            1
        } else {
            total / (l as int) + (if total % (l as int) == 0 {
                0int
            } else {
                1int
            })
        },
        None => 1,
    }
}

/// The files of page `page` under `limit`: everything when no limit (or `-1`)
/// is given, else the `limit`-sized window starting at `(page - 1) * limit`,
/// clipped to the listing (and empty when the window starts past its end).
pub open spec fn spec_page_slice(files: Seq<FileInfo>, page: int, limit: Option<i32>) -> Seq<
    FileInfo,
> {
    match limit {
        Some(l) => if l == -1 {
            files
        } else {
            let start = (page - 1) * (l as int);
            let end = if page * (l as int) < files.len() {
                page * (l as int)
            } else {
                files.len() as int
            };
            if start >= files.len() {
                Seq::empty()
            } else {
                files.subrange(start, end)
            }
        },
        None => files,
    }
}

/// Cuts the requested page out of a listing.
///
/// A limit of `-1` (or none) serves the whole listing as one page. Pages are
/// numbered from 1; a page past the end of the listing is empty.
pub fn paginate_files(files: Vec<FileInfo>, page: u32, limit: Option<i32>) -> (r: FileResponse)
    requires
        1 <= page,
        files@.len() <= u32::MAX,
        limit matches Some(l) ==> l == -1 || 1 <= l,
        limit matches Some(l) ==> l == -1 || (page as int) * (l as int) <= u32::MAX,
    ensures
        r.current_page == page,
        r.total_files == files@.len(),
        r.total_pages == spec_total_pages(files@.len() as int, limit),
        r.files@ == spec_page_slice(files@, page as int, limit),
{
    let ghost orig = files@;
    let total_files = files.len();
    let l: i32 = match limit {
        None => -1,
        Some(l) => l,
    };
    if l == -1 {
        return FileResponse { files, current_page: page, total_pages: 1, total_files };
    }
    let lim: u64 = l as u64;
    let total: u64 = total_files as u64;
    let q: u64 = total / lim;
    let tp: u64 = if total % lim == 0 {
        q
    } else {
        q + 1
    };
    proof {
        if lim == 1 {
            assert(total as int % 1int == 0);
            assert(total as int / 1int == total as int) by {
                lemma_div_is_ordered_by_denominator(total as int, 1, 1);
            }
        } else {
            lemma_div_is_ordered_by_denominator(total as int, 2, lim as int);
            lemma_div_is_ordered(total as int, u32::MAX as int, 2);
        }
        lemma_div_nonincreasing(total as int, lim as int);
    }
    let total_pages: u32 = tp as u32;
    proof {
        lemma_mul_inequality(page as int - 1, page as int, l as int);
    }
    let start: u64 = ((page - 1) as u64) * lim;
    let end: u64 = {
        let e = (page as u64) * lim;
        if e < total {
            e
        } else {
            total
        }
    };
    if start >= total {
        return FileResponse {
            files: Vec::new(),
            current_page: page,
            total_pages,
            total_files,
        };
    }
    let mut v = files;
    let mut tail = v.split_off(start as usize);
    tail.truncate((end - start) as usize);
    proof {
        assert(tail@ =~= orig.subrange(start as int, end as int));
    }
    FileResponse { files: tail, current_page: page, total_pages, total_files }
}

/// Whether the listing of names carries `name`.
pub open spec fn spec_has_name(names: Seq<Seq<char>>, name: Seq<char>) -> bool {
    exists|k: int| 0 <= k < names.len() && names[k] == name
}

/// The views of a list of names.
pub open spec fn names_view(s: Seq<String>) -> Seq<Seq<char>> {
    s.map_values(|n: String| n@)
}

/// Whether `actual` carries `name`.
pub fn contains_name(actual: &Vec<String>, name: &str) -> (r: bool)
    ensures
        r == spec_has_name(names_view(actual@), name@),
{
    let mut i: usize = 0;
    while i < actual.len()
        invariant
            i <= actual@.len(),
            forall|k: int| 0 <= k < i ==> names_view(actual@)[k] != name@,
        decreases actual@.len() - i,
    {
        if crate::strutil::str_eq(actual[i].as_str(), name) {
            proof {
                assert(names_view(actual@)[i as int] == name@);
            }
            return true;
        }
        i = i + 1;
    }
    false
}

/// Among the first `j` cache entries, the names filed under `category` that
/// are absent from the directory listing `actual`, in cache order.
pub open spec fn spec_stale_upto(
    cached: Seq<FileInfo>,
    actual: Seq<Seq<char>>,
    category: Seq<char>,
    j: int,
) -> Seq<Seq<char>>
    decreases j,
{
    if j <= 0 {
        Seq::empty()
    } else {
        spec_stale_upto(cached, actual, category, j - 1) + (if cached[j - 1].category@ == category
            && !spec_has_name(actual, cached[j - 1].name@) {
            seq![cached[j - 1].name@]
        } else {
            Seq::empty()
        })
    }
}

/// The cached names of `category` that no longer exist in the directory.
pub open spec fn spec_stale_names(
    cached: Seq<FileInfo>,
    actual: Seq<Seq<char>>,
    category: Seq<char>,
) -> Seq<Seq<char>> {
    spec_stale_upto(cached, actual, category, cached.len() as int)
}

/// The cached entries of `category` whose files are gone from the directory:
/// exactly the names to drop when synchronizing the cache with the
/// filesystem.
pub fn files_to_remove(cached: &Vec<FileInfo>, actual: &Vec<String>, category: &str) -> (r: Vec<
    String,
>)
    ensures
        names_view(r@) == spec_stale_names(cached@, names_view(actual@), category@),
{
    let ghost c = cached@;
    let mut r: Vec<String> = Vec::new();
    proof {
        assert(names_view(r@) =~= spec_stale_upto(c, names_view(actual@), category@, 0));
    }
    let mut i: usize = 0;
    while i < cached.len()
        invariant
            c == cached@,
            i <= cached@.len(),
            names_view(r@) == spec_stale_upto(c, names_view(actual@), category@, i as int),
        decreases cached@.len() - i,
    {
        if crate::strutil::str_eq(cached[i].category.as_str(), category) && !contains_name(
            actual,
            cached[i].name.as_str(),
        ) {
            let name = cached[i].name.clone();
            proof {
                assert((r@.push(name)).map_values(|n: String| n@) =~= names_view(r@).push(name@));
                assert(names_view(r@).push(name@) =~= spec_stale_upto(
                    c,
                    names_view(actual@),
                    category@,
                    i + 1,
                ));
            }
            r.push(name);
        } else {
            proof {
                assert(spec_stale_upto(c, names_view(actual@), category@, i + 1) =~= spec_stale_upto(
                    c,
                    names_view(actual@),
                    category@,
                    i as int,
                ));
            }
        }
        i = i + 1;
    }
    r
}

/// Whether the cache already holds an entry for `name` in `category`: a file
/// is added to a cached listing only when it is not.
pub fn cache_has_file(cached: &Vec<FileInfo>, name: &str, category: &str) -> (r: bool)
    ensures
        r == exists|k: int|
            0 <= k < cached@.len() && (#[trigger] cached@[k]).name@ == name@
                && cached@[k].category@ == category@,
{
    let mut i: usize = 0;
    while i < cached.len()
        invariant
            i <= cached@.len(),
            forall|k: int|
                0 <= k < i ==> !((#[trigger] cached@[k]).name@ == name@ && cached@[k].category@
                    == category@),
        decreases cached@.len() - i,
    {
        if crate::strutil::str_eq(cached[i].name.as_str(), name) && crate::strutil::str_eq(
            cached[i].category.as_str(),
            category,
        ) {
            return true;
        }
        i = i + 1;
    }
    false
}

} // verus!
