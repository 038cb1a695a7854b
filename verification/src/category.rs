//! Categories: the first-level folders of the collection. The summary record
//! served to the interface, and the selection rule that turns a root listing
//! into the category list. Reading directories is the caller's concern.

use vstd::prelude::*;

verus! {

/// One category and its totals.
pub struct Category {
    pub name: String,
    pub file_count: usize,
    pub size: u64,
}

/// One entry of a directory listing: its name and whether it is itself a
/// directory.
pub struct DirEntryInfo {
    pub name: String,
    pub is_dir: bool,
}

/// The mathematical content of a `DirEntryInfo`.
pub ghost struct DirEntryInfoV {
    pub name: Seq<char>,
    pub is_dir: bool,
}

impl View for DirEntryInfo {
    type V = DirEntryInfoV;

    open spec fn view(&self) -> DirEntryInfoV {
        DirEntryInfoV { name: self.name@, is_dir: self.is_dir }
    }
}

/// The views of a directory listing.
pub open spec fn entries_view(s: Seq<DirEntryInfo>) -> Seq<DirEntryInfoV> {
    s.map_values(|e: DirEntryInfo| e@)
}

/// Whether a root entry counts as a category: a directory that is not the
/// reserved staging folder.
pub open spec fn spec_is_category(e: DirEntryInfoV) -> bool {
    e.is_dir && e.name != "temp"@
}

/// The category names among the first `i` entries of a root listing, in
/// listing order.
pub open spec fn spec_category_names_upto(entries: Seq<DirEntryInfoV>, i: int) -> Seq<Seq<char>>
    decreases i,
{
    if i <= 0 {
        Seq::empty()
    } else {
        spec_category_names_upto(entries, i - 1) + (if spec_is_category(entries[i - 1]) {
            seq![entries[i - 1].name]
        } else {
            Seq::empty()
        })
    }
}

/// The category names of a root listing.
pub open spec fn spec_category_names(entries: Seq<DirEntryInfoV>) -> Seq<Seq<char>> {
    spec_category_names_upto(entries, entries.len() as int)
}

/// Selects the categories out of a root listing: every directory but the
/// reserved staging folder, in listing order.
pub fn select_category_dirs(entries: &Vec<DirEntryInfo>) -> (r: Vec<String>)
    ensures
        r@.map_values(|n: String| n@) == spec_category_names(entries_view(entries@)),
{
    let ghost ev = entries_view(entries@);
    let mut r: Vec<String> = Vec::new();
    proof {
        assert(r@.map_values(|n: String| n@) =~= spec_category_names_upto(ev, 0));
    }
    let mut i: usize = 0;
    while i < entries.len()
        invariant
            ev == entries_view(entries@),
            i <= entries@.len(),
            ev.len() == entries@.len(),
            r@.map_values(|n: String| n@) == spec_category_names_upto(ev, i as int),
        decreases entries@.len() - i,
    {
        proof {
            assert(ev[i as int] == entries@[i as int]@);
            reveal_strlit("temp");
        }
        if entries[i].is_dir && !crate::strutil::str_eq(entries[i].name.as_str(), "temp") {
            let name = entries[i].name.clone();
            proof {
                assert((r@.push(name)).map_values(|n: String| n@) =~= r@.map_values(
                    |n: String| n@,
                ).push(name@));
                assert(r@.map_values(|n: String| n@).push(name@) =~= spec_category_names_upto(
                    ev,
                    i + 1,
                ));
            }
            r.push(name);
        } else {
            proof {
                assert(spec_category_names_upto(ev, i + 1) =~= spec_category_names_upto(
                    ev,
                    i as int,
                ));
            }
        }
        i = i + 1;
    }
    r
}

} // verus!
