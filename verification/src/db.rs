//! The catalog's record types (images, tags, category icons) and the pure
//! text the database layer needs: the placeholder list of a parameterized
//! query and the splitting of a path into its directory and file name.
//! Running SQL is the caller's concern.

use vstd::prelude::*;
use vstd::string::{StrSliceExecFns, StringExecFns};

verus! {

/// One image known to the catalog.
pub struct Image {
    pub id: i64,
    pub relative_path: String,
    pub category: String,
    pub filename: String,
}

/// One tag: its name, and whether it stands for a category.
pub struct TagInfo {
    pub name: String,
    pub is_category: bool,
}

/// The icon chosen for a category, when one is set.
pub struct CategoryIcon {
    pub relative_path: Option<String>,
    pub filename: Option<String>,
}

/// The placeholder list of a query with `n` parameters: `n` question marks
/// joined by commas.
pub open spec fn spec_placeholders(n: int) -> Seq<char>
    decreases n,
{
    if n <= 0 {
        Seq::empty()
    } else if n == 1 {
        "?"@
    } else {
        spec_placeholders(n - 1) + ",?"@
    }
}

/// Builds the placeholder list of a query with `n` parameters.
pub fn sql_placeholders(n: usize) -> (r: String)
    ensures
        r@ == spec_placeholders(n as int),
{
    let mut r = String::new();
    proof {
        assert(r@ =~= spec_placeholders(0));
    }
    let mut i: usize = 0;
    while i < n
        invariant
            i <= n,
            r@ == spec_placeholders(i as int),
        decreases n - i,
    {
        if i == 0 {
            r.append("?");
            proof {
                assert(r@ =~= spec_placeholders(1));
            }
        } else {
            r.append(",?");
        }
        i = i + 1;
    }
    r
}

} // verus!
