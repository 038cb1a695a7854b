//! Moving, saving and deleting collection files: the response records served
//! to the interface, the destination of a move, the category fallback, and
//! the upload progress arithmetic. The file operations themselves are the
//! caller's concern.

use vstd::prelude::*;
use vstd::arithmetic::div_mod::{lemma_div_is_ordered, lemma_div_by_multiple};
use crate::filecache::FileInfo;

verus! {

/// The outcome of moving a file into the collection.
pub struct FileMoveResponse {
    pub success: bool,
    pub file: FileInfo,
}

/// The outcome of deleting a file from the collection.
pub struct FileDeleteResponse {
    pub success: bool,
    pub file: String,
}

/// The outcome of moving a file between categories.
pub struct MoveFileCategoryResponse {
    pub success: bool,
}

/// One upload progress notification.
pub struct UploadProgress {
    pub filename: String,
    pub progress: u32,
    pub status: String,
}

/// The category a file lands in: the caller's, or the holding category for
/// files not yet sorted.
pub fn effective_category(category: Option<String>) -> (r: String)
    ensures
        r@ == match category {
            Some(c) => c@,
            None => "uncategorized"@,
        },
{
    match category {
        Some(c) => c,
        None => "uncategorized".to_owned(),
    }
}

/// Where a file named `file_name` lives inside `category` under the
/// collection root.
pub fn target_file_path(root: &str, category: &str, file_name: &str) -> (r: String)
    ensures
        r@ == root@ + "/"@ + category@ + "/"@ + file_name@,
{
    let r = crate::strutil::path_join(
        crate::strutil::path_join(root, category).as_str(),
        file_name,
    );
    proof {
        assert(r@ =~= root@ + "/"@ + category@ + "/"@ + file_name@);
    }
    r
}

/// The percentage reported after copying `bytes_done` of `total_size` bytes,
/// never above 100.
pub open spec fn spec_upload_percent(bytes_done: int, total_size: int) -> int {
    if bytes_done * 100 / total_size >= 100 {
        100
    } else {
        bytes_done * 100 / total_size
    }
}

/// Upload progress as a percentage, capped at 100.
pub fn upload_percent(bytes_done: usize, total_size: usize) -> (r: u32)
    requires
        0 < total_size,
    ensures
        r == spec_upload_percent(bytes_done as int, total_size as int),
        r <= 100,
{
    proof {
        lemma_div_is_ordered(0, bytes_done as int * 100, total_size as int);
        lemma_div_by_multiple(0, total_size as int);
    }
    let p: u128 = (bytes_done as u128) * 100 / (total_size as u128);
    if p >= 100 {
        100
    } else {
        p as u32
    }
}

} // verus!
