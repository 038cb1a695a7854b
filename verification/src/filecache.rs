//! The on-disk listing cache: the metadata record kept per file, the naming
//! of cache files (a digest of the root path and category), and the rule for
//! dropping an entry from a cached listing. Serializing listings and touching
//! the disk are the caller's concern.

use vstd::prelude::*;
use vstd::string::{StrSliceExecFns, StringExecFns, StringSliceAdditionalSpecFns};
use sha2::{Digest, Sha256};
use crate::db::TagInfo;

verus! {

/// The cached metadata of one file of the collection.
pub struct FileInfo {
    pub name: String,
    pub category: String,
    pub filepath: String,
    pub size: u64,
    pub last_modified: String,
    pub created_at: String,
    pub root_path: String,
    pub tags: Option<Vec<TagInfo>>,
}

/// The hex digest that names what an input hashes to.
pub uninterp spec fn sha256_hex_of(bytes: Seq<u8>) -> Seq<char>;

/// Relies on sha2's `Sha256`: feeding `update` twice digests the
/// concatenation of the two inputs, the digest is a function of those bytes
/// alone, and `{:x}` renders its 32 bytes as 64 lowercase hex characters.
#[verifier::external_body]
fn sha256_hex_pair(a: &str, b: &str) -> (r: String)
    ensures
        r@ == sha256_hex_of(a.spec_bytes() + b.spec_bytes()),
        r@.len() == 64,
{
    let mut hasher = Sha256::new();
    hasher.update(a.as_bytes());
    hasher.update(b.as_bytes());
    format!("{:x}", hasher.finalize())
}

/// The first cached entry named `name` is dropped; everything else is kept in
/// order.
pub open spec fn spec_remove_first(s: Seq<FileInfo>, name: Seq<char>) -> Seq<FileInfo>
    decreases s.len(),
{
    if s.len() == 0 {
        s
    } else if s[0].name@ == name {
        s.drop_first()
    } else {
        seq![s[0]] + spec_remove_first(s.drop_first(), name)
    }
}

/// Dropping the first entry named `name` removes exactly the first position
/// bearing that name.
proof fn lemma_remove_first_at(s: Seq<FileInfo>, name: Seq<char>, p: int)
    requires
        0 <= p < s.len(),
        s[p].name@ == name,
        forall|k: int| 0 <= k < p ==> (#[trigger] s[k]).name@ != name,
    ensures
        spec_remove_first(s, name) == s.remove(p),
    decreases p,
{
    if p == 0 {
        assert(spec_remove_first(s, name) =~= s.remove(0));
    } else {
        lemma_remove_first_at(s.drop_first(), name, p - 1);
        assert(spec_remove_first(s, name) == seq![s[0]] + s.drop_first().remove(p - 1));
        assert(seq![s[0]] + s.drop_first().remove(p - 1) =~= s.remove(p));
    }
}

/// When no entry bears `name`, nothing is dropped.
proof fn lemma_remove_first_absent(s: Seq<FileInfo>, name: Seq<char>)
    requires
        forall|k: int| 0 <= k < s.len() ==> (#[trigger] s[k]).name@ != name,
    ensures
        spec_remove_first(s, name) == s,
    decreases s.len(),
{
    if s.len() > 0 {
        lemma_remove_first_absent(s.drop_first(), name);
        assert(spec_remove_first(s, name) =~= s);
    }
}

/// The file-listing cache: how cache files are named and how cached listings
/// are maintained.
pub struct FileCache;

impl FileCache {
    /// The digest a root path and category are cached under. Relies on the
    /// digest being collision-resistant to keep the cache files of different
    /// listings apart.
    pub fn hash_directory_path(path: &str, category: &str) -> (r: String)
        ensures
            r@ == sha256_hex_of(path.spec_bytes() + category.spec_bytes()),
            r@.len() == 64,
    {
        sha256_hex_pair(path, category)
    }

    /// The file a `(root, category)` listing is cached in.
    pub fn cache_file_name(path: &str, category: &str) -> (r: String)
        ensures
            r@ == sha256_hex_of(path.spec_bytes() + category.spec_bytes()) + "_files.bin"@,
    {
        let mut r = Self::hash_directory_path(path, category);
        r.append("_files.bin");
        r
    }

    /// Drops the first cached entry named `file_name`, if any; the rest of
    /// the listing is kept in order.
    pub fn remove_file_from_cache(cache: &mut Vec<FileInfo>, file_name: &str)
        ensures
            final(cache)@ == spec_remove_first(old(cache)@, file_name@),
    {
        let ghost orig = cache@;
        let mut i: usize = 0;
        while i < cache.len()
            invariant
                old(cache)@ == orig,
                cache@ == orig,
                i <= orig.len(),
                forall|k: int| 0 <= k < i ==> (#[trigger] orig[k]).name@ != file_name@,
            decreases orig.len() - i,
        {
            if crate::strutil::str_eq(cache[i].name.as_str(), file_name) {
                proof {
                    lemma_remove_first_at(orig, file_name@, i as int);
                }
                cache.remove(i);
                return ;
            }
            i = i + 1;
        }
        proof {
            lemma_remove_first_absent(orig, file_name@);
        }
    }
}

} // verus!
