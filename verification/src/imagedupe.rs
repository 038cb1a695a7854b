//! Perceptual-fingerprint similarity: the numeric heart of the duplicate
//! detector.
//!
//! A fingerprint is the low-frequency block of a frequency transform of a
//! small grayscale thumbnail, quantized to one byte per cell. Two images are
//! compared by the sum of the element-wise absolute differences of their
//! fingerprint matrices, normalized against the largest possible sum. The
//! score is kept as an integer out of `SIM_DENOM`, so that `SIM_DENOM` means
//! identical fingerprints and `0` means maximally different ones.

use vstd::prelude::*;
use crate::cluster::{
    ImageHash, ImageHashV, DuplicateImage, ClusterV, clusters_view, hashes_view,
    duplicate_clusters, find_duplicate_clusters,
};
use crate::progress::{
    DupeEvent, ProgressInfo, RunStatus, ScanPhase, event_percent, events_wellformed,
    percents_nondecreasing, hash_percent, spec_hash_percent, lemma_hash_percent_mono,
    lemma_hash_percent_bounds,
};

verus! {

/// Side length of the fingerprint matrix.
pub const HASH_SIZE: usize = 8;

/// Number of cells in a fingerprint matrix (`HASH_SIZE` squared).
pub const HASH_CELLS: usize = 64;

/// Denominator of similarity scores: the largest possible sum of absolute
/// differences over a whole fingerprint (255 per cell, `HASH_CELLS` cells).
/// A score of `SIM_DENOM` means the two fingerprints are identical.
pub const SIM_DENOM: u32 = 16320;

/// Absolute difference of two fingerprint cells.
pub open spec fn abs_diff(a: u8, b: u8) -> int {
    if a >= b {
        a - b
    } else {
        b - a
    }
}

/// Sum of the element-wise absolute differences of two equally long cell
/// sequences.
pub open spec fn diff_sum(a: Seq<u8>, b: Seq<u8>) -> int
    decreases a.len(),
{
    if a.len() == 0 {
        0
    } else {
        diff_sum(a.drop_last(), b.drop_last()) + abs_diff(a.last(), b.last())
    }
}

/// Similarity of two fingerprints as a score out of `SIM_DENOM`.
pub open spec fn spec_similarity(a: Seq<u8>, b: Seq<u8>) -> int {
    SIM_DENOM - diff_sum(a, b)
}

/// The difference sum of equally long sequences is bounded by 255 per cell.
pub proof fn lemma_diff_sum_bounds(a: Seq<u8>, b: Seq<u8>)
    requires
        a.len() == b.len(),
    ensures
        0 <= diff_sum(a, b) <= 255 * a.len(),
    decreases a.len(),
{
    if a.len() > 0 {
        lemma_diff_sum_bounds(a.drop_last(), b.drop_last());
    }
}

/// A fingerprint differs from itself in nothing: the difference sum of a
/// sequence against itself is zero.
pub proof fn lemma_diff_sum_self(a: Seq<u8>)
    ensures
        diff_sum(a, a) == 0,
    decreases a.len(),
{
    if a.len() > 0 {
        lemma_diff_sum_self(a.drop_last());
    }
}

/// The difference sum does not depend on the order of its arguments.
pub proof fn lemma_diff_sum_symmetric(a: Seq<u8>, b: Seq<u8>)
    requires
        a.len() == b.len(),
    ensures
        diff_sum(a, b) == diff_sum(b, a),
    decreases a.len(),
{
    if a.len() > 0 {
        lemma_diff_sum_symmetric(a.drop_last(), b.drop_last());
    }
}

/// Fingerprints computed from the same image are identical, and identical
/// fingerprints score the maximum similarity.
pub proof fn lemma_similarity_self(a: Seq<u8>, b: Seq<u8>)
    requires
        a == b,
    ensures
        spec_similarity(a, b) == SIM_DENOM,
{
    lemma_diff_sum_self(a);
}

/// Similarity is symmetric: comparing in either order gives the same score.
pub proof fn lemma_similarity_symmetric(a: Seq<u8>, b: Seq<u8>)
    requires
        a.len() == b.len(),
    ensures
        spec_similarity(a, b) == spec_similarity(b, a),
{
    lemma_diff_sum_symmetric(a, b);
}

/// Normalized similarity of two fingerprint matrices: `SIM_DENOM` minus the
/// sum of element-wise absolute differences. Pure and side-effect free, so
/// callers may evaluate it concurrently without synchronization.
pub fn compute_similarity(hash1: &Vec<u8>, hash2: &Vec<u8>) -> (r: u32)
    requires
        hash1@.len() == HASH_CELLS,
        hash2@.len() == HASH_CELLS,
    ensures
        r == spec_similarity(hash1@, hash2@),
        r <= SIM_DENOM,
{
    let mut sum: u32 = 0;
    let mut i: usize = 0;
    while i < HASH_CELLS
        invariant
            i <= HASH_CELLS,
            hash1@.len() == HASH_CELLS,
            hash2@.len() == HASH_CELLS,
            sum == diff_sum(hash1@.take(i as int), hash2@.take(i as int)),
            sum <= 255 * i,
        decreases HASH_CELLS - i,
    {
        let a = hash1[i];
        let b = hash2[i];
        let d: u32 = if a >= b {
            (a - b) as u32
        } else {
            (b - a) as u32
        };
        proof {
            let ta = hash1@.take(i + 1);
            let tb = hash2@.take(i + 1);
            assert(ta.drop_last() =~= hash1@.take(i as int));
            assert(tb.drop_last() =~= hash2@.take(i as int));
        }
        sum = sum + d;
        i = i + 1;
    }
    proof {
        assert(hash1@.take(HASH_CELLS as int) =~= hash1@);
        assert(hash2@.take(HASH_CELLS as int) =~= hash2@);
        lemma_diff_sum_bounds(hash1@, hash2@);
    }
    SIM_DENOM - sum
}

/// Default similarity threshold: 95 percent of `SIM_DENOM`.
pub const DEFAULT_THRESHOLD: u32 = 15504;

/// How many images a worker takes per batch when the fingerprinting phase is
/// run in parallel.
pub const BATCH_SIZE: usize = 100;

/// An image of the corpus: its absolute path (unique within a run) and the
/// category it was enumerated under.
pub struct ImageRef {
    pub path: String,
    pub category: String,
}

/// The outcome of fingerprinting one enumerated image: its fingerprint cells,
/// or nothing when the file could not be decoded. A failed image is skipped,
/// never fatal.
pub struct HashedImage {
    pub image: ImageRef,
    pub hash: Option<Vec<u8>>,
}

/// The mathematical content of a `HashedImage`.
pub ghost struct HashedImageV {
    pub path: Seq<char>,
    pub category: Seq<char>,
    pub hash: Option<Seq<u8>>,
}

impl View for HashedImage {
    type V = HashedImageV;

    open spec fn view(&self) -> HashedImageV {
        HashedImageV {
            path: self.image.path@,
            category: self.image.category@,
            hash: match self.hash {
                Some(h) => Some(h@),
                None => None,
            },
        }
    }
}

/// The views of a list of fingerprinting outcomes.
pub open spec fn outcomes_view(s: Seq<HashedImage>) -> Seq<HashedImageV> {
    s.map_values(|h: HashedImage| h@)
}

/// The fingerprints of the successfully decoded images, in enumeration
/// order.
pub open spec fn good_fps(s: Seq<HashedImageV>) -> Seq<ImageHashV>
    decreases s.len(),
{
    if s.len() == 0 {
        Seq::empty()
    } else {
        good_fps(s.drop_last()) + (if s.last().hash is Some {
            seq![
                ImageHashV {
                    path: s.last().path,
                    category: s.last().category,
                    hash: s.last().hash->Some_0,
                },
            ]
        } else {
            Seq::empty()
        })
    }
}

/// The threshold a run uses: the caller's, or the default.
pub open spec fn effective_threshold(t: Option<u32>) -> int {
    if t is Some {
        t->Some_0 as int
    } else {
        DEFAULT_THRESHOLD as int
    }
}

/// Whether some fingerprint in the list carries path `p`.
pub open spec fn has_path(fps: Seq<ImageHashV>, p: Seq<char>) -> bool {
    exists|k: int| 0 <= k < fps.len() && (#[trigger] fps[k]).path == p
}

/// Whether cluster `c` mentions path `p`, as its representative or as one of
/// its matches.
pub open spec fn cluster_has(c: ClusterV, p: Seq<char>) -> bool {
    c.path == p || exists|m: int|
        0 <= m < c.duplicates.len() && (#[trigger] c.duplicates[m]).path == p
}

/// Whether any cluster of the list mentions path `p`.
pub open spec fn cluster_mentions(cs: Seq<ClusterV>, p: Seq<char>) -> bool {
    exists|k: int| 0 <= k < cs.len() && cluster_has(#[trigger] cs[k], p)
}

/// Whether some successfully fingerprinted outcome carries path `p`.
pub open spec fn hashed_path(s: Seq<HashedImageV>, p: Seq<char>) -> bool {
    exists|k: int| 0 <= k < s.len() && (#[trigger] s[k]).hash is Some && s[k].path == p
}

/// Every match record of a range carries the path of some fingerprint of the
/// list.
proof fn lemma_matches_paths(fps: Seq<ImageHashV>, thr: int, i: int, lo: int, hi: int)
    requires
        0 <= lo,
        hi <= fps.len(),
    ensures
        forall|m: int|
            0 <= m < crate::cluster::matches_in(fps, thr, i, lo, hi).len() ==> has_path(
                fps,
                (#[trigger] crate::cluster::matches_in(fps, thr, i, lo, hi)[m]).path,
            ),
    decreases hi - lo,
{
    if lo < hi {
        lemma_matches_paths(fps, thr, i, lo + 1, hi);
        let ms = crate::cluster::matches_in(fps, thr, i, lo, hi);
        let rest = crate::cluster::matches_in(fps, thr, i, lo + 1, hi);
        assert forall|m: int| 0 <= m < ms.len() implies has_path(fps, (#[trigger] ms[m]).path) by {
            if crate::cluster::is_match(fps, thr, i, lo) {
                if m == 0 {
                    assert(ms[0] == crate::cluster::match_at(fps, i, lo));
                    assert(fps[lo].path == ms[0].path);
                } else {
                    assert(ms[m] == rest[m - 1]);
                }
            } else {
                assert(ms[m] == rest[m]);
            }
        }
    }
}

/// Every path mentioned by the scan's clusters is the path of some
/// fingerprint of the list.
proof fn lemma_scan_mentions(fps: Seq<ImageHashV>, thr: int, i: int, processed: Set<int>)
    ensures
        forall|p: Seq<char>| #[trigger]
            cluster_mentions(crate::cluster::scan_from(fps, thr, i, processed), p) ==> has_path(
                fps,
                p,
            ),
    decreases fps.len() - i,
{
    if 0 <= i < fps.len() && processed.contains(i) {
        lemma_scan_mentions(fps, thr, i + 1, processed);
    } else if 0 <= i < fps.len() {
        let p2 = processed.union(crate::cluster::matched_in(fps, thr, i, i + 1, fps.len() as int));
        lemma_scan_mentions(fps, thr, i + 1, p2);
        lemma_matches_paths(fps, thr, i, i + 1, fps.len() as int);
    }
    assert forall|p: Seq<char>| #[trigger]
        cluster_mentions(crate::cluster::scan_from(fps, thr, i, processed), p) implies has_path(
        fps,
        p,
    ) by {
        let cs = crate::cluster::scan_from(fps, thr, i, processed);
        let k = choose|k: int| 0 <= k < cs.len() && cluster_has(#[trigger] cs[k], p);
        if i < 0 || i >= fps.len() {
            assert(false);
        } else if processed.contains(i) {
            let rest = crate::cluster::scan_from(fps, thr, i + 1, processed);
            assert(cs == rest);
            assert(cluster_mentions(rest, p));
        } else {
            let ms = crate::cluster::matches_in(fps, thr, i, i + 1, fps.len() as int);
            let p2 = processed.union(
                crate::cluster::matched_in(fps, thr, i, i + 1, fps.len() as int),
            );
            let rest = crate::cluster::scan_from(fps, thr, i + 1, p2);
            if ms.len() == 0 {
                assert(cs == rest);
                assert(cluster_mentions(rest, p));
            } else {
                assert(cs == seq![crate::cluster::cluster_at(fps, i, ms)] + rest);
                if k == 0 {
                    let c = crate::cluster::cluster_at(fps, i, ms);
                    assert(cs[0] == c);
                    if c.path == p {
                        assert(fps[i].path == p);
                        assert(has_path(fps, p));
                    } else {
                        let m = choose|m: int|
                            0 <= m < c.duplicates.len() && (#[trigger] c.duplicates[m]).path == p;
                        assert(has_path(fps, ms[m].path));
                    }
                } else {
                    assert(cs[k] == rest[k - 1]);
                    assert(cluster_has(rest[k - 1], p));
                    assert(cluster_mentions(rest, p));
                }
            }
        }
    }
}

/// Every path of a successful fingerprint comes from a successfully hashed
/// outcome.
proof fn lemma_good_fps_paths(s: Seq<HashedImageV>)
    ensures
        forall|p: Seq<char>| has_path(good_fps(s), p) ==> #[trigger] hashed_path(s, p),
    decreases s.len(),
{
    if s.len() > 0 {
        lemma_good_fps_paths(s.drop_last());
        let fps = good_fps(s);
        let front = good_fps(s.drop_last());
        assert forall|p: Seq<char>| has_path(fps, p) implies #[trigger] hashed_path(s, p) by {
            let k = choose|k: int| 0 <= k < fps.len() && (#[trigger] fps[k]).path == p;
            if k < front.len() {
                assert(front[k] == fps[k]);
                assert(has_path(front, p));
                assert(hashed_path(s.drop_last(), p));
                let w = choose|w: int|
                    0 <= w < s.drop_last().len() && (#[trigger] s.drop_last()[w]).hash is Some
                        && s.drop_last()[w].path == p;
                assert(s[w] == s.drop_last()[w]);
            } else {
                assert(s.last().hash is Some);
                assert(s.last().path == p);
                assert(s[s.len() - 1] == s.last());
            }
        }
    } else {
        assert forall|p: Seq<char>| has_path(good_fps(s), p) implies #[trigger] hashed_path(
            s,
            p,
        ) by {
            let k = choose|k: int| 0 <= k < good_fps(s).len() && (#[trigger] good_fps(s)[k]).path
                == p;
            assert(false);
        }
    }
}

/// Copies a fingerprint's cells.
fn clone_bytes(v: &Vec<u8>) -> (r: Vec<u8>)
    ensures
        r@ == v@,
{
    let mut r: Vec<u8> = Vec::new();
    let mut i: usize = 0;
    while i < v.len()
        invariant
            i <= v@.len(),
            r@ == v@.take(i as int),
        decreases v@.len() - i,
    {
        r.push(v[i]);
        proof {
            assert(v@.take(i + 1) =~= v@.take(i as int).push(v@[i as int]));
        }
        i = i + 1;
    }
    proof {
        assert(v@.take(v@.len() as int) =~= v@);
    }
    r
}

/// Runs the duplicate search over the fingerprinting outcomes of one
/// enumeration.
///
/// The successfully fingerprinted images are searched with the forward-scan
/// policy under the caller's threshold (or the default), and the run's whole
/// event trace is returned beside the clusters: one start event, progress
/// that never decreases nor exceeds 100, and one final finish event at
/// exactly 100. An image whose fingerprinting failed is mentioned by no
/// cluster.
pub fn find_duplicates(outcomes: &Vec<HashedImage>, similarity_threshold: Option<u32>) -> (r: (
    Vec<DuplicateImage>,
    Vec<DupeEvent>,
))
    requires
        forall|k: int|
            0 <= k < outcomes@.len() ==> ((#[trigger] outcomes@[k]@.hash) matches Some(h)
                ==> h.len() == HASH_CELLS),
    ensures
        clusters_view(r.0@) == duplicate_clusters(
            good_fps(outcomes_view(outcomes@)),
            effective_threshold(similarity_threshold),
        ),
        events_wellformed(r.1@),
        forall|p: Seq<char>| #[trigger]
            cluster_mentions(clusters_view(r.0@), p) ==> hashed_path(outcomes_view(outcomes@), p),
{
    let threshold: u32 = match similarity_threshold {
        Some(t) => t,
        None => DEFAULT_THRESHOLD,
    };
    let total = outcomes.len();
    let ghost ov = outcomes_view(outcomes@);
    let mut events: Vec<DupeEvent> = Vec::new();
    events.push(
        DupeEvent::Started(
            ProgressInfo {
                filename: "Duplicate Check".to_owned(),
                progress: 0,
                status: RunStatus::Starting,
                phase: ScanPhase::Initializing,
                current_file: None,
                target_file: None,
            },
        ),
    );
    events.push(
        DupeEvent::Progress(
            ProgressInfo {
                filename: "Duplicate Check".to_owned(),
                progress: 0,
                status: RunStatus::Processing,
                phase: ScanPhase::ComputingHashes,
                current_file: None,
                target_file: None,
            },
        ),
    );
    let mut fps: Vec<ImageHash> = Vec::new();
    proof {
        assert(hashes_view(fps@) =~= good_fps(ov.take(0)));
        if total > 0 {
            lemma_hash_percent_bounds(0, total as int);
        }
    }
    let mut k: usize = 0;
    while k < total
        invariant
            total == outcomes@.len(),
            ov == outcomes_view(outcomes@),
            forall|m: int|
                0 <= m < outcomes@.len() ==> ((#[trigger] outcomes@[m]@.hash) matches Some(h)
                    ==> h.len() == HASH_CELLS),
            k <= total,
            fps@.len() <= k,
            hashes_view(fps@) == good_fps(ov.take(k as int)),
            forall|m: int|
                0 <= m < fps@.len() ==> (#[trigger] fps@[m]@).hash.len() == HASH_CELLS,
            events@.len() >= 2,
            events@[0] matches DupeEvent::Started(p) && p.progress == 0,
            forall|m: int| 1 <= m < events@.len() ==> (#[trigger] events@[m]) is Progress,
            forall|m: int| 0 <= m < events@.len() ==> #[trigger] event_percent(events@[m]) <= 40,
            percents_nondecreasing(events@),
            forall|m: int|
                0 <= m < events@.len() ==> #[trigger] event_percent(events@[m]) <= (if total > 0 {
                    spec_hash_percent(fps@.len() as int, total as int)
                } else {
                    0
                }),
        decreases total - k,
    {
        let hashed: bool = outcomes[k].hash.is_some();
        if hashed {
            if fps.len() % 10 == 0 {
                let pct = hash_percent(fps.len(), total);
                events.push(
                    DupeEvent::Progress(
                        ProgressInfo {
                            filename: "Duplicate Check".to_owned(),
                            progress: pct,
                            status: RunStatus::Processing,
                            phase: ScanPhase::ComputingHashes,
                            current_file: Some(outcomes[k].image.path.clone()),
                            target_file: None,
                        },
                    ),
                );
            }
            let cells = match &outcomes[k].hash {
                Some(h) => clone_bytes(h),
                None => Vec::new(),
            };
            let img = ImageHash {
                path: outcomes[k].image.path.clone(),
                category: outcomes[k].image.category.clone(),
                hash: cells,
            };
            proof {
                assert(ov[k as int] == outcomes@[k as int]@);
                assert(img@ == ImageHashV {
                    path: ov[k as int].path,
                    category: ov[k as int].category,
                    hash: ov[k as int].hash->Some_0,
                });
                assert((fps@.push(img)).map_values(|h: ImageHash| h@) =~= fps@.map_values(
                    |h: ImageHash| h@,
                ).push(img@));
                assert(ov.take(k + 1).drop_last() =~= ov.take(k as int));
                assert(ov.take(k + 1).last() == ov[k as int]);
                assert(good_fps(ov.take(k + 1)) == good_fps(ov.take(k as int)) + seq![img@]);
                assert(hashes_view(fps@).push(img@) =~= hashes_view(fps@) + seq![img@]);
                lemma_hash_percent_mono(fps@.len() as int, fps@.len() as int + 1, total as int);
                lemma_hash_percent_bounds(fps@.len() as int + 1, total as int);
            }
            fps.push(img);
        } else {
            proof {
                assert(ov[k as int] == outcomes@[k as int]@);
                assert(ov.take(k + 1).drop_last() =~= ov.take(k as int));
                assert(ov.take(k + 1).last() == ov[k as int]);
                assert(good_fps(ov.take(k + 1)) =~= good_fps(ov.take(k as int)));
            }
        }
        k = k + 1;
    }
    proof {
        assert(ov.take(total as int) =~= ov);
    }
    events.push(
        DupeEvent::Progress(
            ProgressInfo {
                filename: "Duplicate Check".to_owned(),
                progress: 40,
                status: RunStatus::Processing,
                phase: ScanPhase::ComparingImages,
                current_file: None,
                target_file: None,
            },
        ),
    );
    let ghost h_end = events@.len();
    let ghost head = events@;
    let (clusters, mut cmp_events) = find_duplicate_clusters(&fps, threshold, total);
    let ghost ce = cmp_events@;
    events.append(&mut cmp_events);
    events.push(
        DupeEvent::Finished(
            ProgressInfo {
                filename: "Duplicate Check".to_owned(),
                progress: 100,
                status: RunStatus::Complete,
                phase: ScanPhase::Complete,
                current_file: None,
                target_file: None,
            },
        ),
    );
    proof {
        let ev = events@;
        let fin = ev[ev.len() - 1];
        assert(ev.len() == h_end + ce.len() + 1);
        assert(forall|m: int| 0 <= m < h_end ==> ev[m] == head[m]);
        assert(forall|m: int| 0 <= m < ce.len() ==> ev[h_end + m] == ce[m]);
        assert(ev[0] == head[0]);
        assert(event_percent(fin) == 100);
        assert forall|m: int| 0 < m < ev.len() - 1 implies (#[trigger] ev[m]) is Progress by {
            if m < h_end {
                assert(ev[m] == head[m]);
            } else {
                assert(ev[m] == ce[m - h_end]);
            }
        }
        assert forall|m: int| 0 <= m < ev.len() implies #[trigger] event_percent(ev[m])
            <= 100 by {
            if m < h_end {
                assert(ev[m] == head[m]);
            } else if m < h_end + ce.len() {
                assert(ev[m] == ce[m - h_end]);
            } else {
                assert(ev[m] == fin);
            }
        }
        assert forall|a: int, b: int| 0 <= a <= b < ev.len() implies #[trigger] event_percent(
            ev[a],
        ) <= #[trigger] event_percent(ev[b]) by {
            if b == ev.len() - 1 {
                if a < h_end {
                    assert(ev[a] == head[a]);
                } else if a < h_end + ce.len() {
                    assert(ev[a] == ce[a - h_end]);
                }
                assert(event_percent(ev[b]) == 100);
            } else if b < h_end {
                assert(ev[a] == head[a]);
                assert(ev[b] == head[b]);
            } else if a < h_end {
                assert(ev[a] == head[a]);
                assert(ev[b] == ce[b - h_end]);
                assert(event_percent(head[a]) <= 40);
                assert(40 <= event_percent(ce[b - h_end]));
            } else {
                assert(ev[a] == ce[a - h_end]);
                assert(ev[b] == ce[b - h_end]);
            }
        }
        lemma_scan_mentions(
            good_fps(ov),
            threshold as int,
            0,
            Set::empty(),
        );
        lemma_good_fps_paths(ov);
    }
    (clusters, events)
}

/// The mathematical content of an `ImageRef`.
pub ghost struct ImageRefV {
    pub path: Seq<char>,
    pub category: Seq<char>,
}

impl View for ImageRef {
    type V = ImageRefV;

    open spec fn view(&self) -> ImageRefV {
        ImageRefV { path: self.path@, category: self.category@ }
    }
}

/// One first-level entry of the collection root: its name, whether it is a
/// directory, and — when it is one — the names of the files directly inside
/// it.
pub struct CategoryDir {
    pub name: String,
    pub is_dir: bool,
    pub files: Vec<String>,
}

/// The mathematical content of a `CategoryDir`.
pub ghost struct CategoryDirV {
    pub name: Seq<char>,
    pub is_dir: bool,
    pub files: Seq<Seq<char>>,
}

impl View for CategoryDir {
    type V = CategoryDirV;

    open spec fn view(&self) -> CategoryDirV {
        CategoryDirV {
            name: self.name@,
            is_dir: self.is_dir,
            files: self.files@.map_values(|f: String| f@),
        }
    }
}

/// The views of a root listing.
pub open spec fn listing_view(s: Seq<CategoryDir>) -> Seq<CategoryDirV> {
    s.map_values(|d: CategoryDir| d@)
}

/// Whether a file name carries one of the recognized raster-image
/// extensions, with a non-empty stem before the dot.
pub open spec fn spec_is_image_name(s: Seq<char>) -> bool {
    ||| spec_image_suffix(s, ".jpg"@)
    ||| spec_image_suffix(s, ".jpeg"@)
    ||| spec_image_suffix(s, ".png"@)
    ||| spec_image_suffix(s, ".jfif"@)
    ||| spec_image_suffix(s, ".webp"@)
}

/// Whether `s` ends in the dotted extension `f` and has a non-empty stem.
pub open spec fn spec_image_suffix(s: Seq<char>, f: Seq<char>) -> bool {
    s.len() > f.len() && crate::strutil::spec_ends_with(s, f)
}

/// Whether a root entry is scanned: a directory that is not the reserved
/// staging folder.
pub open spec fn spec_category_included(d: CategoryDirV) -> bool {
    d.is_dir && d.name != "temp"@
}

/// The image reference of file `j` of directory `d` under `root`.
pub open spec fn spec_image_ref(root: Seq<char>, d: CategoryDirV, j: int) -> ImageRefV {
    ImageRefV { path: root + "/"@ + d.name + "/"@ + d.files[j], category: d.name }
}

/// The image references of the first `j` files of directory `d`.
pub open spec fn spec_category_refs_upto(root: Seq<char>, d: CategoryDirV, j: int) -> Seq<
    ImageRefV,
>
    decreases j,
{
    if j <= 0 {
        Seq::empty()
    } else {
        spec_category_refs_upto(root, d, j - 1) + (if spec_is_image_name(d.files[j - 1]) {
            seq![spec_image_ref(root, d, j - 1)]
        } else {
            Seq::empty()
        })
    }
}

/// The image references of directory `d` under `root`.
pub open spec fn spec_category_refs(root: Seq<char>, d: CategoryDirV) -> Seq<ImageRefV> {
    spec_category_refs_upto(root, d, d.files.len() as int)
}

/// The image references of the first `i` root entries.
pub open spec fn spec_collect_upto(root: Seq<char>, dirs: Seq<CategoryDirV>, i: int) -> Seq<
    ImageRefV,
>
    decreases i,
{
    if i <= 0 {
        Seq::empty()
    } else {
        spec_collect_upto(root, dirs, i - 1) + (if spec_category_included(dirs[i - 1]) {
            spec_category_refs(root, dirs[i - 1])
        } else {
            Seq::empty()
        })
    }
}

/// The image corpus of a root listing: for every first-level directory but
/// the reserved staging folder, every directly contained file carrying a
/// recognized image extension, as `(path, category)` references in listing
/// order.
pub open spec fn spec_collect(root: Seq<char>, dirs: Seq<CategoryDirV>) -> Seq<ImageRefV> {
    spec_collect_upto(root, dirs, dirs.len() as int)
}

/// Whether a file name carries a recognized image extension.
pub fn is_image_name(name: &str) -> (r: bool)
    ensures
        r == spec_is_image_name(name@),
{
    proof {
        reveal_strlit(".jpg");
        reveal_strlit(".jpeg");
        reveal_strlit(".png");
        reveal_strlit(".jfif");
        reveal_strlit(".webp");
    }
    let n = name.unicode_len();
    (n > 4 && crate::strutil::str_ends_with(name, ".jpg")) || (n > 5
        && crate::strutil::str_ends_with(name, ".jpeg")) || (n > 4
        && crate::strutil::str_ends_with(name, ".png")) || (n > 5
        && crate::strutil::str_ends_with(name, ".jfif")) || (n > 5
        && crate::strutil::str_ends_with(name, ".webp"))
}

/// Enumerates the image corpus of a collection root: every file directly
/// inside a first-level directory (the reserved `temp` staging folder
/// excepted) whose name carries a recognized image extension, paired with the
/// directory's name as its category.
pub fn collect_image_paths(root: &str, listing: &Vec<CategoryDir>) -> (r: Vec<ImageRef>)
    ensures
        r@.map_values(|x: ImageRef| x@) == spec_collect(root@, listing_view(listing@)),
{
    let ghost dirs = listing_view(listing@);
    let mut r: Vec<ImageRef> = Vec::new();
    proof {
        assert(r@.map_values(|x: ImageRef| x@) =~= spec_collect_upto(root@, dirs, 0));
    }
    let mut i: usize = 0;
    while i < listing.len()
        invariant
            dirs == listing_view(listing@),
            dirs.len() == listing@.len(),
            i <= listing@.len(),
            r@.map_values(|x: ImageRef| x@) == spec_collect_upto(root@, dirs, i as int),
        decreases listing@.len() - i,
    {
        let d = &listing[i];
        proof {
            assert(dirs[i as int] == listing@[i as int]@);
        }
        let skipped = {
            proof {
                reveal_strlit("temp");
            }
            !d.is_dir || crate::strutil::str_eq(d.name.as_str(), "temp")
        };
        if !skipped {
            let base = crate::strutil::path_join(root, d.name.as_str());
            proof {
                assert(spec_category_refs_upto(root@, dirs[i as int], 0) =~= Seq::<
                    ImageRefV,
                >::empty());
            }
            let mut j: usize = 0;
            while j < d.files.len()
                invariant
                    dirs == listing_view(listing@),
                    dirs.len() == listing@.len(),
                    i < listing@.len(),
                    dirs[i as int] == listing@[i as int]@,
                    d == &listing@[i as int],
                    base@ == root@ + "/"@ + dirs[i as int].name,
                    j <= d.files@.len(),
                    d.files@.len() == dirs[i as int].files.len(),
                    r@.map_values(|x: ImageRef| x@) == spec_collect_upto(root@, dirs, i as int)
                        + spec_category_refs_upto(root@, dirs[i as int], j as int),
                decreases d.files@.len() - j,
            {
                proof {
                    assert(dirs[i as int].files[j as int] == d.files@[j as int]@);
                }
                if is_image_name(d.files[j].as_str()) {
                    let path = crate::strutil::path_join(base.as_str(), d.files[j].as_str());
                    let item = ImageRef { path, category: d.name.clone() };
                    proof {
                        assert(item@ == spec_image_ref(root@, dirs[i as int], j as int)) by {
                            assert(item@.path =~= root@ + "/"@ + dirs[i as int].name + "/"@
                                + dirs[i as int].files[j as int]);
                        }
                        assert((r@.push(item)).map_values(|x: ImageRef| x@) =~= r@.map_values(
                            |x: ImageRef| x@,
                        ).push(item@));
                        assert(spec_collect_upto(root@, dirs, i as int) + spec_category_refs_upto(
                            root@,
                            dirs[i as int],
                            j + 1,
                        ) =~= (spec_collect_upto(root@, dirs, i as int) + spec_category_refs_upto(
                            root@,
                            dirs[i as int],
                            j as int,
                        )).push(item@));
                    }
                    r.push(item);
                } else {
                    proof {
                        assert(spec_collect_upto(root@, dirs, i as int) + spec_category_refs_upto(
                            root@,
                            dirs[i as int],
                            j + 1,
                        ) =~= spec_collect_upto(root@, dirs, i as int) + spec_category_refs_upto(
                            root@,
                            dirs[i as int],
                            j as int,
                        ));
                    }
                }
                j = j + 1;
            }
            proof {
                assert(spec_collect_upto(root@, dirs, i + 1) =~= spec_collect_upto(
                    root@,
                    dirs,
                    i as int,
                ) + spec_category_refs(root@, dirs[i as int]));
            }
        } else {
            proof {
                assert(spec_collect_upto(root@, dirs, i + 1) =~= spec_collect_upto(
                    root@,
                    dirs,
                    i as int,
                ));
            }
        }
        i = i + 1;
    }
    r
}

} // verus!
