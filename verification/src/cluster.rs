//! The duplicate-cluster builder: a forward scan over the fingerprint list.
//!
//! Candidates are visited in enumeration order. A candidate that has not yet
//! been matched into an earlier cluster becomes a potential representative:
//! it is compared against every later candidate, and each later candidate
//! scoring at least the threshold is recorded as one of its matches and added
//! to the processed set, so that it can never become a representative itself.
//! A candidate that accumulated at least one match is emitted as a cluster.
//!
//! `duplicate_clusters` is the mathematical statement of this policy;
//! `find_duplicate_clusters` is the executable search, proved to return
//! exactly that.

use vstd::prelude::*;
use crate::imagedupe::{HASH_CELLS, SIM_DENOM, spec_similarity, compute_similarity};
use crate::progress::{DupeEvent, ProgressInfo, RunStatus, ScanPhase};
use crate::progress::{compare_percent, spec_compare_percent, event_percent};
use crate::progress::{lemma_compare_percent_mono, lemma_compare_percent_bounds};

verus! {

/// A fingerprinted image: where it lives, its category, and its fingerprint
/// cells. Immutable once computed; fingerprints of one run all share the
/// same shape.
pub struct ImageHash {
    pub path: String,
    pub category: String,
    pub hash: Vec<u8>,
}

/// The mathematical content of an `ImageHash`.
pub ghost struct ImageHashV {
    pub path: Seq<char>,
    pub category: Seq<char>,
    pub hash: Seq<u8>,
}

impl View for ImageHash {
    type V = ImageHashV;

    open spec fn view(&self) -> ImageHashV {
        ImageHashV { path: self.path@, category: self.category@, hash: self.hash@ }
    }
}

/// A well-formed fingerprint has exactly `HASH_CELLS` cells.
pub open spec fn hash_wf(h: ImageHashV) -> bool {
    h.hash.len() == HASH_CELLS
}

/// The views of a fingerprint list.
pub open spec fn hashes_view(s: Seq<ImageHash>) -> Seq<ImageHashV> {
    s.map_values(|h: ImageHash| h@)
}

/// One image judged similar to a cluster representative, with the score that
/// judged it.
pub struct DuplicateMatch {
    pub path: String,
    pub category: String,
    pub similarity: u32,
}

/// The mathematical content of a `DuplicateMatch`.
pub ghost struct MatchV {
    pub path: Seq<char>,
    pub category: Seq<char>,
    pub similarity: int,
}

impl View for DuplicateMatch {
    type V = MatchV;

    open spec fn view(&self) -> MatchV {
        MatchV { path: self.path@, category: self.category@, similarity: self.similarity as int }
    }
}

/// A duplicate cluster: a representative image (similarity `SIM_DENOM` to
/// itself) and the later images judged similar to it, in discovery order.
pub struct DuplicateImage {
    pub path: String,
    pub category: String,
    pub similarity: u32,
    pub duplicates: Vec<DuplicateMatch>,
}

/// The mathematical content of a `DuplicateImage`.
pub ghost struct ClusterV {
    pub path: Seq<char>,
    pub category: Seq<char>,
    pub similarity: int,
    pub duplicates: Seq<MatchV>,
}

impl View for DuplicateImage {
    type V = ClusterV;

    open spec fn view(&self) -> ClusterV {
        ClusterV {
            path: self.path@,
            category: self.category@,
            similarity: self.similarity as int,
            duplicates: self.duplicates@.map_values(|m: DuplicateMatch| m@),
        }
    }
}

/// The views of a cluster list.
pub open spec fn clusters_view(s: Seq<DuplicateImage>) -> Seq<ClusterV> {
    s.map_values(|c: DuplicateImage| c@)
}

/// Whether candidate `j` scores at least `thr` against candidate `i`.
pub open spec fn is_match(fps: Seq<ImageHashV>, thr: int, i: int, j: int) -> bool {
    spec_similarity(fps[i].hash, fps[j].hash) >= thr
}

/// The match record for candidate `j` against representative `i`.
pub open spec fn match_at(fps: Seq<ImageHashV>, i: int, j: int) -> MatchV {
    MatchV {
        path: fps[j].path,
        category: fps[j].category,
        similarity: spec_similarity(fps[i].hash, fps[j].hash),
    }
}

/// The matches of candidate `i` among indices `[lo, hi)`, in index order.
pub open spec fn matches_in(fps: Seq<ImageHashV>, thr: int, i: int, lo: int, hi: int) -> Seq<MatchV>
    decreases hi - lo,
{
    if lo >= hi {
        Seq::empty()
    } else {
        (if is_match(fps, thr, i, lo) {
            seq![match_at(fps, i, lo)]
        } else {
            Seq::empty()
        }) + matches_in(fps, thr, i, lo + 1, hi)
    }
}

/// The indices in `[lo, hi)` matched by candidate `i`.
pub open spec fn matched_in(fps: Seq<ImageHashV>, thr: int, i: int, lo: int, hi: int) -> Set<int> {
    Set::new(|j: int| lo <= j < hi && is_match(fps, thr, i, j))
}

/// The cluster emitted for representative `i` with match list `ms`.
pub open spec fn cluster_at(fps: Seq<ImageHashV>, i: int, ms: Seq<MatchV>) -> ClusterV {
    ClusterV {
        path: fps[i].path,
        category: fps[i].category,
        similarity: SIM_DENOM as int,
        duplicates: ms,
    }
}

/// The forward scan from candidate `i` onward, given the set of indices
/// already matched into earlier clusters. A processed candidate is skipped
/// outright; any other candidate scans the candidates after it, marks every
/// match as processed, and is emitted as a cluster exactly when it matched
/// something.
pub open spec fn scan_from(fps: Seq<ImageHashV>, thr: int, i: int, processed: Set<int>) -> Seq<
    ClusterV,
>
    decreases fps.len() - i,
{
    if i < 0 || i >= fps.len() {
        Seq::empty()
    } else if processed.contains(i) {
        scan_from(fps, thr, i + 1, processed)
    } else {
        let ms = matches_in(fps, thr, i, i + 1, fps.len() as int);
        let p2 = processed.union(matched_in(fps, thr, i, i + 1, fps.len() as int));
        if ms.len() == 0 {
            scan_from(fps, thr, i + 1, p2)
        } else {
            seq![cluster_at(fps, i, ms)] + scan_from(fps, thr, i + 1, p2)
        }
    }
}

/// The duplicate clusters of a fingerprint list under threshold `thr`: the
/// forward scan over the whole list, starting with nothing processed.
pub open spec fn duplicate_clusters(fps: Seq<ImageHashV>, thr: int) -> Seq<ClusterV> {
    scan_from(fps, thr, 0, Set::empty())
}

/// Extending the scanned range by one index appends that index's match
/// record, if it is one.
proof fn lemma_matches_in_snoc(fps: Seq<ImageHashV>, thr: int, i: int, lo: int, hi: int)
    requires
        lo <= hi,
    ensures
        matches_in(fps, thr, i, lo, hi + 1) == matches_in(fps, thr, i, lo, hi) + (
        if is_match(fps, thr, i, hi) {
            seq![match_at(fps, i, hi)]
        } else {
            Seq::<MatchV>::empty()
        }),
    decreases hi - lo,
{
    let tail = if is_match(fps, thr, i, hi) {
        seq![match_at(fps, i, hi)]
    } else {
        Seq::<MatchV>::empty()
    };
    if lo >= hi {
        assert(matches_in(fps, thr, i, lo, hi) == Seq::<MatchV>::empty());
        assert(matches_in(fps, thr, i, lo + 1, hi + 1) == Seq::<MatchV>::empty());
        assert(matches_in(fps, thr, i, lo, hi + 1) =~= matches_in(fps, thr, i, lo, hi) + tail);
    } else {
        lemma_matches_in_snoc(fps, thr, i, lo + 1, hi);
        let head = if is_match(fps, thr, i, lo) {
            seq![match_at(fps, i, lo)]
        } else {
            Seq::<MatchV>::empty()
        };
        assert(matches_in(fps, thr, i, lo, hi + 1) == head + matches_in(fps, thr, i, lo + 1, hi
            + 1));
        assert(head + (matches_in(fps, thr, i, lo + 1, hi) + tail) =~= (head + matches_in(
            fps,
            thr,
            i,
            lo + 1,
            hi,
        )) + tail);
    }
}

/// Extending the scanned range by one index adds that index to the matched
/// set, if it is a match.
proof fn lemma_matched_in_snoc(fps: Seq<ImageHashV>, thr: int, i: int, lo: int, hi: int)
    requires
        lo <= hi,
    ensures
        matched_in(fps, thr, i, lo, hi + 1) == matched_in(fps, thr, i, lo, hi).union(
            if is_match(fps, thr, i, hi) {
                set![hi]
            } else {
                Set::<int>::empty()
            },
        ),
{
    let tail = if is_match(fps, thr, i, hi) {
        set![hi]
    } else {
        Set::<int>::empty()
    };
    assert(matched_in(fps, thr, i, lo, hi + 1) =~= matched_in(fps, thr, i, lo, hi).union(tail));
}

/// The comparison-phase progress events appended by the search: every one is
/// a progress event of the comparing phase with a percentage in `[40, 99]`,
/// and the percentages never decrease.
pub open spec fn compare_events_ok(s: Seq<DupeEvent>) -> bool {
    &&& forall|k: int| 0 <= k < s.len() ==> #[trigger] s[k] is Progress
    &&& forall|k: int| 0 <= k < s.len() ==> 40 <= #[trigger] event_percent(s[k]) <= 99
    &&& forall|a: int, b: int|
        0 <= a <= b < s.len() ==> #[trigger] event_percent(s[a]) <= #[trigger] event_percent(s[b])
}

/// Runs the pairwise comparison phase: builds the duplicate clusters of
/// `hashes` under `threshold`, reporting coarse progress (one event per 1000
/// comparisons) against the corpus size `total_images`.
///
/// Returns exactly the clusters of the forward-scan policy, together with the
/// emitted events.
pub fn find_duplicate_clusters(
    hashes: &Vec<ImageHash>,
    threshold: u32,
    total_images: usize,
) -> (r: (Vec<DuplicateImage>, Vec<DupeEvent>))
    requires
        forall|k: int| 0 <= k < hashes@.len() ==> #[trigger] hashes@[k]@.hash.len() == HASH_CELLS,
        hashes@.len() <= total_images,
    ensures
        clusters_view(r.0@) == duplicate_clusters(hashes_view(hashes@), threshold as int),
        compare_events_ok(r.1@),
{
    let ghost fps = hashes_view(hashes@);
    let ghost thr = threshold as int;
    let n = hashes.len();
    let mut clusters: Vec<DuplicateImage> = Vec::new();
    let mut events: Vec<DupeEvent> = Vec::new();
    let mut processed: Vec<bool> = Vec::new();
    let mut k: usize = 0;
    while k < n
        invariant
            processed@.len() == k <= n,
            forall|m: int| 0 <= m < k ==> !(#[trigger] processed@[m]),
        decreases n - k,
    {
        processed.push(false);
        k = k + 1;
    }
    let ghost mut pset: Set<int> = Set::empty();
    let mut comp_count: u64 = 0;
    proof {
        assert(clusters_view(clusters@) =~= Seq::<ClusterV>::empty());
        assert(forall|m: int| 0 <= m < n ==> processed@[m] == #[trigger] pset.contains(m));
    }
    let mut i: usize = 0;
    while i < n
        invariant
            n == hashes@.len(),
            fps == hashes_view(hashes@),
            thr == threshold as int,
            n == fps.len(),
            n <= total_images,
            forall|m: int| 0 <= m < n ==> #[trigger] hashes@[m]@.hash.len() == HASH_CELLS,
            i <= n,
            processed@.len() == n,
            forall|m: int| 0 <= m < n ==> processed@[m] == #[trigger] pset.contains(m),
            clusters_view(clusters@) + scan_from(fps, thr, i as int, pset) == duplicate_clusters(
                fps,
                thr,
            ),
            compare_events_ok(events@),
            forall|m: int|
                0 <= m < events@.len() ==> #[trigger] event_percent(events@[m])
                    <= spec_compare_percent(comp_count as int, total_images as int),
        decreases n - i,
    {
        if !processed[i] {
            let ghost pbefore = pset;
            let mut ms: Vec<DuplicateMatch> = Vec::new();
            proof {
                assert(ms@.map_values(|m: DuplicateMatch| m@) =~= matches_in(
                    fps,
                    thr,
                    i as int,
                    i + 1,
                    i + 1,
                ));
                assert(pset =~= pbefore.union(matched_in(fps, thr, i as int, i + 1, i + 1)));
            }
            let mut j: usize = i + 1;
            while j < n
                invariant
                    n == hashes@.len(),
                    fps == hashes_view(hashes@),
                    thr == threshold as int,
                    n == fps.len(),
                    n <= total_images,
                    forall|m: int| 0 <= m < n ==> #[trigger] hashes@[m]@.hash.len() == HASH_CELLS,
                    i < n,
                    i + 1 <= j <= n,
                    processed@.len() == n,
                    forall|m: int| 0 <= m < n ==> processed@[m] == #[trigger] pset.contains(m),
                    ms@.map_values(|m: DuplicateMatch| m@) == matches_in(
                        fps,
                        thr,
                        i as int,
                        i + 1,
                        j as int,
                    ),
                    pset == pbefore.union(matched_in(fps, thr, i as int, i + 1, j as int)),
                    compare_events_ok(events@),
                    forall|m: int|
                        0 <= m < events@.len() ==> #[trigger] event_percent(events@[m])
                            <= spec_compare_percent(comp_count as int, total_images as int),
                decreases n - j,
            {
                if comp_count % 1000 == 0 {
                    let pct = compare_percent(comp_count, total_images);
                    let info = ProgressInfo {
                        filename: "Duplicate Check".to_owned(),
                        progress: pct,
                        status: RunStatus::Processing,
                        phase: ScanPhase::ComparingImages,
                        current_file: Some(hashes[i].path.clone()),
                        target_file: Some(hashes[j].path.clone()),
                    };
                    events.push(DupeEvent::Progress(info));
                }
                if comp_count < u64::MAX {
                    proof {
                        lemma_compare_percent_mono(
                            comp_count as int,
                            comp_count + 1,
                            total_images as int,
                        );
                    }
                    comp_count = comp_count + 1;
                }
                proof {
                    assert(hashes@[i as int]@.hash.len() == HASH_CELLS);
                    assert(hashes@[j as int]@.hash.len() == HASH_CELLS);
                }
                let sim = compute_similarity(&hashes[i].hash, &hashes[j].hash);
                proof {
                    lemma_matches_in_snoc(fps, thr, i as int, i + 1, j as int);
                    lemma_matched_in_snoc(fps, thr, i as int, i + 1, j as int);
                    assert(fps[i as int] == hashes@[i as int]@);
                    assert(fps[j as int] == hashes@[j as int]@);
                }
                if sim >= threshold {
                    processed[j] = true;
                    proof {
                        pset = pset.insert(j as int);
                        assert(pset =~= pbefore.union(
                            matched_in(fps, thr, i as int, i + 1, j + 1),
                        ));
                    }
                    let m = DuplicateMatch {
                        path: hashes[j].path.clone(),
                        category: hashes[j].category.clone(),
                        similarity: sim,
                    };
                    proof {
                        assert(m@ == match_at(fps, i as int, j as int));
                        assert((ms@.push(m)).map_values(|x: DuplicateMatch| x@) =~= ms
                            @.map_values(|x: DuplicateMatch| x@).push(m@));
                    }
                    ms.push(m);
                } else {
                    proof {
                        assert(pset =~= pbefore.union(
                            matched_in(fps, thr, i as int, i + 1, j + 1),
                        ));
                        assert(ms@.map_values(|x: DuplicateMatch| x@) =~= matches_in(
                            fps,
                            thr,
                            i as int,
                            i + 1,
                            j + 1,
                        ));
                    }
                }
                j = j + 1;
            }
            if ms.len() > 0 {
                let ghost msv = ms@.map_values(|x: DuplicateMatch| x@);
                let c = DuplicateImage {
                    path: hashes[i].path.clone(),
                    category: hashes[i].category.clone(),
                    similarity: SIM_DENOM,
                    duplicates: ms,
                };
                proof {
                    assert(c@ == cluster_at(fps, i as int, msv));
                    assert((clusters@.push(c)).map_values(|x: DuplicateImage| x@) =~= clusters
                        @.map_values(|x: DuplicateImage| x@).push(c@));
                    assert(scan_from(fps, thr, i as int, pbefore) == seq![
                        cluster_at(fps, i as int, msv),
                    ] + scan_from(fps, thr, i + 1, pset));
                    assert(clusters_view(clusters@.push(c)) + scan_from(fps, thr, i + 1, pset)
                        =~= clusters_view(clusters@) + scan_from(fps, thr, i as int, pbefore));
                }
                clusters.push(c);
            } else {
                proof {
                    assert(scan_from(fps, thr, i as int, pbefore) == scan_from(
                        fps,
                        thr,
                        i + 1,
                        pset,
                    ));
                }
            }
        } else {
            proof {
                assert(pset.contains(i as int));
                assert(scan_from(fps, thr, i as int, pset) == scan_from(fps, thr, i + 1, pset));
            }
        }
        i = i + 1;
    }
    proof {
        assert(scan_from(fps, thr, n as int, pset) =~= Seq::<ClusterV>::empty());
        assert(clusters_view(clusters@) + scan_from(fps, thr, n as int, pset) =~= clusters_view(
            clusters@,
        ));
    }
    (clusters, events)
}

/// No element of a match range fails the threshold, exactly when the range is
/// empty of matches.
proof fn lemma_matches_in_none(fps: Seq<ImageHashV>, thr: int, i: int, lo: int, hi: int)
    ensures
        matches_in(fps, thr, i, lo, hi).len() == 0 <==> (forall|j: int|
            lo <= j < hi ==> !is_match(fps, thr, i, j)),
    decreases hi - lo,
{
    if lo < hi {
        lemma_matches_in_none(fps, thr, i, lo + 1, hi);
    }
}

/// Whether entry `m` of the match list of range `[lo, hi)` records a matching
/// index of the range.
pub open spec fn match_entry_sound(
    fps: Seq<ImageHashV>,
    thr: int,
    i: int,
    lo: int,
    hi: int,
    m: int,
) -> bool {
    exists|j: int|
        lo <= j < hi && #[trigger] is_match(fps, thr, i, j) && matches_in(fps, thr, i, lo, hi)[m]
            == match_at(fps, i, j)
}

/// Whether the match list of range `[lo, hi)` records matching index `j`.
pub open spec fn match_recorded(
    fps: Seq<ImageHashV>,
    thr: int,
    i: int,
    lo: int,
    hi: int,
    j: int,
) -> bool {
    exists|m: int|
        0 <= m < matches_in(fps, thr, i, lo, hi).len() && #[trigger] matches_in(
            fps,
            thr,
            i,
            lo,
            hi,
        )[m] == match_at(fps, i, j)
}

/// Every element of a match range records a matching index of the range.
proof fn lemma_matches_in_sound(fps: Seq<ImageHashV>, thr: int, i: int, lo: int, hi: int)
    ensures
        forall|m: int|
            0 <= m < matches_in(fps, thr, i, lo, hi).len() ==> #[trigger] match_entry_sound(
                fps,
                thr,
                i,
                lo,
                hi,
                m,
            ),
    decreases hi - lo,
{
    if lo < hi {
        lemma_matches_in_sound(fps, thr, i, lo + 1, hi);
        let ms = matches_in(fps, thr, i, lo, hi);
        let rest = matches_in(fps, thr, i, lo + 1, hi);
        assert forall|m: int| 0 <= m < ms.len() implies #[trigger] match_entry_sound(
            fps,
            thr,
            i,
            lo,
            hi,
            m,
        ) by {
            if is_match(fps, thr, i, lo) && m == 0 {
                assert(ms[0] == match_at(fps, i, lo));
            } else {
                let m2: int = if is_match(fps, thr, i, lo) {
                    m - 1
                } else {
                    m
                };
                assert(ms[m] == rest[m2]);
                assert(match_entry_sound(fps, thr, i, lo + 1, hi, m2));
                let j = choose|j: int|
                    lo + 1 <= j < hi && #[trigger] is_match(fps, thr, i, j) && matches_in(
                        fps,
                        thr,
                        i,
                        lo + 1,
                        hi,
                    )[m2] == match_at(fps, i, j);
                assert(lo <= j < hi && is_match(fps, thr, i, j) && ms[m] == match_at(fps, i, j));
            }
        }
    }
}

/// Every matching index of a range is recorded in the range's match list.
proof fn lemma_matches_in_complete(fps: Seq<ImageHashV>, thr: int, i: int, lo: int, hi: int)
    ensures
        forall|j: int|
            lo <= j < hi && #[trigger] is_match(fps, thr, i, j) ==> match_recorded(
                fps,
                thr,
                i,
                lo,
                hi,
                j,
            ),
    decreases hi - lo,
{
    if lo < hi {
        lemma_matches_in_complete(fps, thr, i, lo + 1, hi);
        let ms = matches_in(fps, thr, i, lo, hi);
        let rest = matches_in(fps, thr, i, lo + 1, hi);
        let ghost head: Seq<MatchV> = if is_match(fps, thr, i, lo) {
            seq![match_at(fps, i, lo)]
        } else {
            Seq::empty()
        };
        assert forall|j: int| lo <= j < hi && #[trigger] is_match(fps, thr, i, j) implies
            match_recorded(fps, thr, i, lo, hi, j) by {
            if j == lo {
                assert(ms[0] == match_at(fps, i, lo));
            } else {
                assert(match_recorded(fps, thr, i, lo + 1, hi, j));
                let m = choose|m: int|
                    0 <= m < matches_in(fps, thr, i, lo + 1, hi).len() && #[trigger] matches_in(
                        fps,
                        thr,
                        i,
                        lo + 1,
                        hi,
                    )[m] == match_at(fps, i, j);
                assert(ms[head.len() + m] == match_at(fps, i, j));
            }
        }
    }
}

/// The processed set when the scan of a fresh run reaches candidate `i`:
/// everything matched by the scanning candidates before `i`.
pub open spec fn processed_at(fps: Seq<ImageHashV>, thr: int, i: int) -> Set<int>
    decreases i,
{
    if i <= 0 {
        Set::empty()
    } else {
        let p = processed_at(fps, thr, i - 1);
        if i - 1 >= fps.len() || p.contains(i - 1) {
            p
        } else {
            p.union(matched_in(fps, thr, i - 1, i, fps.len() as int))
        }
    }
}

/// Whether candidate `i` scans in a fresh run: it is in range and no earlier
/// scanning candidate matched it.
pub open spec fn is_scanner(fps: Seq<ImageHashV>, thr: int, i: int) -> bool {
    0 <= i < fps.len() && !processed_at(fps, thr, i).contains(i)
}

/// Whether some scanning candidate before `i` matches index `j`.
pub open spec fn matched_before(fps: Seq<ImageHashV>, thr: int, i: int, j: int) -> bool {
    exists|k: int|
        0 <= k < i && #[trigger] is_scanner(fps, thr, k) && k < j < fps.len() && is_match(
            fps,
            thr,
            k,
            j,
        )
}

/// An index is processed when candidate `i` is reached exactly when some
/// scanning candidate before `i` matched it.
pub proof fn lemma_processed_at_members(fps: Seq<ImageHashV>, thr: int, i: int)
    requires
        0 <= i,
    ensures
        forall|j: int|
            #[trigger] processed_at(fps, thr, i).contains(j) <==> matched_before(fps, thr, i, j),
    decreases i,
{
    if i > 0 {
        lemma_processed_at_members(fps, thr, i - 1);
        let p = processed_at(fps, thr, i - 1);
        assert forall|j: int| #[trigger] processed_at(fps, thr, i).contains(j) implies
            matched_before(fps, thr, i, j) by {
            if p.contains(j) {
                let k = choose|k: int|
                    0 <= k < i - 1 && #[trigger] is_scanner(fps, thr, k) && k < j < fps.len()
                        && is_match(fps, thr, k, j);
                assert(0 <= k < i && is_scanner(fps, thr, k) && k < j < fps.len() && is_match(
                    fps,
                    thr,
                    k,
                    j,
                ));
            } else {
                assert(is_scanner(fps, thr, i - 1) && i - 1 < j < fps.len() && is_match(
                    fps,
                    thr,
                    i - 1,
                    j,
                ));
            }
        }
        assert forall|j: int| matched_before(fps, thr, i, j) implies #[trigger] processed_at(
            fps,
            thr,
            i,
        ).contains(j) by {
            let k = choose|k: int|
                0 <= k < i && #[trigger] is_scanner(fps, thr, k) && k < j < fps.len() && is_match(
                    fps,
                    thr,
                    k,
                    j,
                );
            if k < i - 1 {
                assert(matched_before(fps, thr, i - 1, j));
                assert(p.contains(j));
            } else {
                assert(is_scanner(fps, thr, i - 1));
                assert(matched_in(fps, thr, i - 1, i, fps.len() as int).contains(j));
            }
        }
    }
}

/// The paths appearing as a match in some cluster of the list.
pub open spec fn match_path_in(cs: Seq<ClusterV>, p: Seq<char>) -> bool {
    exists|k: int, m: int|
        0 <= k < cs.len() && 0 <= m < cs[k].duplicates.len() && (#[trigger] cs[k].duplicates[m]).path
            == p
}

/// Whether some scanning candidate at position `i` or later matches an image
/// whose path is `p`.
pub open spec fn match_from(fps: Seq<ImageHashV>, thr: int, i: int, p: Seq<char>) -> bool {
    exists|k: int, j: int|
        i <= k && is_scanner(fps, thr, k) && k < j < fps.len() && #[trigger] is_match(
            fps,
            thr,
            k,
            j,
        ) && fps[j].path == p
}

/// In a fresh run, the paths appearing as a match from candidate `i` on are
/// exactly the paths of the images some scanning candidate matches.
proof fn lemma_scan_match_paths(fps: Seq<ImageHashV>, thr: int, i: int)
    requires
        0 <= i,
    ensures
        forall|p: Seq<char>|
            #[trigger] match_path_in(scan_from(fps, thr, i, processed_at(fps, thr, i)), p)
                <==> match_from(fps, thr, i, p),
    decreases fps.len() - i,
{
    let pset = processed_at(fps, thr, i);
    let cs = scan_from(fps, thr, i, pset);
    if i >= fps.len() {
        assert forall|p: Seq<char>| !(#[trigger] match_path_in(cs, p)) by {
            if match_path_in(cs, p) {
                let (k, m) = choose|k: int, m: int|
                    0 <= k < cs.len() && 0 <= m < cs[k].duplicates.len() && (#[trigger] cs[k].duplicates[m]).path
                        == p;
                assert(false);
            }
        }
        assert forall|p: Seq<char>| !match_from(fps, thr, i, p) by {
            if match_from(fps, thr, i, p) {
                let (k, j) = choose|k: int, j: int|
                    i <= k && is_scanner(fps, thr, k) && k < j < fps.len() && #[trigger] is_match(
                        fps,
                        thr,
                        k,
                        j,
                    ) && fps[j].path == p;
                assert(false);
            }
        }
    } else {
        lemma_scan_match_paths(fps, thr, i + 1);
        let n = fps.len() as int;
        let ms = matches_in(fps, thr, i, i + 1, n);
        lemma_matches_in_none(fps, thr, i, i + 1, n);
        lemma_matches_in_sound(fps, thr, i, i + 1, n);
        lemma_matches_in_complete(fps, thr, i, i + 1, n);
        let skipped = pset.contains(i);
        let p2 = if skipped {
            pset
        } else {
            pset.union(matched_in(fps, thr, i, i + 1, n))
        };
        assert(processed_at(fps, thr, i + 1) == p2);
        let rest = scan_from(fps, thr, i + 1, p2);
        assert forall|p: Seq<char>| #[trigger] match_path_in(cs, p) implies match_from(
            fps,
            thr,
            i,
            p,
        ) by {
            let (k, m) = choose|k: int, m: int|
                0 <= k < cs.len() && 0 <= m < cs[k].duplicates.len() && (#[trigger] cs[k].duplicates[m]).path
                    == p;
            if !skipped && ms.len() > 0 {
                assert(cs == seq![cluster_at(fps, i, ms)] + rest);
                if k == 0 {
                    assert(cs[0].duplicates == ms);
                    assert(match_entry_sound(fps, thr, i, i + 1, n, m));
                    let j = choose|j: int|
                        i + 1 <= j < n && #[trigger] is_match(fps, thr, i, j) && matches_in(
                            fps,
                            thr,
                            i,
                            i + 1,
                            n,
                        )[m] == match_at(fps, i, j);
                    assert(is_scanner(fps, thr, i) && i < j < fps.len() && is_match(fps, thr, i, j)
                        && fps[j].path == p);
                } else {
                    assert(cs[k] == rest[k - 1]);
                    assert((rest[k - 1].duplicates[m]).path == p);
                    assert(match_path_in(rest, p));
                    let (k2, j2) = choose|k2: int, j2: int|
                        i + 1 <= k2 && is_scanner(fps, thr, k2) && k2 < j2 < fps.len()
                            && #[trigger] is_match(fps, thr, k2, j2) && fps[j2].path == p;
                    assert(i <= k2);
                }
            } else {
                assert(cs == rest);
                assert(match_path_in(rest, p));
                let (k2, j2) = choose|k2: int, j2: int|
                    i + 1 <= k2 && is_scanner(fps, thr, k2) && k2 < j2 < fps.len()
                        && #[trigger] is_match(fps, thr, k2, j2) && fps[j2].path == p;
                assert(i <= k2);
            }
        }
        assert forall|p: Seq<char>| match_from(fps, thr, i, p) implies #[trigger] match_path_in(
            cs,
            p,
        ) by {
            let (k, j) = choose|k: int, j: int|
                i <= k && is_scanner(fps, thr, k) && k < j < fps.len() && #[trigger] is_match(
                    fps,
                    thr,
                    k,
                    j,
                ) && fps[j].path == p;
            if k == i {
                assert(!skipped);
                assert(match_recorded(fps, thr, i, i + 1, n, j));
                let m = choose|m: int|
                    0 <= m < matches_in(fps, thr, i, i + 1, n).len() && #[trigger] matches_in(
                        fps,
                        thr,
                        i,
                        i + 1,
                        n,
                    )[m] == match_at(fps, i, j);
                assert(ms.len() > 0);
                assert(cs == seq![cluster_at(fps, i, ms)] + rest);
                assert(cs[0].duplicates == ms);
                assert((cs[0].duplicates[m]).path == p);
            } else {
                assert(match_from(fps, thr, i + 1, p));
                assert(match_path_in(rest, p));
                let (k2, m2) = choose|k2: int, m2: int|
                    0 <= k2 < rest.len() && 0 <= m2 < rest[k2].duplicates.len() && (#[trigger] rest[k2].duplicates[m2]).path
                        == p;
                if !skipped && ms.len() > 0 {
                    assert(cs == seq![cluster_at(fps, i, ms)] + rest);
                    assert(cs[k2 + 1] == rest[k2]);
                    assert((cs[k2 + 1].duplicates[m2]).path == p);
                } else {
                    assert(cs == rest);
                    assert((cs[k2].duplicates[m2]).path == p);
                }
            }
        }
    }
}

/// The images appearing as a match in a run are exactly those that some
/// scanning candidate matches.
pub proof fn lemma_match_paths(fps: Seq<ImageHashV>, thr: int)
    ensures
        forall|p: Seq<char>|
            #[trigger] match_path_in(duplicate_clusters(fps, thr), p) <==> match_from(
                fps,
                thr,
                0,
                p,
            ),
{
    lemma_scan_match_paths(fps, thr, 0);
    assert(processed_at(fps, thr, 0) =~= Set::<int>::empty());
}

/// The paths of the clusters' representatives.
pub open spec fn rep_path_in(cs: Seq<ClusterV>, p: Seq<char>) -> bool {
    exists|k: int| 0 <= k < cs.len() && (#[trigger] cs[k]).path == p
}

/// Whether some candidate at position `i` or later scans, matches something,
/// and carries path `p`.
pub open spec fn rep_from(fps: Seq<ImageHashV>, thr: int, i: int, p: Seq<char>) -> bool {
    exists|k: int|
        i <= k < fps.len() && #[trigger] is_scanner(fps, thr, k) && matches_in(
            fps,
            thr,
            k,
            k + 1,
            fps.len() as int,
        ).len() > 0 && fps[k].path == p
}

/// In a fresh run, the representatives from candidate `i` on are exactly the
/// scanning candidates that match something.
proof fn lemma_scan_rep_paths(fps: Seq<ImageHashV>, thr: int, i: int)
    requires
        0 <= i,
    ensures
        forall|p: Seq<char>|
            #[trigger] rep_path_in(scan_from(fps, thr, i, processed_at(fps, thr, i)), p)
                <==> rep_from(fps, thr, i, p),
    decreases fps.len() - i,
{
    let pset = processed_at(fps, thr, i);
    let cs = scan_from(fps, thr, i, pset);
    if i >= fps.len() {
        assert forall|p: Seq<char>| !(#[trigger] rep_path_in(cs, p)) by {
            if rep_path_in(cs, p) {
                let k = choose|k: int| 0 <= k < cs.len() && (#[trigger] cs[k]).path == p;
                assert(false);
            }
        }
        assert forall|p: Seq<char>| !rep_from(fps, thr, i, p) by {
            if rep_from(fps, thr, i, p) {
                let k = choose|k: int|
                    i <= k < fps.len() && #[trigger] is_scanner(fps, thr, k) && matches_in(
                        fps,
                        thr,
                        k,
                        k + 1,
                        fps.len() as int,
                    ).len() > 0 && fps[k].path == p;
                assert(false);
            }
        }
    } else {
        lemma_scan_rep_paths(fps, thr, i + 1);
        let n = fps.len() as int;
        let ms = matches_in(fps, thr, i, i + 1, n);
        let skipped = pset.contains(i);
        let p2 = if skipped {
            pset
        } else {
            pset.union(matched_in(fps, thr, i, i + 1, n))
        };
        assert(processed_at(fps, thr, i + 1) == p2);
        let rest = scan_from(fps, thr, i + 1, p2);
        assert forall|p: Seq<char>| #[trigger] rep_path_in(cs, p) implies rep_from(
            fps,
            thr,
            i,
            p,
        ) by {
            let k = choose|k: int| 0 <= k < cs.len() && (#[trigger] cs[k]).path == p;
            if !skipped && ms.len() > 0 && k == 0 {
                assert(cs == seq![cluster_at(fps, i, ms)] + rest);
                assert(is_scanner(fps, thr, i) && ms.len() > 0 && fps[i].path == p);
            } else {
                if !skipped && ms.len() > 0 {
                    assert(cs == seq![cluster_at(fps, i, ms)] + rest);
                    assert(cs[k] == rest[k - 1]);
                } else {
                    assert(cs == rest);
                }
                assert(rep_path_in(rest, p));
                let k2 = choose|k2: int|
                    i + 1 <= k2 < fps.len() && #[trigger] is_scanner(fps, thr, k2) && matches_in(
                        fps,
                        thr,
                        k2,
                        k2 + 1,
                        n,
                    ).len() > 0 && fps[k2].path == p;
                assert(i <= k2);
            }
        }
        assert forall|p: Seq<char>| rep_from(fps, thr, i, p) implies #[trigger] rep_path_in(
            cs,
            p,
        ) by {
            let k = choose|k: int|
                i <= k < fps.len() && #[trigger] is_scanner(fps, thr, k) && matches_in(
                    fps,
                    thr,
                    k,
                    k + 1,
                    n,
                ).len() > 0 && fps[k].path == p;
            if k == i {
                assert(!skipped && ms.len() > 0);
                assert(cs == seq![cluster_at(fps, i, ms)] + rest);
                assert(cs[0].path == p);
            } else {
                assert(rep_from(fps, thr, i + 1, p));
                assert(rep_path_in(rest, p));
                let k2 = choose|k2: int| 0 <= k2 < rest.len() && (#[trigger] rest[k2]).path == p;
                if !skipped && ms.len() > 0 {
                    assert(cs == seq![cluster_at(fps, i, ms)] + rest);
                    assert(cs[k2 + 1].path == p);
                } else {
                    assert(cs == rest);
                }
            }
        }
    }
}

/// An image matched into some cluster never stands as a representative of the
/// same run, for a corpus of distinct paths: once in the processed set,
/// always skipped.
pub proof fn lemma_matched_never_representative(fps: Seq<ImageHashV>, thr: int)
    requires
        forall|a: int, b: int| 0 <= a < b < fps.len() ==> (#[trigger] fps[a]).path != (#[trigger] fps[b]).path,
    ensures
        forall|p: Seq<char>|
            #[trigger] match_path_in(duplicate_clusters(fps, thr), p) ==> !rep_path_in(
                duplicate_clusters(fps, thr),
                p,
            ),
{
    lemma_match_paths(fps, thr);
    lemma_scan_rep_paths(fps, thr, 0);
    assert(processed_at(fps, thr, 0) =~= Set::<int>::empty());
    assert forall|p: Seq<char>| #[trigger] match_path_in(duplicate_clusters(fps, thr), p) implies
        !rep_path_in(duplicate_clusters(fps, thr), p) by {
        let (k, j) = choose|k: int, j: int|
            0 <= k && is_scanner(fps, thr, k) && k < j < fps.len() && #[trigger] is_match(
                fps,
                thr,
                k,
                j,
            ) && fps[j].path == p;
        if rep_path_in(duplicate_clusters(fps, thr), p) {
            let k2 = choose|k2: int|
                0 <= k2 < fps.len() && #[trigger] is_scanner(fps, thr, k2) && matches_in(
                    fps,
                    thr,
                    k2,
                    k2 + 1,
                    fps.len() as int,
                ).len() > 0 && fps[k2].path == p;
            if k2 < j {
                assert(fps[k2].path != fps[j].path);
            } else if j < k2 {
                assert(fps[j].path != fps[k2].path);
            }
            assert(k2 == j);
            lemma_processed_at_members(fps, thr, j);
            assert(matched_before(fps, thr, j, j));
            assert(processed_at(fps, thr, j).contains(j));
            assert(false);
        }
    }
}

/// Raising the threshold only removes images from the matched set, provided
/// similarity is forward-closed along the scan order: whenever an earlier
/// image matches a middle one at the lower threshold and the middle one
/// matches a later one at the higher threshold, the earlier one matches the
/// later one at the higher threshold too. (Without some such closure the
/// forward scan is not monotone: an image can be matched under the higher
/// threshold only, when the candidate that would have matched it was itself
/// absorbed, at the lower threshold alone, by an earlier image that does not
/// resemble the later one.)
pub proof fn lemma_threshold_monotone(fps: Seq<ImageHashV>, thr1: int, thr2: int)
    requires
        thr1 <= thr2,
        forall|a: int, b: int, c: int|
            0 <= a < b < c < fps.len() && #[trigger] is_match(fps, thr1, a, b)
                && #[trigger] is_match(fps, thr2, b, c) ==> is_match(fps, thr2, a, c),
    ensures
        forall|p: Seq<char>|
            #[trigger] match_path_in(duplicate_clusters(fps, thr2), p) ==> match_path_in(
                duplicate_clusters(fps, thr1),
                p,
            ),
{
    lemma_match_paths(fps, thr1);
    lemma_match_paths(fps, thr2);
    assert forall|p: Seq<char>| #[trigger] match_path_in(duplicate_clusters(fps, thr2), p) implies
        match_path_in(duplicate_clusters(fps, thr1), p) by {
        let (k, j) = choose|k: int, j: int|
            0 <= k && is_scanner(fps, thr2, k) && k < j < fps.len() && #[trigger] is_match(
                fps,
                thr2,
                k,
                j,
            ) && fps[j].path == p;
        assert(is_match(fps, thr1, k, j));
        if is_scanner(fps, thr1, k) {
            assert(match_from(fps, thr1, 0, p));
        } else {
            lemma_processed_at_members(fps, thr1, k);
            assert(processed_at(fps, thr1, k).contains(k));
            let w = choose|w: int|
                0 <= w < k && #[trigger] is_scanner(fps, thr1, w) && w < k < fps.len() && is_match(
                    fps,
                    thr1,
                    w,
                    k,
                );
            assert(is_match(fps, thr2, w, j));
            assert(is_match(fps, thr1, w, j));
            assert(match_from(fps, thr1, 0, p));
        }
    }
}

/// A corpus holding exactly one fingerprint yields no clusters: an image is
/// never reported as a duplicate of itself alone.
pub proof fn lemma_single_image_no_clusters(fps: Seq<ImageHashV>, thr: int)
    requires
        fps.len() == 1,
    ensures
        duplicate_clusters(fps, thr) == Seq::<ClusterV>::empty(),
{
    assert(matches_in(fps, thr, 0, 1, 1) == Seq::<MatchV>::empty());
    assert(scan_from(fps, thr, 1, Set::empty().union(matched_in(fps, thr, 0, 1, 1)))
        == Seq::<ClusterV>::empty());
}

/// Two fingerprints with identical cells form exactly one cluster under any
/// positive threshold: the first-enumerated image is the representative and
/// the second its sole match, scoring at least the threshold.
pub proof fn lemma_identical_pair_one_cluster(fps: Seq<ImageHashV>, thr: int)
    requires
        fps.len() == 2,
        fps[0].hash == fps[1].hash,
        0 < thr <= SIM_DENOM,
    ensures
        duplicate_clusters(fps, thr).len() == 1,
        duplicate_clusters(fps, thr)[0].path == fps[0].path,
        duplicate_clusters(fps, thr)[0].duplicates.len() == 1,
        duplicate_clusters(fps, thr)[0].duplicates[0].path == fps[1].path,
        duplicate_clusters(fps, thr)[0].duplicates[0].similarity >= thr,
{
    crate::imagedupe::lemma_similarity_self(fps[0].hash, fps[1].hash);
    assert(is_match(fps, thr, 0, 1));
    let ms = matches_in(fps, thr, 0, 1, 2);
    assert(matches_in(fps, thr, 0, 2, 2) == Seq::<MatchV>::empty());
    assert(ms =~= seq![match_at(fps, 0, 1)]);
    let p2 = Set::empty().union(matched_in(fps, thr, 0, 1, 2));
    assert(p2.contains(1));
    assert(scan_from(fps, thr, 2, p2) == Seq::<ClusterV>::empty());
    assert(scan_from(fps, thr, 1, p2) == Seq::<ClusterV>::empty());
    assert(duplicate_clusters(fps, thr) == seq![cluster_at(fps, 0, ms)] + Seq::<ClusterV>::empty());
    assert(duplicate_clusters(fps, thr) =~= seq![cluster_at(fps, 0, ms)]);
}

/// Three pairwise-similar fingerprints form exactly one cluster: the
/// first-enumerated image is the representative, the other two are its
/// matches in enumeration order, and neither of them becomes a representative
/// of its own.
pub proof fn lemma_triple_one_cluster(fps: Seq<ImageHashV>, thr: int)
    requires
        fps.len() == 3,
        is_match(fps, thr, 0, 1),
        is_match(fps, thr, 0, 2),
        is_match(fps, thr, 1, 2),
    ensures
        duplicate_clusters(fps, thr).len() == 1,
        duplicate_clusters(fps, thr)[0].path == fps[0].path,
        duplicate_clusters(fps, thr)[0].duplicates == seq![match_at(fps, 0, 1), match_at(fps, 0, 2)],
{
    let ms = matches_in(fps, thr, 0, 1, 3);
    assert(matches_in(fps, thr, 0, 3, 3) == Seq::<MatchV>::empty());
    assert(matches_in(fps, thr, 0, 2, 3) =~= seq![match_at(fps, 0, 2)]);
    assert(ms =~= seq![match_at(fps, 0, 1), match_at(fps, 0, 2)]);
    let p2 = Set::empty().union(matched_in(fps, thr, 0, 1, 3));
    assert(p2.contains(1));
    assert(p2.contains(2));
    assert(scan_from(fps, thr, 3, p2) == Seq::<ClusterV>::empty());
    assert(scan_from(fps, thr, 2, p2) == Seq::<ClusterV>::empty());
    assert(scan_from(fps, thr, 1, p2) == Seq::<ClusterV>::empty());
    assert(duplicate_clusters(fps, thr) == seq![cluster_at(fps, 0, ms)] + Seq::<ClusterV>::empty());
    assert(duplicate_clusters(fps, thr) =~= seq![cluster_at(fps, 0, ms)]);
}

} // verus!
