//! Tests of the duplicate-detection engine: similarity scoring, cluster
//! building, progress reporting and corpus enumeration.

use lockerz::cluster::{find_duplicate_clusters, DuplicateImage, ImageHash};
use lockerz::imagedupe::{
    collect_image_paths, compute_similarity, find_duplicates, is_image_name, CategoryDir,
    HashedImage, ImageRef, DEFAULT_THRESHOLD, HASH_CELLS, SIM_DENOM,
};
use lockerz::progress::{compare_percent, hash_percent, DupeEvent, ScanPhase};

fn hash_of(byte: u8) -> Vec<u8> {
    vec![byte; HASH_CELLS]
}

fn image(path: &str, category: &str, byte: u8) -> ImageHash {
    ImageHash { path: path.to_string(), category: category.to_string(), hash: hash_of(byte) }
}

fn outcome(path: &str, category: &str, hash: Option<Vec<u8>>) -> HashedImage {
    HashedImage {
        image: ImageRef { path: path.to_string(), category: category.to_string() },
        hash,
    }
}

fn event_percent(e: &DupeEvent) -> u32 {
    match e {
        DupeEvent::Started(p) => p.progress,
        DupeEvent::Progress(p) => p.progress,
        DupeEvent::Finished(p) => p.progress,
    }
}

#[test]
fn similarity_of_identical_fingerprints_is_maximal() {
    let a = hash_of(17);
    let b = hash_of(17);
    assert_eq!(compute_similarity(&a, &b), SIM_DENOM);
}

#[test]
fn similarity_is_symmetric() {
    let mut a = hash_of(10);
    let mut b = hash_of(200);
    a[3] = 250;
    b[60] = 0;
    assert_eq!(compute_similarity(&a, &b), compute_similarity(&b, &a));
}

#[test]
fn similarity_counts_element_wise_differences() {
    let a = hash_of(100);
    let mut b = hash_of(100);
    b[0] = 103;
    b[63] = 90;
    // differences: 3 and 10 over 64 cells
    assert_eq!(compute_similarity(&a, &b), SIM_DENOM - 13);
}

#[test]
fn similarity_of_opposite_fingerprints_is_zero() {
    let a = hash_of(0);
    let b = hash_of(255);
    assert_eq!(compute_similarity(&a, &b), 0);
}

#[test]
fn single_image_yields_no_clusters() {
    let hashes = vec![image("/i/a/1.png", "a", 9)];
    let (clusters, _) = find_duplicate_clusters(&hashes, DEFAULT_THRESHOLD, 1);
    assert!(clusters.is_empty());
}

#[test]
fn identical_pair_yields_one_cluster() {
    let hashes = vec![image("/i/a/1.png", "a", 9), image("/i/b/1.png", "b", 9)];
    let (clusters, _) = find_duplicate_clusters(&hashes, DEFAULT_THRESHOLD, 2);
    assert_eq!(clusters.len(), 1);
    let c: &DuplicateImage = &clusters[0];
    assert_eq!(c.path, "/i/a/1.png");
    assert_eq!(c.category, "a");
    assert_eq!(c.similarity, SIM_DENOM);
    assert_eq!(c.duplicates.len(), 1);
    assert_eq!(c.duplicates[0].path, "/i/b/1.png");
    assert!(c.duplicates[0].similarity >= DEFAULT_THRESHOLD);
}

#[test]
fn triple_of_near_duplicates_forms_one_cluster() {
    // pairwise similar: all cells equal but one, off by at most 2
    let a = image("/i/x/a.png", "x", 50);
    let mut b = image("/i/x/b.png", "x", 50);
    b.hash[0] = 51;
    let mut c = image("/i/x/c.png", "x", 50);
    c.hash[0] = 52;
    let (clusters, _) = find_duplicate_clusters(&vec![a, b, c], DEFAULT_THRESHOLD, 3);
    assert_eq!(clusters.len(), 1);
    assert_eq!(clusters[0].path, "/i/x/a.png");
    assert_eq!(clusters[0].duplicates.len(), 2);
    assert_eq!(clusters[0].duplicates[0].path, "/i/x/b.png");
    assert_eq!(clusters[0].duplicates[1].path, "/i/x/c.png");
}

#[test]
fn dissimilar_images_form_no_cluster() {
    let hashes = vec![image("/i/a/1.png", "a", 0), image("/i/a/2.png", "a", 255)];
    let (clusters, _) = find_duplicate_clusters(&hashes, DEFAULT_THRESHOLD, 2);
    assert!(clusters.is_empty());
}

#[test]
fn matched_images_shrink_as_threshold_rises() {
    // a and b are close; c is close to a only under the laxer threshold
    let a = image("/i/a/a.png", "a", 50);
    let mut b = image("/i/a/b.png", "a", 50);
    b.hash[0] = 51;
    let mut c = image("/i/a/c.png", "a", 50);
    c.hash[0] = 50;
    c.hash[1] = 120;
    let corpus = vec![a, b, c];
    let tight: u32 = SIM_DENOM - 10;
    let lax: u32 = SIM_DENOM - 100;
    let (tight_clusters, _) = find_duplicate_clusters(&corpus, tight, 3);
    let (lax_clusters, _) = find_duplicate_clusters(&corpus, lax, 3);
    let matched = |clusters: &Vec<DuplicateImage>| -> Vec<String> {
        let mut v = Vec::new();
        for c in clusters {
            for m in &c.duplicates {
                v.push(m.path.clone());
            }
        }
        v
    };
    let tight_matched = matched(&tight_clusters);
    let lax_matched = matched(&lax_clusters);
    for p in &tight_matched {
        assert!(lax_matched.contains(p));
    }
    assert_eq!(tight_matched, vec!["/i/a/b.png".to_string()]);
    assert_eq!(
        lax_matched,
        vec!["/i/a/b.png".to_string(), "/i/a/c.png".to_string()]
    );
}

#[test]
fn failed_decodes_abort_nothing_and_join_no_cluster() {
    let outcomes = vec![
        outcome("/i/a/good1.png", "a", Some(hash_of(9))),
        outcome("/i/a/broken.png", "a", None),
        outcome("/i/b/good2.png", "b", Some(hash_of(9))),
    ];
    let (clusters, _) = find_duplicates(&outcomes, None);
    assert_eq!(clusters.len(), 1);
    assert_eq!(clusters[0].path, "/i/a/good1.png");
    assert_eq!(clusters[0].duplicates.len(), 1);
    assert_eq!(clusters[0].duplicates[0].path, "/i/b/good2.png");
    for c in &clusters {
        assert_ne!(c.path, "/i/a/broken.png");
        for m in &c.duplicates {
            assert_ne!(m.path, "/i/a/broken.png");
        }
    }
}

#[test]
fn progress_never_decreases_and_ends_at_100() {
    let mut outcomes = Vec::new();
    for k in 0..25u8 {
        let path = format!("/i/a/img{}.png", k);
        outcomes.push(outcome(&path, "a", Some(hash_of(k))));
    }
    let (_, events) = find_duplicates(&outcomes, Some(SIM_DENOM - 300));
    assert!(events.len() >= 2);
    assert!(matches!(events[0], DupeEvent::Started(_)));
    assert_eq!(event_percent(&events[0]), 0);
    let last = &events[events.len() - 1];
    assert!(matches!(last, DupeEvent::Finished(_)));
    assert_eq!(event_percent(last), 100);
    let mut prev = 0u32;
    for (k, e) in events.iter().enumerate() {
        if k > 0 && k < events.len() - 1 {
            assert!(matches!(e, DupeEvent::Progress(_)));
        }
        let pct = event_percent(e);
        assert!(pct >= prev);
        assert!(pct <= 100);
        prev = pct;
    }
}

#[test]
fn empty_corpus_still_reports_start_and_finish() {
    let (clusters, events) = find_duplicates(&Vec::new(), None);
    assert!(clusters.is_empty());
    assert_eq!(events.len(), 4);
    assert!(matches!(events[0], DupeEvent::Started(_)));
    assert!(matches!(events[3], DupeEvent::Finished(_)));
    assert_eq!(event_percent(&events[3]), 100);
}

#[test]
fn phase_percentages_are_scaled_and_capped() {
    assert_eq!(hash_percent(0, 10), 0);
    assert_eq!(hash_percent(5, 10), 20);
    assert_eq!(hash_percent(10, 10), 40);
    assert_eq!(compare_percent(0, 10), 40);
    assert_eq!(compare_percent(5, 10), 70);
    assert_eq!(compare_percent(10_000, 10), 99);
}

#[test]
fn phase_labels_match_the_interface() {
    assert_eq!(ScanPhase::ComputingHashes.label(), "Computing Hashes");
    assert_eq!(ScanPhase::ComparingImages.label(), "Comparing Images");
    assert_eq!(ScanPhase::Complete.label(), "Complete");
}

#[test]
fn image_extensions_are_recognized() {
    assert!(is_image_name("photo.jpg"));
    assert!(is_image_name("photo.jpeg"));
    assert!(is_image_name("photo.png"));
    assert!(is_image_name("photo.jfif"));
    assert!(is_image_name("photo.webp"));
    assert!(is_image_name("archive.tar.png"));
    assert!(!is_image_name("photo.txt"));
    assert!(!is_image_name("photo.JPG"));
    assert!(!is_image_name(".jpg"));
    assert!(!is_image_name("photo"));
    assert!(!is_image_name("photojpg"));
}

#[test]
fn corpus_enumeration_filters_categories_and_extensions() {
    let listing = vec![
        CategoryDir {
            name: "cats".to_string(),
            is_dir: true,
            files: vec!["a.png".to_string(), "notes.txt".to_string(), "b.jpg".to_string()],
        },
        CategoryDir {
            name: "temp".to_string(),
            is_dir: true,
            files: vec!["c.png".to_string()],
        },
        CategoryDir { name: "readme.md".to_string(), is_dir: false, files: vec![] },
        CategoryDir { name: "dogs".to_string(), is_dir: true, files: vec!["d.webp".to_string()] },
    ];
    let refs = collect_image_paths("/root", &listing);
    let got: Vec<(String, String)> =
        refs.into_iter().map(|r| (r.path, r.category)).collect();
    assert_eq!(
        got,
        vec![
            ("/root/cats/a.png".to_string(), "cats".to_string()),
            ("/root/cats/b.jpg".to_string(), "cats".to_string()),
            ("/root/dogs/d.webp".to_string(), "dogs".to_string()),
        ]
    );
}
