//! Tests of the modules around the engine: configuration, logging, cache
//! naming, listings, statistics, catalog text and image-serving helpers.

use lockerz::category::{select_category_dirs, DirEntryInfo};
use lockerz::config::{
    get_config, refresh_config, update_settings, Config, ConfigStore, SettingsPatch,
};
use lockerz::db::sql_placeholders;
use lockerz::filecache::{FileCache, FileInfo};
use lockerz::filehandler::{effective_category, target_file_path, upload_percent};
use lockerz::files::{cache_has_file, contains_name, files_to_remove, paginate_files};
use lockerz::imgoptimize::{
    is_cache_fresh, make_cache_key, optimize_cache_key, prepare_cached_image,
};
use lockerz::logger::{logs_to_delete, Logger, MAX_LOG_FILES};
use lockerz::stats::{build_stats, count_categories, sum_file_sizes};
use lockerz::strutil::{i32_to_string, path_join, str_ends_with, str_eq, u64_to_string};

fn file_info(name: &str, category: &str) -> FileInfo {
    FileInfo {
        name: name.to_string(),
        category: category.to_string(),
        filepath: format!("/root/{}/{}", category, name),
        size: 10,
        last_modified: "2024-01-01 00:00:00".to_string(),
        created_at: "2024-01-01 00:00:00".to_string(),
        root_path: "/root".to_string(),
        tags: None,
    }
}

fn entry(name: &str, is_dir: bool) -> DirEntryInfo {
    DirEntryInfo { name: name.to_string(), is_dir }
}

#[test]
fn string_helpers_behave() {
    assert!(str_eq("abc", "abc"));
    assert!(!str_eq("abc", "abd"));
    assert!(!str_eq("abc", "ab"));
    assert!(str_ends_with("picture.png", ".png"));
    assert!(!str_ends_with("picture.png", ".jpg"));
    assert!(!str_ends_with("ng", ".png"));
    assert_eq!(path_join("/root", "cats"), "/root/cats");
}

#[test]
fn numbers_render_in_decimal() {
    assert_eq!(u64_to_string(0), "0");
    assert_eq!(u64_to_string(7), "7");
    assert_eq!(u64_to_string(1234), "1234");
    assert_eq!(u64_to_string(1000), "1000");
    assert_eq!(i32_to_string(0), "0");
    assert_eq!(i32_to_string(960), "960");
    assert_eq!(i32_to_string(-56), "-56");
}

#[test]
fn default_config_lives_under_home() {
    let c = Config::default_for_home("/home/someone");
    assert_eq!(c.folderPath, "/home/someone/Documents/LockerZ");
    assert!(c.rememberCategory);
    assert_eq!(c.lang, "en");
    assert_eq!(c.imageQuality, 75);
    assert_eq!(c.imageWidth, 960);
    assert_eq!(c.imageHeight, 540);
}

#[test]
fn config_path_is_fixed_under_main_dir() {
    assert_eq!(Config::get_config_path("/app"), "/app/config/config.json");
}

#[test]
fn read_config_falls_back_to_defaults() {
    let fallback = Config::default_for_home("/home/someone");
    let read = Config::read_config(None, fallback.duplicate());
    assert_eq!(read.folderPath, fallback.folderPath);
    let parsed = Config {
        folderPath: "/data".to_string(),
        rememberCategory: false,
        lang: "de".to_string(),
        imageQuality: 50,
        imageWidth: 100,
        imageHeight: 100,
    };
    let read = Config::read_config(Some(parsed), fallback);
    assert_eq!(read.folderPath, "/data");
    assert_eq!(read.lang, "de");
}

#[test]
fn settings_patch_updates_only_present_fields() {
    let current = Config::default_for_home("/home/someone");
    let patch = SettingsPatch {
        folderPath: Some("/new/collection".to_string()),
        rememberCategory: None,
        lang: None,
        imageQuality: Some(90),
        imageWidth: None,
        imageHeight: Some(1080),
    };
    let updated = update_settings(current, patch);
    assert_eq!(updated.folderPath, "/new/collection");
    assert!(updated.rememberCategory);
    assert_eq!(updated.lang, "en");
    assert_eq!(updated.imageQuality, 90);
    assert_eq!(updated.imageWidth, 960);
    assert_eq!(updated.imageHeight, 1080);
}

#[test]
fn config_store_serves_and_refreshes() {
    let mut store = ConfigStore::new(Config::default_for_home("/home/someone"));
    let seen = get_config(&store);
    assert_eq!(seen.folderPath, "/home/someone/Documents/LockerZ");
    let fresh = Config {
        folderPath: "/elsewhere".to_string(),
        rememberCategory: false,
        lang: "fr".to_string(),
        imageQuality: 60,
        imageWidth: 640,
        imageHeight: 480,
    };
    refresh_config(&mut store, fresh);
    assert_eq!(get_config(&store).folderPath, "/elsewhere");
    assert_eq!(get_config(&store).lang, "fr");
}

#[test]
fn logger_lays_out_paths_and_lines() {
    let logger = Logger::new("/app", "2024-01-02T03-04-05Z".to_string());
    assert_eq!(logger.log_dir, "/app/log/logs");
    assert_eq!(logger.latest_log_file, "/app/log/logs/latest.log");
    assert_eq!(logger.max_log_files, MAX_LOG_FILES);
    assert_eq!(
        logger.info("2024-01-02 03:04:05", "Application started"),
        "[INFO] 2024-01-02 03:04:05: Application started\n"
    );
    assert_eq!(
        logger.error("2024-01-02 03:04:05", "boom"),
        "[ERROR] 2024-01-02 03:04:05: boom\n"
    );
    assert_eq!(
        logger.warn("t", "w"),
        "[WARN] t: w\n"
    );
    assert_eq!(logger.debug("t", "d"), "[DEBUG] t: d\n");
    assert_eq!(logger.pre("t", "p"), "[PRE] t: p\n");
    assert_eq!(
        logger.archive_file_name("2024-01-02_03-04-05"),
        "log_2024-01-02_03-04-05.log"
    );
}

#[test]
fn log_retention_keeps_the_newest() {
    let files: Vec<String> = (0..5).map(|k| format!("log_{}.log", k)).collect();
    assert!(logs_to_delete(&files, 5).is_empty());
    assert!(logs_to_delete(&files, 7).is_empty());
    let doomed = logs_to_delete(&files, 3);
    assert_eq!(doomed, vec!["log_3.log".to_string(), "log_4.log".to_string()]);
}

#[test]
fn cache_names_are_digests_of_root_and_category() {
    let hash = FileCache::hash_directory_path("/photos", "cats");
    assert_eq!(hash.len(), 64);
    assert_eq!(
        hash,
        "4c5485a4596306d7ccabe3d06ec556d8d96552d29b41c7acc378aa6162a2f8c4"
    );
    assert_eq!(
        FileCache::cache_file_name("/photos", "cats"),
        "4c5485a4596306d7ccabe3d06ec556d8d96552d29b41c7acc378aa6162a2f8c4_files.bin"
    );
    assert_ne!(
        FileCache::hash_directory_path("/photos", "dogs"),
        FileCache::hash_directory_path("/photos", "cats")
    );
}

#[test]
fn cache_removal_drops_the_first_bearer_of_the_name() {
    let mut cache = vec![
        file_info("a.png", "cats"),
        file_info("b.png", "cats"),
        file_info("a.png", "dogs"),
    ];
    FileCache::remove_file_from_cache(&mut cache, "a.png");
    assert_eq!(cache.len(), 2);
    assert_eq!(cache[0].name, "b.png");
    assert_eq!(cache[1].name, "a.png");
    assert_eq!(cache[1].category, "dogs");
    FileCache::remove_file_from_cache(&mut cache, "missing.png");
    assert_eq!(cache.len(), 2);
}

#[test]
fn pagination_slices_by_page_and_limit() {
    let files: Vec<FileInfo> = (0..7).map(|k| file_info(&format!("{}.png", k), "cats")).collect();
    let all = paginate_files(files, 1, Some(-1));
    assert_eq!(all.total_files, 7);
    assert_eq!(all.total_pages, 1);
    assert_eq!(all.current_page, 1);
    assert_eq!(all.files.len(), 7);

    let files: Vec<FileInfo> = (0..7).map(|k| file_info(&format!("{}.png", k), "cats")).collect();
    let page2 = paginate_files(files, 2, Some(3));
    assert_eq!(page2.total_pages, 3);
    assert_eq!(page2.files.len(), 3);
    assert_eq!(page2.files[0].name, "3.png");
    assert_eq!(page2.files[2].name, "5.png");

    let files: Vec<FileInfo> = (0..7).map(|k| file_info(&format!("{}.png", k), "cats")).collect();
    let page3 = paginate_files(files, 3, Some(3));
    assert_eq!(page3.files.len(), 1);
    assert_eq!(page3.files[0].name, "6.png");

    let files: Vec<FileInfo> = (0..7).map(|k| file_info(&format!("{}.png", k), "cats")).collect();
    let past = paginate_files(files, 9, Some(3));
    assert!(past.files.is_empty());
    assert_eq!(past.total_files, 7);

    let none = paginate_files(Vec::new(), 1, Some(5));
    assert_eq!(none.total_pages, 0);
    assert!(none.files.is_empty());
}

#[test]
fn stale_cache_entries_are_found() {
    let cached = vec![
        file_info("a.png", "cats"),
        file_info("gone.png", "cats"),
        file_info("other.png", "dogs"),
    ];
    let actual = vec!["a.png".to_string(), "new.png".to_string()];
    assert!(contains_name(&actual, "a.png"));
    assert!(!contains_name(&actual, "gone.png"));
    let stale = files_to_remove(&cached, &actual, "cats");
    assert_eq!(stale, vec!["gone.png".to_string()]);
    assert!(cache_has_file(&cached, "a.png", "cats"));
    assert!(!cache_has_file(&cached, "a.png", "dogs"));
}

#[test]
fn stats_sum_sizes_and_count_categories() {
    let sizes = vec![10u64, 20, 30];
    assert_eq!(sum_file_sizes(&sizes), 60);
    let entries = vec![
        entry("cats", true),
        entry("temp", true),
        entry("stray.png", false),
        entry("dogs", true),
    ];
    assert_eq!(count_categories(&entries), 2);
    let stats = build_stats(&sizes, &entries);
    assert_eq!(stats.total_images, 3);
    assert_eq!(stats.storage_used, 60);
    assert_eq!(stats.categories, 2);
}

#[test]
fn category_selection_skips_temp_and_files() {
    let entries = vec![
        entry("cats", true),
        entry("temp", true),
        entry("stray.png", false),
        entry("dogs", true),
    ];
    assert_eq!(
        select_category_dirs(&entries),
        vec!["cats".to_string(), "dogs".to_string()]
    );
}

#[test]
fn sql_placeholders_join_question_marks() {
    assert_eq!(sql_placeholders(0), "");
    assert_eq!(sql_placeholders(1), "?");
    assert_eq!(sql_placeholders(3), "?,?,?");
}

#[test]
fn optimize_cache_keys_name_the_rendering() {
    assert_eq!(make_cache_key("/p/a.png", 640, 360, 80), "/p/a.png:640:360:80");
    assert_eq!(
        optimize_cache_key("/p/a.png", None, None, None),
        "/p/a.png:1280:720:90"
    );
    assert_eq!(
        optimize_cache_key("/p/a.png", Some(320), None, Some(50)),
        "/p/a.png:320:720:50"
    );
}

#[test]
fn cache_freshness_expires_after_an_hour() {
    assert!(is_cache_fresh(5000, 5000));
    assert!(is_cache_fresh(5000, 1500));
    assert!(!is_cache_fresh(5000, 1400));
    assert!(!is_cache_fresh(5000, 0));
}

#[test]
fn renderings_are_served_in_text_form() {
    let cached = prepare_cached_image(&b"hello".to_vec(), 42);
    assert_eq!(cached.data, "aGVsbG8=");
    assert_eq!(cached.timestamp, 42);
    let empty = prepare_cached_image(&Vec::new(), 7);
    assert_eq!(empty.data, "");
}

#[test]
fn file_moves_use_the_holding_category_by_default() {
    assert_eq!(effective_category(None), "uncategorized");
    assert_eq!(effective_category(Some("cats".to_string())), "cats");
    assert_eq!(
        target_file_path("/root", "cats", "a.png"),
        "/root/cats/a.png"
    );
}

#[test]
fn upload_progress_is_capped_at_100() {
    assert_eq!(upload_percent(0, 200), 0);
    assert_eq!(upload_percent(50, 200), 25);
    assert_eq!(upload_percent(200, 200), 100);
    assert_eq!(upload_percent(300, 200), 100);
}
