//! Core library of an image-collection manager: a verified near-duplicate
//! detection engine (perceptual fingerprints, pairwise similarity search,
//! cluster assembly and progress reporting) together with the pure logic of
//! the surrounding modules (configuration, logging, file listings, caching
//! keys and statistics).

pub mod category;
pub mod cluster;
pub mod config;
pub mod db;
pub mod filecache;
pub mod filehandler;
pub mod files;
pub mod imagedupe;
pub mod imgoptimize;
pub mod logger;
pub mod progress;
pub mod stats;
pub mod strutil;
