//! Serving resized images to the interface: the request and result records of
//! a batch, the cache key an optimized rendering is stored under, the
//! freshness rule of the cache, and the text form a rendering is served in.
//! Decoding, resizing and re-encoding the pixels are the caller's concern.

use vstd::prelude::*;
use vstd::string::StringExecFns;
use base64::Engine;
use crate::strutil::{i32_to_string, spec_i32_string};

verus! {

/// How long a cached rendering stays fresh, in seconds.
pub const CACHE_TTL_SECS: u64 = 3600;

/// Default target width of a rendering.
pub const DEFAULT_WIDTH: i32 = 1280;

/// Default target height of a rendering.
pub const DEFAULT_HEIGHT: i32 = 720;

/// Default encoding quality of a rendering.
pub const DEFAULT_QUALITY: i32 = 90;

/// A request to optimize several images at once.
pub struct BatchRequest {
    pub paths: Vec<String>,
    pub width: Option<i32>,
    pub height: Option<i32>,
    pub quality: Option<i32>,
}

/// The outcome for one image of a batch: its rendering, or the failure that
/// kept it from being rendered.
pub struct BatchResult {
    pub path: String,
    pub data: Option<String>,
    pub error: Option<String>,
}

/// One cached rendering: its text form and when it was rendered.
pub struct CachedImage {
    pub data: String,
    pub timestamp: u64,
}

/// The key a rendering is cached under: the source path and the three
/// rendering parameters, colon-separated.
pub open spec fn spec_cache_key(src: Seq<char>, width: int, height: int, quality: int) -> Seq<
    char,
> {
    src + ":"@ + spec_i32_string(width) + ":"@ + spec_i32_string(height) + ":"@ + spec_i32_string(
        quality,
    )
}

/// Builds the cache key of a rendering.
pub fn make_cache_key(src: &str, width: i32, height: i32, quality: i32) -> (r: String)
    ensures
        r@ == spec_cache_key(src@, width as int, height as int, quality as int),
{
    let mut r = src.to_owned();
    r.append(":");
    r.append(i32_to_string(width).as_str());
    r.append(":");
    r.append(i32_to_string(height).as_str());
    r.append(":");
    r.append(i32_to_string(quality).as_str());
    proof {
        assert(r@ =~= spec_cache_key(src@, width as int, height as int, quality as int));
    }
    r
}

/// The cache key of an optimize request, with the defaults filled in for
/// missing parameters.
pub fn optimize_cache_key(
    src: &str,
    width: Option<i32>,
    height: Option<i32>,
    quality: Option<i32>,
) -> (r: String)
    ensures
        r@ == spec_cache_key(
            src@,
            match width {
                Some(w) => w as int,
                None => DEFAULT_WIDTH as int,
            },
            match height {
                Some(h) => h as int,
                None => DEFAULT_HEIGHT as int,
            },
            match quality {
                Some(q) => q as int,
                None => DEFAULT_QUALITY as int,
            },
        ),
{
    let w = match width {
        Some(w) => w,
        None => DEFAULT_WIDTH,
    };
    let h = match height {
        Some(h) => h,
        None => DEFAULT_HEIGHT,
    };
    let q = match quality {
        Some(q) => q,
        None => DEFAULT_QUALITY,
    };
    make_cache_key(src, w, h, q)
}

/// Whether a rendering cached at `cached_at` is still fresh at `now`: younger
/// than the time-to-live.
pub fn is_cache_fresh(now: u64, cached_at: u64) -> (r: bool)
    requires
        cached_at <= now,
    ensures
        r == (now - cached_at < CACHE_TTL_SECS),
{
    now - cached_at < CACHE_TTL_SECS
}

/// The text that names what an input encodes to.
pub uninterp spec fn base64_of(bytes: Seq<u8>) -> Seq<char>;

/// Relies on base64's `STANDARD` engine: the encoding is a function of the
/// bytes alone, and the padded alphabet emits four characters for every three
/// bytes begun.
#[verifier::external_body]
fn base64_encode(data: &Vec<u8>) -> (r: String)
    requires
        data@.len() < 0x4000000000000000,
    ensures
        r@ == base64_of(data@),
        r@.len() == 4 * ((data@.len() + 2) / 3),
{
    base64::engine::general_purpose::STANDARD.encode(data)
}

/// Wraps a freshly encoded rendering for the cache: its text form and the
/// moment it was rendered.
pub fn prepare_cached_image(data: &Vec<u8>, timestamp: u64) -> (r: CachedImage)
    requires
        data@.len() < 0x4000000000000000,
    ensures
        r.data@ == base64_of(data@),
        r.timestamp == timestamp,
{
    CachedImage { data: base64_encode(data), timestamp }
}

} // verus!
