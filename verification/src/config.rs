//! Application configuration: the settings a running instance works under,
//! an explicit store standing for the configuration in force, and the rules
//! for reading and updating settings. File reading, JSON parsing and writing
//! are the caller's concern; the decisions about the values are made here.

use vstd::prelude::*;
use vstd::string::{StrSliceExecFns, StringExecFns};

verus! {

/// The application's settings.
#[allow(non_snake_case)]
pub struct Config {
    pub folderPath: String,
    pub rememberCategory: bool,
    pub lang: String,
    pub imageQuality: u8,
    pub imageWidth: u32,
    pub imageHeight: u32,
}

/// The mathematical content of a `Config`.
pub ghost struct ConfigV {
    pub folder_path: Seq<char>,
    pub remember_category: bool,
    pub lang: Seq<char>,
    pub image_quality: u8,
    pub image_width: u32,
    pub image_height: u32,
}

impl View for Config {
    type V = ConfigV;

    open spec fn view(&self) -> ConfigV {
        ConfigV {
            folder_path: self.folderPath@,
            remember_category: self.rememberCategory,
            lang: self.lang@,
            image_quality: self.imageQuality,
            image_width: self.imageWidth,
            image_height: self.imageHeight,
        }
    }
}

/// The built-in default settings for a user whose home directory is `home`:
/// the collection lives under `Documents/LockerZ`, categories are remembered,
/// the language is English, and display images are served at quality 75 in
/// 960 by 540.
pub open spec fn spec_default_config(home: Seq<char>) -> ConfigV {
    ConfigV {
        folder_path: home + "/"@ + "Documents"@ + "/"@ + "LockerZ"@,
        remember_category: true,
        lang: "en"@,
        image_quality: 75,
        image_width: 960,
        image_height: 540,
    }
}

impl Config {
    /// An owned copy of these settings.
    pub fn duplicate(&self) -> (r: Config)
        ensures
            r@ == self@,
    {
        Config {
            folderPath: self.folderPath.clone(),
            rememberCategory: self.rememberCategory,
            lang: self.lang.clone(),
            imageQuality: self.imageQuality,
            imageWidth: self.imageWidth,
            imageHeight: self.imageHeight,
        }
    }

    /// The built-in defaults, rooted under the user's home directory.
    pub fn default_for_home(home: &str) -> (r: Config)
        ensures
            r@ == spec_default_config(home@),
    {
        let folder = crate::strutil::path_join(
            crate::strutil::path_join(home, "Documents").as_str(),
            "LockerZ",
        );
        proof {
            assert(folder@ =~= home@ + "/"@ + "Documents"@ + "/"@ + "LockerZ"@);
        }
        Config {
            folderPath: folder,
            rememberCategory: true,
            lang: "en".to_owned(),
            imageQuality: 75,
            imageWidth: 960,
            imageHeight: 540,
        }
    }

    /// Where the configuration file lives under the application's main
    /// directory.
    pub fn get_config_path(main_path: &str) -> (r: String)
        ensures
            r@ == main_path@ + "/"@ + "config"@ + "/"@ + "config.json"@,
    {
        let r = crate::strutil::path_join(
            crate::strutil::path_join(main_path, "config").as_str(),
            "config.json",
        );
        proof {
            assert(r@ =~= main_path@ + "/"@ + "config"@ + "/"@ + "config.json"@);
        }
        r
    }

    /// The settings read from the configuration file: the parsed contents
    /// when the file existed and parsed, the fallback otherwise. A missing or
    /// malformed file is not an error; it merely yields the fallback.
    pub fn read_config(parsed: Option<Config>, fallback: Config) -> (r: Config)
        ensures
            r@ == match parsed {
                Some(c) => c@,
                None => fallback@,
            },
    {
        match parsed {
            Some(c) => c,
            None => fallback,
        }
    }
}

/// An update request for the settings: each field present replaces the
/// current value, each absent field leaves it unchanged.
#[allow(non_snake_case)]
pub struct SettingsPatch {
    pub folderPath: Option<String>,
    pub rememberCategory: Option<bool>,
    pub lang: Option<String>,
    pub imageQuality: Option<u8>,
    pub imageWidth: Option<u32>,
    pub imageHeight: Option<u32>,
}

/// Applies an update request to the current settings: every field the patch
/// carries replaces the current value, every other field is kept.
pub fn update_settings(current: Config, patch: SettingsPatch) -> (r: Config)
    ensures
        r@.folder_path == match patch.folderPath {
            Some(p) => p@,
            None => current@.folder_path,
        },
        r@.remember_category == match patch.rememberCategory {
            Some(b) => b,
            None => current@.remember_category,
        },
        r@.lang == match patch.lang {
            Some(l) => l@,
            None => current@.lang,
        },
        r@.image_quality == match patch.imageQuality {
            Some(q) => q,
            None => current@.image_quality,
        },
        r@.image_width == match patch.imageWidth {
            Some(w) => w,
            None => current@.image_width,
        },
        r@.image_height == match patch.imageHeight {
            Some(h) => h,
            None => current@.image_height,
        },
{
    let folderPath = match patch.folderPath {
        Some(p) => p,
        None => current.folderPath,
    };
    let rememberCategory = match patch.rememberCategory {
        Some(b) => b,
        None => current.rememberCategory,
    };
    let lang = match patch.lang {
        Some(l) => l,
        None => current.lang,
    };
    let imageQuality = match patch.imageQuality {
        Some(q) => q,
        None => current.imageQuality,
    };
    let imageWidth = match patch.imageWidth {
        Some(w) => w,
        None => current.imageWidth,
    };
    let imageHeight = match patch.imageHeight {
        Some(h) => h,
        None => current.imageHeight,
    };
    Config { folderPath, rememberCategory, lang, imageQuality, imageWidth, imageHeight }
}

/// The configuration in force in a running instance. An explicit value passed
/// to whoever needs the settings, in place of process-wide mutable state.
pub struct ConfigStore {
    pub config: Config,
}

impl ConfigStore {
    /// A store holding `initial`.
    pub fn new(initial: Config) -> (r: ConfigStore)
        ensures
            r.config@ == initial@,
    {
        ConfigStore { config: initial }
    }

    /// The settings currently in force (for contracts).
    pub open spec fn current(&self) -> ConfigV {
        self.config@
    }
}

/// A copy of the settings currently in force.
pub fn get_config(store: &ConfigStore) -> (r: Config)
    ensures
        r@ == store.current(),
{
    store.config.duplicate()
}

/// Puts a freshly read configuration in force. The caller re-reads the
/// configuration file; the store afterwards holds exactly what was read.
pub fn refresh_config(store: &mut ConfigStore, new_config: Config)
    ensures
        final(store).current() == new_config@,
{
    store.config = new_config;
}

} // verus!
