//! The application's configuration document and its store.

use vstd::prelude::*;
use crate::paths::{join_path, joined};
use crate::store::{StoreMachine, StoreOp, StorePaths, load_state, save_state, temp_path_of, backup_path_of, pending};

verus! {

/// Which browser's cookies the downloads use.
#[derive(Debug, Clone, Copy, PartialEq, Eq, Structural)]
pub enum BrowserType {
    NoBrowser,
    Chrome,
    Edge,
    Firefox,
    Brave,
    Opera,
}

/// The application's settings.
#[derive(Debug, PartialEq)]
pub struct AppConfig {
    /// Where downloads are saved.
    pub save_path: String,
    /// The preferred resolution.
    pub default_resolution: String,
    /// Whether to look for tool updates on start.
    pub auto_check_update: bool,
    /// How many downloads may run at once.
    pub concurrent_downloads: u32,
    /// The browser whose cookies downloads use.
    pub youtube_cookie_browser: BrowserType,
}

/// The resolution preferred when the user has chosen none.
pub const DEFAULT_RESOLUTION: &'static str = "1080p";

/// How many downloads may run at once when the user has chosen nothing else.
pub const DEFAULT_CONCURRENT_DOWNLOADS: u32 = 3;

/// Whether `c` holds the default settings, saving to `save_path`.
pub open spec fn is_default_config(c: AppConfig, save_path: Seq<char>) -> bool {
    &&& c.save_path@ == save_path
    &&& c.default_resolution@ == DEFAULT_RESOLUTION@
    &&& c.auto_check_update
    &&& c.concurrent_downloads == DEFAULT_CONCURRENT_DOWNLOADS
    &&& c.youtube_cookie_browser == BrowserType::NoBrowser
}

impl AppConfig {
    /// The default settings, saving to `save_path` (the caller finds the
    /// user's download folder).
    pub fn with_save_path(save_path: String) -> (r: AppConfig)
        ensures
            is_default_config(r, save_path@),
    {
        AppConfig {
            save_path,
            default_resolution: DEFAULT_RESOLUTION.to_owned(),
            auto_check_update: true,
            concurrent_downloads: DEFAULT_CONCURRENT_DOWNLOADS,
            youtube_cookie_browser: BrowserType::NoBrowser,
        }
    }
}

/// The file name of the configuration document.
pub const CONFIG_FILE: &'static str = "config.json";

/// The store of the configuration document in one directory.
pub struct ConfigService {
    config_path: String,
}

impl ConfigService {
    /// The path of the configuration document.
    pub closed spec fn path(&self) -> Seq<char> {
        self.config_path@
    }

    /// The configuration store of directory `config_dir` (which the caller
    /// has created).
    pub fn new(config_dir: &str) -> (r: ConfigService)
        ensures
            r.path() == joined(config_dir@, CONFIG_FILE@),
    {
        ConfigService { config_path: join_path(config_dir, CONFIG_FILE) }
    }

    /// The path of the configuration document.
    pub fn config_path(&self) -> (r: &str)
        ensures
            r@ == self.path(),
    {
        self.config_path.as_str()
    }

    /// The document's path and its temporary and backup siblings.
    pub fn paths(&self) -> (r: StorePaths)
        ensures
            r.canonical@ == self.path(),
            r.temp@ == temp_path_of(self.path()),
            r.backup@ == backup_path_of(self.path()),
    {
        StorePaths::for_document(self.config_path.as_str())
    }

    /// Starts loading the configuration; `default_text` is the encoded
    /// default configuration, stored when there is no usable document.
    pub fn load(&self, default_text: String) -> (r: (StoreMachine, StoreOp))
        ensures
            r.0@ == load_state(
                self.path(),
                temp_path_of(self.path()),
                backup_path_of(self.path()),
                default_text@,
            ),
            r.1@ == pending(r.0@),
    {
        StoreMachine::start_load(&self.paths(), default_text)
    }

    /// Starts saving `text`, the encoded configuration.
    pub fn save(&self, text: String) -> (r: (StoreMachine, StoreOp))
        ensures
            r.0@ == save_state(
                self.path(),
                temp_path_of(self.path()),
                backup_path_of(self.path()),
                text@,
            ),
            r.1@ == pending(r.0@),
    {
        StoreMachine::start_save(&self.paths(), text)
    }
}

} // verus!
