//! The validated configuration surface of the daemon. Reading and
//! deserialising the configuration file happens outside this crate; what
//! arrives here is a plain struct, and `Config::validate` decides exactly
//! which of those structs the pipeline accepts.

use vstd::prelude::*;
use crate::decimal::dec_rep;
use crate::decimal::push_dec;
use vstd::string::StringExecFns;

verus! {

#[derive(Clone, Debug)]
pub enum ConfigError {
    ReadError(String),
    ParseError(String),
    ValidationError(String),
}

#[derive(Clone, Debug)]
pub struct WatcherConfig {
    pub paths: Vec<String>,
    pub debounce_ms: u64,
    pub ignore_extensions: Vec<String>,
}

#[derive(Clone, Debug)]
pub struct ScannerConfig {
    pub enabled: bool,
    pub quarantine_dir: String,
    pub allowed_extensions: Vec<String>,
    pub block_executables: bool,
    pub clamscan_path: String,
}

#[derive(Clone, Debug)]
pub struct OrganizerConfig {
    pub enabled: bool,
    pub photos_dir: String,
    pub unsorted_dir: Option<String>,
    pub photo_prefix: String,
    pub video_prefix: String,
    pub photo_extensions: Vec<String>,
    pub video_extensions: Vec<String>,
    pub min_valid_year: u32,
    pub file_owner: Option<String>,
    pub file_group: Option<String>,
}

#[derive(Clone, Debug)]
pub struct NextcloudConfig {
    pub enabled: bool,
    pub container_name: String,
    pub username: String,
    pub data_dir: String,
    pub internal_prefix: String,
}

#[derive(Clone, Debug)]
pub struct MoverConfig {
    pub enabled: bool,
    pub source: String,
    pub destination: String,
}

#[derive(Clone, Debug)]
pub struct AlertsConfig {
    pub enabled: bool,
    pub url: String,
    pub topic: String,
    pub token: String,
}

#[derive(Clone, Debug)]
pub struct PhotosConfig {
    pub watcher: WatcherConfig,
    pub organizer: OrganizerConfig,
    pub nextcloud: NextcloudConfig,
}

#[derive(Clone, Debug)]
pub struct MediaConfig {
    pub watcher: WatcherConfig,
    pub scanner: ScannerConfig,
    pub mover: MoverConfig,
}

#[derive(Clone, Debug)]
pub struct Config {
    pub photos: PhotosConfig,
    pub media: MediaConfig,
    pub alerts: AlertsConfig,
}

/// A watcher section is acceptable iff it names at least one path and
/// its debounce interval lies within [100, 60000] milliseconds.
pub open spec fn watcher_acceptable(w: WatcherConfig) -> bool {
    w.paths@.len() > 0 && 100 <= w.debounce_ms <= 60000
}

/// The message reported for an empty path list.
pub open spec fn spec_paths_error(name: Seq<char>) -> Seq<char> {
    name + ".watcher.paths cannot be empty"@
}

/// The message reported for an out-of-range debounce interval.
pub open spec fn spec_debounce_error(name: Seq<char>, debounce_ms: u64) -> Seq<char> {
    name + ".watcher.debounce_ms must be between 100 and 60000, got "@ + dec_rep(
        debounce_ms as nat,
    )
}

impl Config {
    /// Accepts the watcher section `watcher` (reported under `name`) iff
    /// `watcher_acceptable` holds of it, with the empty-path complaint
    /// taking precedence.
    pub fn validate_watcher(watcher: &WatcherConfig, name: &str) -> (r: Result<(), ConfigError>)
        ensures
            match r {
                Ok(()) => watcher_acceptable(*watcher),
                Err(ConfigError::ValidationError(m)) => if watcher.paths@.len() == 0 {
                    m@ == spec_paths_error(name@)
                } else {
                    !(100 <= watcher.debounce_ms <= 60000) && m@ == spec_debounce_error(
                        name@,
                        watcher.debounce_ms,
                    )
                },
                Err(_) => false,
            },
    {
        if watcher.paths.len() == 0 {
            let mut m = name.to_owned();
            m.append(".watcher.paths cannot be empty");
            return Err(ConfigError::ValidationError(m));
        }
        if watcher.debounce_ms < 100 || watcher.debounce_ms > 60000 {
            let mut m = name.to_owned();
            m.append(".watcher.debounce_ms must be between 100 and 60000, got ");
            push_dec(&mut m, watcher.debounce_ms);
            return Err(ConfigError::ValidationError(m));
        }
        Ok(())
    }

    /// Accepts a configuration iff both pipelines' watcher sections are
    /// acceptable; the photos section is checked first.
    pub fn validate(&self) -> (r: Result<(), ConfigError>)
        ensures
            r is Ok <==> watcher_acceptable(self.photos.watcher) && watcher_acceptable(
                self.media.watcher,
            ),
            match r {
                Ok(()) => true,
                Err(ConfigError::ValidationError(m)) => if !watcher_acceptable(
                    self.photos.watcher,
                ) {
                    if self.photos.watcher.paths@.len() == 0 {
                        m@ == spec_paths_error("photos"@)
                    } else {
                        m@ == spec_debounce_error("photos"@, self.photos.watcher.debounce_ms)
                    }
                } else {
                    if self.media.watcher.paths@.len() == 0 {
                        m@ == spec_paths_error("media"@)
                    } else {
                        m@ == spec_debounce_error("media"@, self.media.watcher.debounce_ms)
                    }
                },
                Err(_) => false,
            },
    {
        Self::validate_watcher(&self.photos.watcher, "photos")?;
        Self::validate_watcher(&self.media.watcher, "media")?;
        Ok(())
    }
}

} // verus!
