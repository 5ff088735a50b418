use homed::config::{
    AlertsConfig, Config, ConfigError, MediaConfig, MoverConfig, NextcloudConfig,
    OrganizerConfig, PhotosConfig, ScannerConfig, WatcherConfig,
};

fn test_config() -> Config {
    Config {
        photos: PhotosConfig {
            watcher: WatcherConfig {
                paths: vec!["/tmp/photos".to_string()],
                debounce_ms: 5000,
                ignore_extensions: vec![],
            },
            organizer: OrganizerConfig {
                enabled: false,
                photos_dir: String::new(),
                unsorted_dir: None,
                photo_prefix: "IMG".to_string(),
                video_prefix: "VID".to_string(),
                photo_extensions: vec![],
                video_extensions: vec![],
                min_valid_year: 2000,
                file_owner: None,
                file_group: None,
            },
            nextcloud: NextcloudConfig {
                enabled: false,
                container_name: "nextcloud".to_string(),
                username: "admin".to_string(),
                data_dir: String::new(),
                internal_prefix: "/admin/files".to_string(),
            },
        },
        media: MediaConfig {
            watcher: WatcherConfig {
                paths: vec!["/tmp/media".to_string()],
                debounce_ms: 5000,
                ignore_extensions: vec![],
            },
            scanner: ScannerConfig {
                enabled: false,
                quarantine_dir: String::new(),
                allowed_extensions: vec![],
                block_executables: false,
                clamscan_path: "clamscan".to_string(),
            },
            mover: MoverConfig {
                enabled: false,
                source: String::new(),
                destination: String::new(),
            },
        },
        alerts: AlertsConfig {
            enabled: false,
            url: String::new(),
            topic: String::new(),
            token: String::new(),
        },
    }
}

#[test]
fn test_valid_config() {
    assert!(test_config().validate().is_ok());
}

#[test]
fn test_empty_photos_paths_fails() {
    let mut config = test_config();
    config.photos.watcher.paths = vec![];
    assert!(config.validate().is_err());
}

#[test]
fn test_empty_media_paths_fails() {
    let mut config = test_config();
    config.media.watcher.paths = vec![];
    assert!(config.validate().is_err());
}

#[test]
fn test_bad_debounce_fails() {
    let mut config = test_config();
    config.media.watcher.debounce_ms = 50;
    assert!(config.validate().is_err());
}

#[test]
fn test_debounce_bounds_are_inclusive() {
    let mut config = test_config();
    config.media.watcher.debounce_ms = 100;
    assert!(config.validate().is_ok());
    config.media.watcher.debounce_ms = 60000;
    assert!(config.validate().is_ok());
    config.media.watcher.debounce_ms = 60001;
    assert!(config.validate().is_err());
}

#[test]
fn test_validation_error_message_names_section() {
    let mut config = test_config();
    config.media.watcher.debounce_ms = 50;
    match config.validate() {
        Err(ConfigError::ValidationError(m)) => {
            assert_eq!(m, "media.watcher.debounce_ms must be between 100 and 60000, got 50");
        }
        other => panic!("expected ValidationError, got {:?}", other),
    }
    config.media.watcher.paths = vec![];
    config.photos.watcher.paths = vec![];
    match config.validate() {
        Err(ConfigError::ValidationError(m)) => {
            assert_eq!(m, "photos.watcher.paths cannot be empty");
        }
        other => panic!("expected ValidationError, got {:?}", other),
    }
}
