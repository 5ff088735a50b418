use homed::config::OrganizerConfig;
use homed::event::{FileEvent, MediaType};
use homed::fsmodel::{FailPoint, MemFs};
use homed::organizer::{
    build_target_path, build_unsorted_path, move_safe, plan_unsorted, OrganizerError,
};
use homed::timestamp::Timestamp;

fn organizer_config() -> OrganizerConfig {
    OrganizerConfig {
        enabled: true,
        photos_dir: "/photos".to_string(),
        unsorted_dir: Some("unsorted".to_string()),
        photo_prefix: "IMG".to_string(),
        video_prefix: "VID".to_string(),
        photo_extensions: vec!["jpg".to_string()],
        video_extensions: vec!["mp4".to_string()],
        min_valid_year: 2000,
        file_owner: None,
        file_group: None,
    }
}

fn ts() -> Timestamp {
    Timestamp { year: 2026, month: 2, day: 11, hour: 14, minute: 30, second: 22 }
}

#[test]
fn test_build_target_path_dated_layout() {
    let cfg = organizer_config();
    let path = build_target_path(&cfg, MediaType::Photo, &ts(), "jpg", &vec![]);
    assert_eq!(path, "/photos/2026/2026-02/IMG_20260211_143022.jpg");
}

#[test]
fn test_build_target_path_video_prefix() {
    let cfg = organizer_config();
    let path = build_target_path(&cfg, MediaType::Video, &ts(), "mp4", &vec![]);
    assert_eq!(path, "/photos/2026/2026-02/VID_20260211_143022.mp4");
}

#[test]
fn test_build_target_path_idempotent_without_collision() {
    let cfg = organizer_config();
    let first = build_target_path(&cfg, MediaType::Photo, &ts(), "jpg", &vec![]);
    let second = build_target_path(&cfg, MediaType::Photo, &ts(), "jpg", &vec![]);
    assert_eq!(first, second);
}

#[test]
fn test_build_target_path_picks_smallest_free_suffix() {
    let cfg = organizer_config();
    let occupied = vec![
        "/photos/2026/2026-02/IMG_20260211_143022.jpg".to_string(),
        "/photos/2026/2026-02/IMG_20260211_143022_1.jpg".to_string(),
        "/photos/2026/2026-02/IMG_20260211_143022_3.jpg".to_string(),
    ];
    let path = build_target_path(&cfg, MediaType::Photo, &ts(), "jpg", &occupied);
    assert_eq!(path, "/photos/2026/2026-02/IMG_20260211_143022_2.jpg");
}

#[test]
fn test_second_drop_of_same_filename_gets_suffix_one() {
    let cfg = organizer_config();
    let occupied = vec!["/photos/2026/2026-02/IMG_20260211_143022.jpg".to_string()];
    let path = build_target_path(&cfg, MediaType::Photo, &ts(), "jpg", &occupied);
    assert_eq!(path, "/photos/2026/2026-02/IMG_20260211_143022_1.jpg");
}

#[test]
fn test_build_unsorted_path_no_collision() {
    let result = build_unsorted_path("test", "photo.jpg", &vec![]);
    assert_eq!(result, "test/photo.jpg");
}

#[test]
fn test_build_unsorted_path_with_collision() {
    let occupied = vec!["test/photo.jpg".to_string()];
    let result = build_unsorted_path("test", "photo.jpg", &occupied);
    assert_eq!(result, "test/photo_1.jpg");
}

#[test]
fn test_build_unsorted_path_multiple_collisions() {
    let occupied = vec![
        "test/photo.jpg".to_string(),
        "test/photo_1.jpg".to_string(),
        "test/photo_2.jpg".to_string(),
    ];
    let result = build_unsorted_path("test", "photo.jpg", &occupied);
    assert_eq!(result, "test/photo_3.jpg");
}

#[test]
fn test_build_unsorted_path_no_extension() {
    let occupied = vec!["test/README".to_string()];
    let result = build_unsorted_path("test", "README", &occupied);
    assert_eq!(result, "test/README_1");
}

#[test]
fn test_plan_unsorted_directory_or_failure() {
    let cfg = organizer_config();
    assert_eq!(plan_unsorted(&cfg, "vacation.jpg".to_string()).unwrap(), "/photos/unsorted");
    let mut bare = organizer_config();
    bare.unsorted_dir = None;
    match plan_unsorted(&bare, "vacation.jpg".to_string()) {
        Err(FileEvent::Failed { path, error }) => {
            assert_eq!(path, "vacation.jpg");
            assert_eq!(error, "No valid date and unsorted_dir not configured");
        }
        other => panic!("expected Failed, got {:?}", other),
    }
}

#[test]
fn test_unsorted_destination_for_undated_file() {
    let result = build_unsorted_path("/photos/unsorted", "vacation.jpg", &vec![]);
    assert_eq!(result, "/photos/unsorted/vacation.jpg");
}

fn fs_with_source() -> MemFs {
    let mut fs = MemFs::new();
    fs.write("/hot/in.jpg", vec![1, 2, 3, 4]);
    fs
}

#[test]
fn test_move_safe_rename_on_same_filesystem() {
    let mut fs = fs_with_source();
    let r = move_safe(&mut fs, "/hot/in.jpg", "/hot/out.jpg", true, FailPoint::NoFailure);
    assert!(r.is_ok());
    assert!(!fs.has("/hot/in.jpg"));
    assert_eq!(fs.read("/hot/out.jpg").unwrap(), &vec![1, 2, 3, 4]);
}

#[test]
fn test_move_safe_copy_across_filesystems() {
    let mut fs = fs_with_source();
    let r = move_safe(&mut fs, "/hot/in.jpg", "/cold/out.jpg", false, FailPoint::NoFailure);
    assert!(r.is_ok());
    assert!(!fs.has("/hot/in.jpg"));
    assert_eq!(fs.read("/cold/out.jpg").unwrap(), &vec![1, 2, 3, 4]);
}

#[test]
fn test_move_safe_sync_failure_keeps_source_and_no_destination() {
    let mut fs = fs_with_source();
    let r = move_safe(&mut fs, "/hot/in.jpg", "/cold/out.jpg", false, FailPoint::AtSync);
    assert!(matches!(r, Err(OrganizerError::IoError(_))));
    assert_eq!(fs.read("/hot/in.jpg").unwrap(), &vec![1, 2, 3, 4]);
    assert!(!fs.has("/cold/out.jpg"));
}

#[test]
fn test_move_safe_copy_failure_keeps_source_and_no_destination() {
    let mut fs = fs_with_source();
    let r = move_safe(&mut fs, "/hot/in.jpg", "/cold/out.jpg", false, FailPoint::AtCopy);
    assert!(r.is_err());
    assert_eq!(fs.read("/hot/in.jpg").unwrap(), &vec![1, 2, 3, 4]);
    assert!(!fs.has("/cold/out.jpg"));
}

#[test]
fn test_move_safe_delete_failure_leaves_both_copies() {
    let mut fs = fs_with_source();
    let r = move_safe(&mut fs, "/hot/in.jpg", "/cold/out.jpg", false, FailPoint::AtRemove);
    assert!(r.is_err());
    assert_eq!(fs.read("/hot/in.jpg").unwrap(), &vec![1, 2, 3, 4]);
    assert_eq!(fs.read("/cold/out.jpg").unwrap(), &vec![1, 2, 3, 4]);
}

#[test]
fn test_move_safe_rename_failure_falls_back_to_copy() {
    let mut fs = fs_with_source();
    let r = move_safe(&mut fs, "/hot/in.jpg", "/hot/out.jpg", true, FailPoint::AtRename);
    assert!(r.is_ok());
    assert!(!fs.has("/hot/in.jpg"));
    assert_eq!(fs.read("/hot/out.jpg").unwrap(), &vec![1, 2, 3, 4]);
}
