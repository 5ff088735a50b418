use homed::config::OrganizerConfig;
use homed::event::{FileEvent, MediaType};
use homed::metadata::{
    classify_media_type, extract_best_datetime, extract_datetime_from_filename, process_detected,
};
use homed::timestamp::Timestamp;

fn organizer_config() -> OrganizerConfig {
    OrganizerConfig {
        enabled: true,
        photos_dir: "/photos".to_string(),
        unsorted_dir: Some("unsorted".to_string()),
        photo_prefix: "IMG".to_string(),
        video_prefix: "VID".to_string(),
        photo_extensions: vec!["jpg".to_string(), "jpeg".to_string(), "png".to_string()],
        video_extensions: vec!["mp4".to_string(), "mov".to_string()],
        min_valid_year: 2000,
        file_owner: None,
        file_group: None,
    }
}

#[test]
fn test_filename_with_full_timestamp() {
    let dt = extract_datetime_from_filename("/photos/IMG_20260211_143022.jpg").unwrap();
    assert_eq!(dt.year, 2026);
    assert_eq!(dt.month, 2);
    assert_eq!(dt.day, 11);
}

#[test]
fn test_filename_with_date_only() {
    let dt = extract_datetime_from_filename("/photos/20260315.jpg").unwrap();
    assert_eq!(dt.year, 2026);
    assert_eq!(dt.month, 3);
    assert_eq!(dt.day, 15);
}

#[test]
fn test_filename_with_prefix_and_timestamp() {
    let dt = extract_datetime_from_filename("/photos/VID_20251225_180000.mp4").unwrap();
    assert_eq!(dt.year, 2025);
    assert_eq!(dt.month, 12);
    assert_eq!(dt.day, 25);
}

#[test]
fn test_filename_no_date_returns_none() {
    assert!(extract_datetime_from_filename("/photos/vacation_photo.jpg").is_none());
}

#[test]
fn test_filename_short_digits_returns_none() {
    assert!(extract_datetime_from_filename("/photos/IMG_123.jpg").is_none());
}

#[test]
fn test_filename_invalid_date_returns_none() {
    assert!(extract_datetime_from_filename("/photos/99999999_999999.jpg").is_none());
}

#[test]
fn test_min_valid_year_rejects_old_dates() {
    let dt = extract_datetime_from_filename("/photos/19700101_000000.jpg").unwrap();
    assert_eq!(dt.year, 1970);
    assert!(dt.year < 2000);
}

#[test]
fn test_min_valid_year_accepts_recent_dates() {
    let dt = extract_datetime_from_filename("/photos/20240615_120000.jpg").unwrap();
    assert!(dt.year >= 2000);
}

#[test]
fn test_filename_digits_beyond_fourteen_use_first_fourteen() {
    let dt = extract_datetime_from_filename("/photos/IMG_20260211_143022_9999.jpg").unwrap();
    assert_eq!(
        dt,
        Timestamp { year: 2026, month: 2, day: 11, hour: 14, minute: 30, second: 22 }
    );
}

#[test]
fn test_filename_leap_day_valid_only_in_leap_years() {
    let dt = extract_datetime_from_filename("/photos/20240229_120000.jpg").unwrap();
    assert_eq!(dt.day, 29);
    assert!(extract_datetime_from_filename("/photos/20230229_120000.jpg").is_none());
}

#[test]
fn test_extract_best_datetime_rejects_pre_2000() {
    let result =
        extract_best_datetime("/photos/19991231_235959.jpg", &[], MediaType::Photo, None, 2000);
    assert!(result.is_none());
}

#[test]
fn test_extract_best_datetime_accepts_post_2000() {
    let result =
        extract_best_datetime("/photos/IMG_20260211_143022.jpg", &[], MediaType::Photo, None, 2000);
    assert!(result.is_some());
    assert_eq!(result.unwrap().year, 2026);
}

#[test]
fn test_extract_best_datetime_no_date_returns_none() {
    let result =
        extract_best_datetime("/photos/random_photo.jpg", &[], MediaType::Photo, None, 2000);
    assert!(result.is_none());
}

/// A minimal JPEG whose EXIF block holds DateTimeOriginal
/// "2026:02:11 14:30:22".
fn exif_jpeg() -> Vec<u8> {
    vec![
        255, 216, 255, 225, 0, 72, 69, 120, 105, 102, 0, 0, 73, 73, 42, 0, 8, 0, 0, 0, 1, 0, 105,
        135, 4, 0, 1, 0, 0, 0, 26, 0, 0, 0, 0, 0, 0, 0, 1, 0, 3, 144, 2, 0, 20, 0, 0, 0, 44, 0, 0,
        0, 0, 0, 0, 0, 50, 48, 50, 54, 58, 48, 50, 58, 49, 49, 32, 49, 52, 58, 51, 48, 58, 50, 50,
        0, 255, 217,
    ]
}

/// A minimal MP4 whose movie header carries a creation time of
/// 2026-02-11 14:30:22 UTC: an ftyp box, a moov box holding the movie
/// header, and a trailing free box of padding.
fn dated_mp4() -> Vec<u8> {
    let mut bytes = vec![
        0, 0, 0, 20, 102, 116, 121, 112, 105, 115, 111, 109, 0, 0, 2, 0, 105, 115, 111, 109, 0, 0,
        0, 116, 109, 111, 111, 118, 0, 0, 0, 108, 109, 118, 104, 100, 0, 0, 0, 0, 229, 178, 66,
        254, 229, 178, 66, 254, 0, 0, 3, 232, 0, 0, 19, 136, 0, 0, 0, 0, 0, 0, 0, 0, 0, 0, 0, 0,
        0, 0, 0, 0, 0, 0, 0, 0, 0, 0, 0, 0, 0, 0, 0, 0, 0, 0, 0, 0, 0, 0, 0, 0, 0, 0, 0, 0, 0, 0,
        0, 0, 0, 0, 0, 0, 0, 0, 0, 0, 0, 0, 0, 0, 0, 0, 0, 0, 0, 0, 0, 0, 0, 0, 0, 0, 0, 0, 0, 2,
    ];
    let free_size: u32 = 8 + 8192;
    bytes.extend_from_slice(&free_size.to_be_bytes());
    bytes.extend_from_slice(b"free");
    bytes.extend_from_slice(&vec![0u8; 8192]);
    bytes
}

#[test]
fn test_embedded_exif_timestamp_beats_filename() {
    // The filename spells 2024; the embedded metadata spells 2026 and wins.
    let result = extract_best_datetime(
        "/photos/IMG_20240101_000000.jpg",
        &exif_jpeg(),
        MediaType::Photo,
        None,
        2000,
    );
    assert_eq!(
        result,
        Some(Timestamp { year: 2026, month: 2, day: 11, hour: 14, minute: 30, second: 22 })
    );
}

#[test]
fn test_embedded_video_timestamp_read_from_container() {
    let result =
        extract_best_datetime("/media/clip.mp4", &dated_mp4(), MediaType::Video, None, 2000);
    assert_eq!(
        result,
        Some(Timestamp { year: 2026, month: 2, day: 11, hour: 14, minute: 30, second: 22 })
    );
}

#[test]
fn test_mtime_fallback_used_last() {
    let mtime = Timestamp { year: 2021, month: 7, day: 4, hour: 8, minute: 0, second: 0 };
    let result =
        extract_best_datetime("/photos/vacation.jpg", &[], MediaType::Photo, Some(mtime), 2000);
    assert_eq!(result, Some(mtime));
    // A pre-minimum mtime is rejected like every other source.
    let old = Timestamp { year: 1970, month: 1, day: 1, hour: 0, minute: 0, second: 0 };
    let result =
        extract_best_datetime("/photos/vacation.jpg", &[], MediaType::Photo, Some(old), 2000);
    assert!(result.is_none());
}

#[test]
fn test_classify_media_type_by_extension() {
    let cfg = organizer_config();
    assert_eq!(classify_media_type("a/pic.JPG", &cfg), Some(MediaType::Photo));
    assert_eq!(classify_media_type("a/clip.mp4", &cfg), Some(MediaType::Video));
    assert_eq!(classify_media_type("a/notes.txt", &cfg), None);
    assert_eq!(classify_media_type("a/README", &cfg), None);
}

#[test]
fn test_process_detected_enriches_dated_photo() {
    let cfg = organizer_config();
    let event = process_detected(&cfg, "IMG_20260211_143022.jpg".to_string(), &[], None);
    match event {
        FileEvent::Enriched { path, media_type, datetime } => {
            assert_eq!(path, "IMG_20260211_143022.jpg");
            assert_eq!(media_type, MediaType::Photo);
            assert_eq!(
                datetime,
                Timestamp { year: 2026, month: 2, day: 11, hour: 14, minute: 30, second: 22 }
            );
        }
        other => panic!("expected Enriched, got {:?}", other),
    }
}

#[test]
fn test_process_detected_unsorted_without_date() {
    let cfg = organizer_config();
    let event = process_detected(&cfg, "vacation.jpg".to_string(), &[], None);
    assert!(matches!(event, FileEvent::Unsorted { media_type: MediaType::Photo, .. }));
}

#[test]
fn test_process_detected_fails_non_media() {
    let cfg = organizer_config();
    let event = process_detected(&cfg, "document.pdf".to_string(), &[], None);
    match event {
        FileEvent::Failed { error, .. } => assert_eq!(error, "Unsupported media type"),
        other => panic!("expected Failed, got {:?}", other),
    }
}
