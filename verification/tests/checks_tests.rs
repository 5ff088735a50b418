use homed::checks::{
    check_executable_extension, check_extension, check_file_size, check_file_type, is_compatible,
    rejection_event, validate_file, ScanRejection,
};
use homed::event::FileEvent;

#[test]
fn test_allowed_extension() {
    let allowed = vec!["mkv".to_string(), "mp4".to_string()];
    assert!(check_extension("movie.mkv", &allowed).is_ok());
    assert!(check_extension("movie.MKV", &allowed).is_ok());
}

#[test]
fn test_blocked_extension() {
    let allowed = vec!["mkv".to_string()];
    let result = check_extension("file.zip", &allowed);
    assert!(matches!(result, Err(ScanRejection::ExtensionBlocked(_))));
}

#[test]
fn test_executable_detected() {
    let result = check_executable_extension("virus.exe");
    assert!(matches!(result, Err(ScanRejection::ExecutableExtension(_))));
}

#[test]
fn test_media_not_executable() {
    assert!(check_executable_extension("movie.mkv").is_ok());
}

#[test]
fn test_executable_as_last_extension() {
    let result = check_executable_extension("movie.mkv.exe");
    assert!(matches!(result, Err(ScanRejection::ExecutableExtension(_))));
}

#[test]
fn test_disguised_executable_passes_extension_check() {
    assert!(check_executable_extension("virus.exe.mkv").is_ok());
}

#[test]
fn test_no_false_positive_on_dotted_filenames() {
    assert!(check_executable_extension("Some.Show.S01E05.episode.title.sh.mkv").is_ok());
}

#[test]
fn test_small_video_rejected() {
    let result = check_file_size("tiny.mkv", 500);
    assert!(matches!(result, Err(ScanRejection::FileTooSmall(500))));
}

#[test]
fn test_normal_video_passes() {
    assert!(check_file_size("movie.mkv", 1_000_000).is_ok());
}

#[test]
fn test_small_subtitle_passes() {
    assert!(check_file_size("subs.srt", 100).is_ok());
}

#[test]
fn test_executable_extension_payload_is_lowered() {
    match check_executable_extension("payload.EXE") {
        Err(ScanRejection::ExecutableExtension(e)) => assert_eq!(e, "exe"),
        other => panic!("expected ExecutableExtension, got {:?}", other),
    }
}

#[test]
fn test_pe_disguised_as_mkv_rejected() {
    let result = check_file_type("fake.mkv", b"MZ\x90\x00fake_pe_content");
    assert!(matches!(result, Err(ScanRejection::TypeMismatch { .. })));
}

#[test]
fn test_elf_disguised_as_mp4_rejected() {
    let mut elf_header = [0u8; 64];
    elf_header[0..4].copy_from_slice(&[0x7F, 0x45, 0x4C, 0x46]);
    elf_header[4] = 0x02;
    elf_header[5] = 0x01;
    elf_header[6] = 0x01;
    let result = check_file_type("fake.mp4", &elf_header);
    assert!(matches!(result, Err(ScanRejection::TypeMismatch { .. })));
}

#[test]
fn test_subtitle_text_passes() {
    let result = check_file_type("subs.srt", b"1\n00:00:01,000 --> 00:00:02,000\nHello");
    assert!(result.is_ok());
}

#[test]
fn test_real_mkv_header_passes() {
    let result = check_file_type("real.mkv", b"\x1a\x45\xdf\xa3matroska");
    assert!(result.is_ok());
}

#[test]
fn test_unrecognized_video_allowed() {
    let result = check_file_type("mystery.mkv", b"not a real video header at all");
    assert!(result.is_ok());
}

#[test]
fn test_binary_subtitle_rejected() {
    let result = check_file_type("bad.srt", &[0xFF, 0xFE, 0x00, 0x80, 0xC0]);
    assert!(matches!(result, Err(ScanRejection::InvalidSubtitleEncoding)));
}

#[test]
fn test_type_mismatch_names_both_extensions() {
    match check_file_type("fake.mkv", b"MZ\x90\x00fake_pe_content") {
        Err(ScanRejection::TypeMismatch { expected, actual }) => {
            assert_eq!(expected, "mkv");
            assert_eq!(actual, "exe");
        }
        other => panic!("expected TypeMismatch, got {:?}", other),
    }
}

#[test]
fn test_is_compatible_alias_groups() {
    assert!(is_compatible("mkv", "webm"));
    assert!(is_compatible("mov", "mp4"));
    assert!(is_compatible("srt", "srt"));
    assert!(!is_compatible("mkv", "mp4"));
    assert!(!is_compatible("jpg", "exe"));
}

#[test]
fn test_validate_file_order_first_rejection_wins() {
    let allowed = vec!["mkv".to_string(), "exe".to_string()];
    // Allow-list rejection comes before the executable block.
    let r = validate_file("movie.zip", 10_000, b"", &allowed, true);
    assert!(matches!(r, Err(ScanRejection::ExtensionBlocked(_))));
    // Executable block comes before the size floor.
    let r = validate_file("tool.exe", 10, b"", &allowed, true);
    assert!(matches!(r, Err(ScanRejection::ExecutableExtension(_))));
    // Size floor comes before the signature sniff.
    let r = validate_file("tiny.mkv", 10, b"MZ\x90\x00fake_pe_content", &allowed, true);
    assert!(matches!(r, Err(ScanRejection::FileTooSmall(10))));
}

#[test]
fn test_validate_file_quarantines_disguised_binary() {
    let allowed = vec!["mkv".to_string()];
    let r = validate_file("fake.mkv", 100_000, b"MZ\x90\x00fake_pe_content", &allowed, true);
    assert!(matches!(r, Err(ScanRejection::TypeMismatch { .. })));
}

#[test]
fn test_rejection_messages() {
    assert_eq!(
        ScanRejection::ExtensionBlocked("zip".to_string()).describe(),
        "extension not allowed: .zip"
    );
    assert_eq!(ScanRejection::FileTooSmall(500).describe(), "video file suspiciously small (500 bytes)");
    assert_eq!(
        ScanRejection::TypeMismatch { expected: "mkv".to_string(), actual: "exe".to_string() }
            .describe(),
        "file type mismatch: expected .mkv, detected .exe"
    );
    assert_eq!(
        ScanRejection::InvalidSubtitleEncoding.describe(),
        "subtitle file is not valid UTF-8"
    );
}

#[test]
fn test_rejection_event_junk_policy() {
    let rejection = ScanRejection::ExtensionBlocked("tmp".to_string());
    // With the junk-deletion policy on, an allow-list rejection is Cleaned.
    match rejection_event("junk.tmp".to_string(), &rejection, true) {
        FileEvent::Cleaned { path, reason } => {
            assert_eq!(path, "junk.tmp");
            assert_eq!(reason, "extension not allowed: .tmp");
        }
        other => panic!("expected Cleaned, got {:?}", other),
    }
    // Without it, the same rejection is a plain failure.
    match rejection_event("junk.tmp".to_string(), &rejection, false) {
        FileEvent::Failed { path, error } => {
            assert_eq!(path, "junk.tmp");
            assert_eq!(error, "extension not allowed: .tmp");
        }
        other => panic!("expected Failed, got {:?}", other),
    }
    // Other rejections never become Cleaned, junk policy or not.
    let mismatch =
        ScanRejection::TypeMismatch { expected: "mkv".to_string(), actual: "exe".to_string() };
    assert!(matches!(
        rejection_event("fake.mkv".to_string(), &mismatch, true),
        FileEvent::Failed { .. }
    ));
}

#[test]
fn test_validate_file_passes_clean_video() {
    let allowed = vec!["mkv".to_string()];
    let r = validate_file("real.mkv", 100_000, b"\x1a\x45\xdf\xa3matroska", &allowed, true);
    assert!(r.is_ok());
}
