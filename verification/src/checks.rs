//! Content validation: extension allow-list, executable blocking, a size
//! floor for video containers, and magic-byte type sniffing over a leading
//! byte window. Reading the byte window off disk happens outside this
//! crate; every decision on it is made here.

use vstd::prelude::*;
use crate::decimal::{dec_rep, push_dec};
use crate::event::FileEvent;
use crate::strutil::{
    contains_ignore_case, extension_of, lower_seq, spec_extension, str_eq, to_lowercase,
};
use vstd::string::StringExecFns;

verus! {

/// Why the validator rejected a file.
#[derive(Clone, Debug)]
pub enum ScanRejection {
    /// The extension is not in the configured allow-list.
    ExtensionBlocked(String),
    /// The (final) extension is associated with executables.
    ExecutableExtension(String),
    /// A video container file below the size floor.
    FileTooSmall(u64),
    /// The detected binary signature belongs to another type.
    TypeMismatch { expected: String, actual: String },
    /// No known signature and the extension is unrecognized.
    UnrecognizedType(String),
    /// A subtitle file whose content is not valid UTF-8.
    InvalidSubtitleEncoding,
    /// Reading the file failed outside this crate.
    IoError(String),
}

/// Video container formats subject to the minimum-size heuristic.
pub open spec fn is_video_container_ext(e: Seq<char>) -> bool {
    e == "mkv"@ || e == "mp4"@ || e == "mov"@ || e == "webm"@
}

/// Plain-text subtitle formats.
pub open spec fn is_subtitle_ext(e: Seq<char>) -> bool {
    e == "srt"@ || e == "ass"@
}

/// Extensions associated with executable content.
pub open spec fn is_executable_ext(e: Seq<char>) -> bool {
    ||| e == "exe"@
    ||| e == "bat"@
    ||| e == "cmd"@
    ||| e == "com"@
    ||| e == "sh"@
    ||| e == "bash"@
    ||| e == "zsh"@
    ||| e == "py"@
    ||| e == "pyc"@
    ||| e == "pl"@
    ||| e == "rb"@
    ||| e == "jar"@
    ||| e == "app"@
    ||| e == "run"@
}

/// Whether the (case-insensitive) extension of `path` is in `allowed`.
pub open spec fn spec_ext_allowed(allowed: Seq<String>, path: Seq<char>) -> bool {
    exists|i: int|
        0 <= i < allowed.len() && lower_seq(allowed[i]@) == lower_seq(spec_extension(path))
}

fn is_video_container_exec(e: &str) -> (r: bool)
    ensures
        r == is_video_container_ext(e@),
{
    str_eq(e, "mkv") || str_eq(e, "mp4") || str_eq(e, "mov") || str_eq(e, "webm")
}

fn is_subtitle_exec(e: &str) -> (r: bool)
    ensures
        r == is_subtitle_ext(e@),
{
    str_eq(e, "srt") || str_eq(e, "ass")
}

pub(crate) fn is_executable_ext_exec(e: &str) -> (r: bool)
    ensures
        r == is_executable_ext(e@),
{
    str_eq(e, "exe") || str_eq(e, "bat") || str_eq(e, "cmd") || str_eq(e, "com") || str_eq(
        e,
        "sh",
    ) || str_eq(e, "bash") || str_eq(e, "zsh") || str_eq(e, "py") || str_eq(e, "pyc") || str_eq(
        e,
        "pl",
    ) || str_eq(e, "rb") || str_eq(e, "jar") || str_eq(e, "app") || str_eq(e, "run")
}

/// Accepts `path` iff its extension is in the configured allow-list
/// (ASCII-case-insensitively); a rejection carries the extension as
/// spelled in the path.
pub fn check_extension(path: &str, allowed: &Vec<String>) -> (r: Result<(), ScanRejection>)
    ensures
        match r {
            Ok(()) => spec_ext_allowed(allowed@, path@),
            Err(ScanRejection::ExtensionBlocked(e)) => !spec_ext_allowed(allowed@, path@) && e@
                == spec_extension(path@),
            Err(_) => false,
        },
{
    let ext = extension_of(path);
    if contains_ignore_case(allowed, ext.as_str()) {
        Ok(())
    } else {
        Err(ScanRejection::ExtensionBlocked(ext))
    }
}

/// Rejects `path` iff its final extension is executable-associated,
/// ASCII-case-insensitively. Only the final extension component counts:
/// a blocked type can hide behind a further extension, which is a
/// deliberate, documented limitation of this check.
pub fn check_executable_extension(path: &str) -> (r: Result<(), ScanRejection>)
    ensures
        match r {
            Ok(()) => !is_executable_ext(lower_seq(spec_extension(path@))),
            Err(ScanRejection::ExecutableExtension(e)) => is_executable_ext(
                lower_seq(spec_extension(path@)),
            ) && e@ == lower_seq(spec_extension(path@)),
            Err(_) => false,
        },
{
    let ext = extension_of(path);
    let lowered = to_lowercase(ext.as_str());
    if is_executable_ext_exec(lowered.as_str()) {
        Err(ScanRejection::ExecutableExtension(lowered))
    } else {
        Ok(())
    }
}

/// Rejects `path` iff it claims a video-container extension and `size`
/// is below the fixed floor of 1024 bytes.
pub fn check_file_size(path: &str, size: u64) -> (r: Result<(), ScanRejection>)
    ensures
        match r {
            Ok(()) => !(is_video_container_ext(lower_seq(spec_extension(path@))) && size < 1024),
            Err(ScanRejection::FileTooSmall(s)) => is_video_container_ext(
                lower_seq(spec_extension(path@)),
            ) && size < 1024 && s == size,
            Err(_) => false,
        },
{
    let ext = extension_of(path);
    let lowered = to_lowercase(ext.as_str());
    if is_video_container_exec(lowered.as_str()) && size < 1024 {
        Err(ScanRejection::FileTooSmall(size))
    } else {
        Ok(())
    }
}

/// Alias groups of container formats that legitimately share a binary
/// signature: the matroska family and the MPEG-4 family.
pub open spec fn spec_compatible(claimed: Seq<char>, detected: Seq<char>) -> bool {
    ||| claimed == detected
    ||| ((claimed == "mkv"@ || claimed == "webm"@) && (detected == "mkv"@ || detected == "webm"@))
    ||| ((claimed == "mp4"@ || claimed == "mov"@ || claimed == "m4a"@) && (detected == "mp4"@
        || detected == "mov"@ || detected == "m4a"@))
}

/// Whether a claimed extension and a detected one name the same container
/// family (signature sniffing detects matroska as "webm" and MOV as
/// "mp4").
pub fn is_compatible(claimed: &str, detected: &str) -> (r: bool)
    ensures
        r == spec_compatible(claimed@, detected@),
{
    if str_eq(claimed, detected) {
        return true;
    }
    let c1 = str_eq(claimed, "mkv") || str_eq(claimed, "webm");
    let d1 = str_eq(detected, "mkv") || str_eq(detected, "webm");
    let c2 = str_eq(claimed, "mp4") || str_eq(claimed, "mov") || str_eq(claimed, "m4a");
    let d2 = str_eq(detected, "mp4") || str_eq(detected, "mov") || str_eq(detected, "m4a");
    (c1 && d1) || (c2 && d2)
}

/// The canonical extension of the binary signature detected in a byte
/// window, if any; a pure function of the bytes.
pub uninterp spec fn sniffed_kind(bytes: Seq<u8>) -> Option<Seq<char>>;

/// Relies on infer::get (and infer::Type::extension): binary signature
/// detection over the leading bytes, yielding the detected type's
/// canonical extension; the result depends on the bytes alone.
#[verifier::external_body]
fn sniff_kind(bytes: &[u8]) -> (r: Option<String>)
    ensures
        match r {
            Some(s) => sniffed_kind(bytes@) == Some(s@),
            None => sniffed_kind(bytes@) is None,
        },
{
    match infer::get(bytes) {
        Some(kind) => Some(kind.extension().to_string()),
        None => None,
    }
}

/// Relies on std::str::from_utf8: it accepts exactly the byte sequences
/// that are valid UTF-8.
#[verifier::external_body]
fn utf8_ok(bytes: &[u8]) -> (r: bool)
    ensures
        r == vstd::utf8::valid_utf8(bytes@),
{
    std::str::from_utf8(bytes).is_ok()
}

/// Magic-byte sniff of `head` (the leading byte window of the file at
/// `path`): a detected signature must be compatible with the claimed
/// extension; with no signature, a subtitle file must decode as UTF-8
/// and any other file passes (older formats are not false-flagged).
pub fn check_file_type(path: &str, head: &[u8]) -> (r: Result<(), ScanRejection>)
    ensures
        ({
            let lext = lower_seq(spec_extension(path@));
            match sniffed_kind(head@) {
                Some(k) => if spec_compatible(lext, k) {
                    r is Ok
                } else {
                    r matches Err(ScanRejection::TypeMismatch { expected, actual }) && expected@
                        == lext && actual@ == k
                },
                None => if is_subtitle_ext(lext) {
                    if vstd::utf8::valid_utf8(head@) {
                        r is Ok
                    } else {
                        r matches Err(ScanRejection::InvalidSubtitleEncoding)
                    }
                } else {
                    r is Ok
                },
            }
        }),
{
    let ext = extension_of(path);
    let lowered = to_lowercase(ext.as_str());
    match sniff_kind(head) {
        Some(kind) => {
            if is_compatible(lowered.as_str(), kind.as_str()) {
                Ok(())
            } else {
                Err(ScanRejection::TypeMismatch { expected: lowered, actual: kind })
            }
        },
        None => {
            if is_subtitle_exec(lowered.as_str()) {
                if utf8_ok(head) {
                    Ok(())
                } else {
                    Err(ScanRejection::InvalidSubtitleEncoding)
                }
            } else {
                Ok(())
            }
        },
    }
}

/// The message each rejection is reported with.
pub open spec fn spec_rejection_message(r: ScanRejection) -> Seq<char> {
    match r {
        ScanRejection::ExtensionBlocked(e) => "extension not allowed: ."@ + e@,
        ScanRejection::ExecutableExtension(e) => "executable extension blocked: ."@ + e@,
        ScanRejection::FileTooSmall(n) => "video file suspiciously small ("@ + dec_rep(n as nat)
            + " bytes)"@,
        ScanRejection::TypeMismatch { expected, actual } => "file type mismatch: expected ."@
            + expected@ + ", detected ."@ + actual@,
        ScanRejection::UnrecognizedType(e) => "unrecognized file type for ."@ + e@,
        ScanRejection::InvalidSubtitleEncoding => "subtitle file is not valid UTF-8"@,
        ScanRejection::IoError(m) => "failed to read file: "@ + m@,
    }
}

impl ScanRejection {
    /// This rejection, spelled out for events and logs.
    pub fn describe(&self) -> (r: String)
        ensures
            r@ == spec_rejection_message(*self),
    {
        match self {
            ScanRejection::ExtensionBlocked(e) => {
                let mut s = "extension not allowed: .".to_owned();
                s.append(e.as_str());
                s
            },
            ScanRejection::ExecutableExtension(e) => {
                let mut s = "executable extension blocked: .".to_owned();
                s.append(e.as_str());
                s
            },
            ScanRejection::FileTooSmall(n) => {
                let mut s = "video file suspiciously small (".to_owned();
                push_dec(&mut s, *n);
                s.append(" bytes)");
                s
            },
            ScanRejection::TypeMismatch { expected, actual } => {
                let mut s = "file type mismatch: expected .".to_owned();
                s.append(expected.as_str());
                s.append(", detected .");
                s.append(actual.as_str());
                s
            },
            ScanRejection::UnrecognizedType(e) => {
                let mut s = "unrecognized file type for .".to_owned();
                s.append(e.as_str());
                s
            },
            ScanRejection::InvalidSubtitleEncoding => "subtitle file is not valid UTF-8".to_owned(),
            ScanRejection::IoError(m) => {
                let mut s = "failed to read file: ".to_owned();
                s.append(m.as_str());
                s
            },
        }
    }
}

/// The terminal event for a rejected file. Under the junk-deletion
/// policy an allow-list rejection means the file is deleted and
/// reported as `Cleaned`; every other rejection is reported as
/// `Failed` (the file is preserved in quarantine for inspection).
pub fn rejection_event(path: String, rejection: &ScanRejection, delete_junk: bool) -> (r:
    FileEvent)
    ensures
        ({
            let message = spec_rejection_message(*rejection);
            if delete_junk && rejection matches ScanRejection::ExtensionBlocked(_) {
                r matches FileEvent::Cleaned { path: p, reason } && p@ == path@ && reason@
                    == message
            } else {
                r matches FileEvent::Failed { path: p, error } && p@ == path@ && error@ == message
            }
        }),
{
    let message = rejection.describe();
    if delete_junk && matches!(rejection, ScanRejection::ExtensionBlocked(_)) {
        FileEvent::Cleaned { path, reason: message }
    } else {
        FileEvent::Failed { path, error: message }
    }
}

/// All validator checks in order, first rejection wins: allow-list,
/// executable block (when enabled), video size floor, magic-byte sniff.
pub fn validate_file(
    path: &str,
    size: u64,
    head: &[u8],
    allowed: &Vec<String>,
    block_executables: bool,
) -> (r: Result<(), ScanRejection>)
    ensures
        ({
            let lext = lower_seq(spec_extension(path@));
            if !spec_ext_allowed(allowed@, path@) {
                r matches Err(ScanRejection::ExtensionBlocked(e)) && e@ == spec_extension(path@)
            } else if block_executables && is_executable_ext(lext) {
                r matches Err(ScanRejection::ExecutableExtension(e)) && e@ == lext
            } else if is_video_container_ext(lext) && size < 1024 {
                r matches Err(ScanRejection::FileTooSmall(s)) && s == size
            } else {
                match sniffed_kind(head@) {
                    Some(k) => if spec_compatible(lext, k) {
                        r is Ok
                    } else {
                        r matches Err(ScanRejection::TypeMismatch { expected, actual })
                            && expected@ == lext && actual@ == k
                    },
                    None => if is_subtitle_ext(lext) {
                        if vstd::utf8::valid_utf8(head@) {
                            r is Ok
                        } else {
                            r matches Err(ScanRejection::InvalidSubtitleEncoding)
                        }
                    } else {
                        r is Ok
                    },
                }
            }
        }),
{
    check_extension(path, allowed)?;
    if block_executables {
        check_executable_extension(path)?;
    }
    check_file_size(path, size)?;
    check_file_type(path, head)
}

} // verus!
