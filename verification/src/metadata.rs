//! Media classification and best-effort capture-timestamp extraction.
//! Embedded metadata decoding is a black box from bytes to an optional
//! timestamp; everything around it — the strict source priority, the
//! filename pattern, the minimum-year filter — is decided here.

use vstd::prelude::*;
use chrono::{Datelike, Offset, TimeZone, Timelike};
use crate::config::OrganizerConfig;
use crate::decimal::{digits_of, digits_of_exec, lemma_digits_of_are_digits};
use crate::event::{FileEvent, MediaType};
use crate::strutil::{contains_ignore_case, extension_of, lower_seq, spec_extension,
    spec_has_extension, spec_stem, stem_of};
use crate::timestamp::{spec_timestamp_from_digits, timestamp_from_digits, Timestamp};

verus! {

/// Failure of the metadata stage as a whole. Per-file problems never
/// stop the stage (they become `Failed` or `Unsorted` events); the only
/// stage-fatal condition is losing the channel it reports into.
#[derive(Clone, Copy, Debug)]
pub enum MetadataError {
    ChannelClosed,
}

/// Classification of a path against the configured photo and video
/// extension sets: a file without an extension matches neither, the
/// photo set is consulted first, and comparison ignores ASCII case.
pub open spec fn spec_classify(
    path: Seq<char>,
    photo_exts: Seq<String>,
    video_exts: Seq<String>,
) -> Option<MediaType> {
    if !spec_has_extension(path) {
        None
    } else if exists|i: int|
        0 <= i < photo_exts.len() && lower_seq(photo_exts[i]@) == lower_seq(spec_extension(path)) {
        Some(MediaType::Photo)
    } else if exists|i: int|
        0 <= i < video_exts.len() && lower_seq(video_exts[i]@) == lower_seq(spec_extension(path)) {
        Some(MediaType::Video)
    } else {
        None
    }
}

/// Classify `path` as photo or video by its extension, as
/// `spec_classify` describes.
pub fn classify_media_type(path: &str, config: &OrganizerConfig) -> (r: Option<MediaType>)
    ensures
        r == spec_classify(path@, config.photo_extensions@, config.video_extensions@),
{
    let has_ext = {
        let name = crate::strutil::file_name_of(path);
        match crate::strutil::find_last(name.as_str(), '.') {
            Some(d) => d > 0,
            None => false,
        }
    };
    if !has_ext {
        return None;
    }
    let ext = extension_of(path);
    if contains_ignore_case(&config.photo_extensions, ext.as_str()) {
        Some(MediaType::Photo)
    } else if contains_ignore_case(&config.video_extensions, ext.as_str()) {
        Some(MediaType::Video)
    } else {
        None
    }
}

/// The capture time embedded in a photo's EXIF data, as plain
/// (year, month, day, hour, minute, second) fields; a pure function of
/// the file's bytes.
pub uninterp spec fn photo_capture_fields(bytes: Seq<u8>) -> Option<(u32, u32, u32, u32, u32, u32)>;

/// The creation time recorded in a video container's track metadata, as
/// plain fields; a pure function of the file's bytes.
pub uninterp spec fn video_capture_fields(bytes: Seq<u8>) -> Option<(u32, u32, u32, u32, u32, u32)>;

/// Relies on nom_exif (MediaSource::from_memory, MediaParser::parse_exif,
/// Exif::get with the DateTimeOriginal tag): the EXIF original-capture
/// time decoded from the bytes alone. The field bounds are the documented
/// ranges of chrono's accessors, through which the value is handed out.
#[verifier::external_body]
fn read_photo_capture(bytes: &[u8]) -> (r: Option<(u32, u32, u32, u32, u32, u32)>)
    ensures
        match r {
            Some(f) => photo_capture_fields(bytes@) == Some(f) && 1 <= f.1 <= 12 && 1 <= f.2 <= 31
                && f.3 <= 23 && f.4 <= 59 && f.5 <= 59,
            None => photo_capture_fields(bytes@) is None,
        },
{
    let mut parser = nom_exif::MediaParser::new();
    let ms = nom_exif::MediaSource::from_memory(bytes.to_vec()).ok()?;
    let exif: nom_exif::Exif = parser.parse_exif(ms).ok()?.into();
    let dt = match exif.get(nom_exif::ExifTag::DateTimeOriginal)? {
        nom_exif::EntryValue::DateTime(dt) => *dt,
        nom_exif::EntryValue::NaiveDateTime(ndt) => chrono::Utc.fix().from_utc_datetime(ndt),
        _ => return None,
    };
    let year = u32::try_from(dt.year()).ok()?;
    Some((year, dt.month(), dt.day(), dt.hour(), dt.minute(), dt.second()))
}

/// Relies on nom_exif (MediaSource::from_memory, MediaParser::parse_track,
/// TrackInfo::get with the CreateDate tag): the container creation time
/// decoded from the bytes alone. The field bounds are the documented
/// ranges of chrono's accessors, through which the value is handed out.
#[verifier::external_body]
fn read_video_capture(bytes: &[u8]) -> (r: Option<(u32, u32, u32, u32, u32, u32)>)
    ensures
        match r {
            Some(f) => video_capture_fields(bytes@) == Some(f) && 1 <= f.1 <= 12 && 1 <= f.2 <= 31
                && f.3 <= 23 && f.4 <= 59 && f.5 <= 59,
            None => video_capture_fields(bytes@) is None,
        },
{
    let mut parser = nom_exif::MediaParser::new();
    let ms = nom_exif::MediaSource::from_memory(bytes.to_vec()).ok()?;
    let info = parser.parse_track(ms).ok()?;
    let dt = match info.get(nom_exif::TrackInfoTag::CreateDate)? {
        nom_exif::EntryValue::DateTime(dt) => *dt,
        nom_exif::EntryValue::NaiveDateTime(ndt) => chrono::Utc.fix().from_utc_datetime(ndt),
        _ => return None,
    };
    let year = u32::try_from(dt.year()).ok()?;
    Some((year, dt.month(), dt.day(), dt.hour(), dt.minute(), dt.second()))
}

/// The embedded-metadata fields appropriate to the media type.
pub open spec fn spec_embedded_fields(bytes: Seq<u8>, media: MediaType) -> Option<
    (u32, u32, u32, u32, u32, u32),
> {
    match media {
        MediaType::Photo => photo_capture_fields(bytes),
        MediaType::Video => video_capture_fields(bytes),
    }
}

pub open spec fn ts_of_fields(f: (u32, u32, u32, u32, u32, u32)) -> Timestamp {
    Timestamp { year: f.0, month: f.1, day: f.2, hour: f.3, minute: f.4, second: f.5 }
}

/// Which candidate timestamps are accepted: the fields must be in range
/// (a year past 9999 is treated as a placeholder, like one below the
/// configured minimum) and the year must reach `min_valid_year`.
pub open spec fn spec_accept(
    fields: Option<(u32, u32, u32, u32, u32, u32)>,
    min_valid_year: u32,
) -> Option<Timestamp> {
    match fields {
        Some(f) => if ts_of_fields(f).bounded() && f.0 >= min_valid_year {
            Some(ts_of_fields(f))
        } else {
            None
        },
        None => None,
    }
}

/// Accept or reject one candidate timestamp, as `spec_accept` describes.
/// This is where every timestamp source — embedded metadata included —
/// passes the minimum-year filter.
pub fn accept_candidate(fields: Option<(u32, u32, u32, u32, u32, u32)>, min_valid_year: u32) -> (r:
    Option<Timestamp>)
    ensures
        r == spec_accept(fields, min_valid_year),
{
    match fields {
        Some(f) => {
            let ts = Timestamp { year: f.0, month: f.1, day: f.2, hour: f.3, minute: f.4, second: f.5 };
            if ts.is_bounded() && f.0 >= min_valid_year {
                Some(ts)
            } else {
                None
            }
        },
        None => None,
    }
}

/// The timestamp spelled out in the digits of a filename's stem, if any:
/// at least 14 digits are read as `YYYYMMDDHHMMSS`, at least 8 as
/// `YYYYMMDD` at midnight, fewer give nothing; a date that does not
/// exist in the calendar gives nothing.
pub open spec fn spec_filename_timestamp(path: Seq<char>) -> Option<Timestamp> {
    spec_timestamp_from_digits(digits_of(spec_stem(path)))
}

/// Read a timestamp pattern out of the filename, as
/// `spec_filename_timestamp` describes.
pub fn extract_datetime_from_filename(path: &str) -> (r: Option<Timestamp>)
    ensures
        r == spec_filename_timestamp(path@),
{
    let stem = stem_of(path);
    let digits = digits_of_exec(stem.as_str());
    proof {
        lemma_digits_of_are_digits(stem@);
    }
    timestamp_from_digits(digits.as_str())
}

/// The best timestamp for a file, by strict source priority: embedded
/// metadata first, then the filename pattern, then (when provided) the
/// file's modification time; each candidate must pass `spec_accept`'s
/// minimum-year filter, and a later source is consulted only when every
/// earlier one yielded nothing acceptable.
pub open spec fn spec_best_datetime(
    path: Seq<char>,
    content: Seq<u8>,
    media: MediaType,
    mtime: Option<Timestamp>,
    min_valid_year: u32,
) -> Option<Timestamp> {
    let embedded = spec_accept(spec_embedded_fields(content, media), min_valid_year);
    if embedded is Some {
        embedded
    } else {
        let named = spec_filename_timestamp(path);
        if named matches Some(t) && t.year >= min_valid_year {
            named
        } else {
            match mtime {
                Some(m) => if m.bounded() && m.year >= min_valid_year {
                    Some(m)
                } else {
                    None
                },
                None => None,
            }
        }
    }
}

/// Resolve the best timestamp for the file at `path` with content
/// `content`, as `spec_best_datetime` describes. `mtime` is the
/// filesystem-modification-time fallback; passing `None` disables that
/// final tier.
pub fn extract_best_datetime(
    path: &str,
    content: &[u8],
    media_type: MediaType,
    mtime: Option<Timestamp>,
    min_valid_year: u32,
) -> (r: Option<Timestamp>)
    ensures
        r == spec_best_datetime(path@, content@, media_type, mtime, min_valid_year),
        r matches Some(t) ==> t.bounded() && t.year >= min_valid_year,
{
    let fields = match media_type {
        MediaType::Photo => read_photo_capture(content),
        MediaType::Video => read_video_capture(content),
    };
    let embedded = accept_candidate(fields, min_valid_year);
    if embedded.is_some() {
        return embedded;
    }
    if let Some(t) = extract_datetime_from_filename(path) {
        if t.year >= min_valid_year {
            return Some(t);
        }
    }
    match mtime {
        Some(m) => {
            if m.is_bounded() && m.year >= min_valid_year {
                Some(m)
            } else {
                None
            }
        },
        None => None,
    }
}

/// The metadata stage's handling of one detected file: classify it,
/// resolve a timestamp, and turn it into `Enriched`, `Unsorted` (valid
/// media, no usable date) or `Failed` (not a media file).
pub fn process_detected(
    config: &OrganizerConfig,
    path: String,
    content: &[u8],
    mtime: Option<Timestamp>,
) -> (r: FileEvent)
    ensures
        match spec_classify(path@, config.photo_extensions@, config.video_extensions@) {
            None => r matches FileEvent::Failed { path: p, error } && p@ == path@ && error@
                == "Unsupported media type"@,
            Some(mt) => match spec_best_datetime(
                path@,
                content@,
                mt,
                mtime,
                config.min_valid_year,
            ) {
                Some(ts) => r matches FileEvent::Enriched { path: p, media_type, datetime } && p@
                    == path@ && media_type == mt && datetime == ts,
                None => r matches FileEvent::Unsorted { path: p, media_type } && p@ == path@
                    && media_type == mt,
            },
        },
{
    let media_type = match classify_media_type(path.as_str(), config) {
        Some(mt) => mt,
        None => {
            return FileEvent::Failed { path, error: "Unsupported media type".to_owned() };
        },
    };
    match extract_best_datetime(path.as_str(), content, media_type, mtime, config.min_valid_year) {
        Some(datetime) => FileEvent::Enriched { path, media_type, datetime },
        None => FileEvent::Unsorted { path, media_type },
    }
}

} // verus!
