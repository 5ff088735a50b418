//! The media scanner stage's decisions: which files are let through by
//! extension, which are blocked as executables, and how an external
//! malware scan's exit code is read. Spawning the scanner process and
//! quarantining files happen outside this crate.

use vstd::prelude::*;
use crate::checks::{is_executable_ext, spec_ext_allowed};
use crate::decimal::{dec_rep, push_dec};
use crate::event::FileEvent;
use crate::strutil::{
    contains_ignore_case, extension_of, lower_seq, push_char, spec_extension, to_lowercase,
};
use crate::config::ScannerConfig;
use vstd::string::StringExecFns;

verus! {

/// Failure of the scanner stage. An exit code other than 0 (clean) or 1
/// (infected) is an operational error, distinguished from an infection
/// verdict so that it can be treated as retryable.
#[derive(Clone, Debug)]
pub enum ScannerError {
    IoError(String),
    ClamAvError(Option<i32>),
}

/// Whether the (case-insensitive) extension of `path` is in the
/// configured allow-list.
pub fn is_extension_allowed(path: &str, allowed: &Vec<String>) -> (r: bool)
    ensures
        r == spec_ext_allowed(allowed@, path@),
{
    let ext = extension_of(path);
    contains_ignore_case(allowed, ext.as_str())
}

/// Whether `path`'s final extension names executable content, against
/// the same denylist the validator uses, ignoring ASCII case like every
/// other extension comparison in the pipeline.
pub fn is_executable(path: &str) -> (r: bool)
    ensures
        r == is_executable_ext(lower_seq(spec_extension(path@))),
{
    let ext = extension_of(path);
    let lowered = to_lowercase(ext.as_str());
    crate::checks::is_executable_ext_exec(lowered.as_str())
}

/// How the scanner stage handles one detected file, in order: reject a
/// disallowed extension, quarantine an executable (when that policy is
/// on), pass unscanned when scanning is disabled, otherwise scan.
#[derive(Clone, Copy, Debug, PartialEq, Eq, Structural)]
pub enum ScanDecision {
    RejectExtension,
    BlockExecutable,
    PassUnscanned,
    NeedScan,
}

pub open spec fn spec_scanner_decision(
    allowed: Seq<String>,
    block_executables: bool,
    enabled: bool,
    path: Seq<char>,
) -> ScanDecision {
    if !spec_ext_allowed(allowed, path) {
        ScanDecision::RejectExtension
    } else if block_executables && is_executable_ext(lower_seq(spec_extension(path))) {
        ScanDecision::BlockExecutable
    } else if !enabled {
        ScanDecision::PassUnscanned
    } else {
        ScanDecision::NeedScan
    }
}

/// The stage's decision for the file at `path`, as
/// `spec_scanner_decision` describes.
pub fn scanner_decision(config: &ScannerConfig, path: &str) -> (r: ScanDecision)
    ensures
        r == spec_scanner_decision(
            config.allowed_extensions@,
            config.block_executables,
            config.enabled,
            path@,
        ),
{
    if !is_extension_allowed(path, &config.allowed_extensions) {
        ScanDecision::RejectExtension
    } else if config.block_executables && is_executable(path) {
        ScanDecision::BlockExecutable
    } else if !config.enabled {
        ScanDecision::PassUnscanned
    } else {
        ScanDecision::NeedScan
    }
}

/// Reading the malware scanner's exit code: 0 is clean, 1 is infected,
/// anything else (a missing code included) is an operational error
/// carrying the code.
pub fn interpret_scan_exit(code: Option<i32>) -> (r: Result<bool, ScannerError>)
    ensures
        code == Some(0i32) ==> r == Result::<bool, ScannerError>::Ok(true),
        code == Some(1i32) ==> r == Result::<bool, ScannerError>::Ok(false),
        code != Some(0i32) && code != Some(1i32) ==> r == Result::<bool, ScannerError>::Err(
            ScannerError::ClamAvError(code),
        ),
{
    match code {
        Some(0i32) => Ok(true),
        Some(1i32) => Ok(false),
        _ => Err(ScannerError::ClamAvError(code)),
    }
}

/// The decimal spelling of a signed value.
pub open spec fn spec_i32_dec(c: int) -> Seq<char> {
    if c >= 0 {
        dec_rep(c as nat)
    } else {
        seq!['-'] + dec_rep((-c) as nat)
    }
}

fn push_i32_dec(s: &mut String, c: i32)
    ensures
        final(s)@ == old(s)@ + spec_i32_dec(c as int),
{
    if c >= 0 {
        push_dec(s, c as u64);
    } else {
        push_char(s, '-');
        let mag: u64 = (-(c as i64)) as u64;
        push_dec(s, mag);
        assert(final(s)@ =~= old(s)@ + spec_i32_dec(c as int));
    }
}

/// The message a scanner error is reported with.
pub open spec fn spec_scanner_error_message(e: ScannerError) -> Seq<char> {
    match e {
        ScannerError::IoError(m) => "I/O error: "@ + m@,
        ScannerError::ClamAvError(code) => match code {
            Some(c) => "ClamAV failed with exit code: "@ + spec_i32_dec(c as int),
            None => "ClamAV failed with exit code: none"@,
        },
    }
}

impl ScannerError {
    /// This error, spelled out for logs and events.
    pub fn describe(&self) -> (r: String)
        ensures
            r@ == spec_scanner_error_message(*self),
    {
        match self {
            ScannerError::IoError(m) => {
                let mut s = "I/O error: ".to_owned();
                s.append(m.as_str());
                s
            },
            ScannerError::ClamAvError(code) => match code {
                Some(c) => {
                    let mut s = "ClamAV failed with exit code: ".to_owned();
                    push_i32_dec(&mut s, *c);
                    s
                },
                None => "ClamAV failed with exit code: none".to_owned(),
            },
        }
    }
}

/// The event the scanner emits for a completed scan: a clean verdict
/// forwards the file as `Scanned`, an infection or an operational error
/// fails it with the exact cause.
pub fn scan_outcome_event(path: String, outcome: &Result<bool, ScannerError>) -> (r: FileEvent)
    ensures
        match outcome {
            Ok(true) => r matches FileEvent::Scanned { path: p, clean } && p@ == path@ && clean,
            Ok(false) => r matches FileEvent::Failed { path: p, error } && p@ == path@ && error@
                == "Virus detected, quarantined"@,
            Err(e) => r matches FileEvent::Failed { path: p, error } && p@ == path@ && error@
                == "Scan error: "@ + spec_scanner_error_message(*e),
        },
{
    match outcome {
        Ok(true) => FileEvent::Scanned { path, clean: true },
        Ok(false) => FileEvent::Failed {
            path,
            error: "Virus detected, quarantined".to_owned(),
        },
        Err(e) => {
            let mut error = "Scan error: ".to_owned();
            let detail = e.describe();
            error.append(detail.as_str());
            FileEvent::Failed { path, error }
        },
    }
}

} // verus!
