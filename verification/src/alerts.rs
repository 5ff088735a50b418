//! Composition of outbound alert messages. Sending them over HTTP is
//! the caller's business; what a batch or an event says is decided —
//! exactly — here.

use vstd::prelude::*;
use crate::decimal::{dec_rep, push_dec};
use crate::event::FileEvent;
use crate::strutil::{file_name_of, spec_file_name};
use vstd::string::StringExecFns;

verus! {

/// The text of a batch alert: "Photos: " and the non-zero counters,
/// comma-separated, in the fixed order organized, unsorted, failed.
pub open spec fn spec_batch_message(organized: u64, unsorted: u64, failed: u64) -> Seq<char> {
    let part1 = if organized > 0 {
        dec_rep(organized as nat) + " organized"@
    } else {
        Seq::empty()
    };
    let part2 = if unsorted > 0 {
        (if organized > 0 {
            ", "@
        } else {
            Seq::empty()
        }) + dec_rep(unsorted as nat) + " unsorted"@
    } else {
        Seq::empty()
    };
    let part3 = if failed > 0 {
        (if organized > 0 || unsorted > 0 {
            ", "@
        } else {
            Seq::empty()
        }) + dec_rep(failed as nat) + " failed"@
    } else {
        Seq::empty()
    };
    "Photos: "@ + part1 + part2 + part3
}

/// The batch alert for the given counters, or nothing when there is
/// nothing to report.
pub fn batch_alert_message(organized: u64, unsorted: u64, failed: u64) -> (r: Option<String>)
    ensures
        match r {
            Some(m) => (organized > 0 || unsorted > 0 || failed > 0) && m@ == spec_batch_message(
                organized,
                unsorted,
                failed,
            ),
            None => organized == 0 && unsorted == 0 && failed == 0,
        },
{
    if organized == 0 && unsorted == 0 && failed == 0 {
        return None;
    }
    let mut m = "Photos: ".to_owned();
    if organized > 0 {
        push_dec(&mut m, organized);
        m.append(" organized");
    }
    if unsorted > 0 {
        if organized > 0 {
            m.append(", ");
        }
        push_dec(&mut m, unsorted);
        m.append(" unsorted");
    }
    if failed > 0 {
        if organized > 0 || unsorted > 0 {
            m.append(", ");
        }
        push_dec(&mut m, failed);
        m.append(" failed");
    }
    assert(m@ =~= spec_batch_message(organized, unsorted, failed));
    Some(m)
}

/// The text of a single-event alert: only a successful organization is
/// announced, naming the file (its final path component, or the whole
/// old path when that component is empty) and where it went.
pub open spec fn spec_event_alert(old_path: Seq<char>, new_path: Seq<char>) -> Seq<char> {
    let name = spec_file_name(old_path);
    let shown = if name.len() > 0 {
        name
    } else {
        old_path
    };
    "Organized: "@ + shown + " -> "@ + new_path
}

/// The alert for one terminal event: `Some` exactly for `Organized`
/// (so an alert is only ever raised for a terminal event).
pub fn event_alert_message(event: &FileEvent) -> (r: Option<String>)
    ensures
        match event {
            FileEvent::Organized { old_path, new_path } => r matches Some(m) && m@
                == spec_event_alert(old_path@, new_path@),
            _ => r is None,
        },
        r is Some ==> crate::event::is_terminal(*event),
{
    match event {
        FileEvent::Organized { old_path, new_path } => {
            let mut m = "Organized: ".to_owned();
            let name = file_name_of(old_path.as_str());
            if name.as_str().unicode_len() > 0 {
                m.append(name.as_str());
            } else {
                m.append(old_path.as_str());
            }
            m.append(" -> ");
            m.append(new_path.as_str());
            assert(m@ =~= spec_event_alert(old_path@, new_path@));
            Some(m)
        },
        _ => None,
    }
}

} // verus!
