//! Path translation for the document-management rescan trigger: a host
//! filesystem path is rewritten into the internal path the external
//! service understands. Invoking that service happens outside this
//! crate; the translation is decided here.

use vstd::prelude::*;
use crate::config::NextcloudConfig;
use crate::strutil::{has_prefix, push_char, spec_starts_with};
use vstd::string::{StrSliceExecFns, StringExecFns};

verus! {

#[derive(Clone, Debug)]
pub enum NextcloudError {
    IoError(String),
}

/// How a host path is translated: it must lie strictly below the data
/// directory; the part below it is taken, a `username/files/` prefix is
/// stripped when present, and the internal prefix and a '/' are put in
/// front.
pub open spec fn spec_translate_path(
    host: Seq<char>,
    data_dir: Seq<char>,
    username: Seq<char>,
    internal_prefix: Seq<char>,
) -> Option<Seq<char>> {
    if !spec_starts_with(host, data_dir + seq!['/']) {
        None
    } else {
        let rel = host.subrange(data_dir.len() + 1 as int, host.len() as int);
        let user_prefix = username + "/files/"@;
        if spec_starts_with(rel, user_prefix) {
            Some(
                internal_prefix + seq!['/'] + rel.subrange(user_prefix.len() as int, rel.len() as int),
            )
        } else {
            Some(internal_prefix + seq!['/'] + rel)
        }
    }
}

/// Translate a host filesystem path to the service's internal path, as
/// `spec_translate_path` describes. A path outside the data directory
/// yields `None` (the caller forwards the event untouched).
pub fn translate_path(host_path: &str, config: &NextcloudConfig) -> (r: Option<String>)
    ensures
        match r {
            Some(s) => spec_translate_path(
                host_path@,
                config.data_dir@,
                config.username@,
                config.internal_prefix@,
            ) == Some(s@),
            None => spec_translate_path(
                host_path@,
                config.data_dir@,
                config.username@,
                config.internal_prefix@,
            ) is None,
        },
{
    let mut root = config.data_dir.clone();
    push_char(&mut root, '/');
    assert(root@ =~= config.data_dir@ + seq!['/']);
    if !has_prefix(host_path, root.as_str()) {
        return None;
    }
    let n: usize = host_path.unicode_len();
    let start: usize = root.as_str().unicode_len();
    let rel = host_path.substring_char(start, n).to_owned();
    proof {
        assert(rel@ =~= host_path@.subrange(config.data_dir@.len() + 1 as int, host_path@.len() as int));
    }
    let mut user_prefix = config.username.clone();
    user_prefix.append("/files/");
    let mut out = config.internal_prefix.clone();
    push_char(&mut out, '/');
    if has_prefix(rel.as_str(), user_prefix.as_str()) {
        let rn: usize = rel.as_str().unicode_len();
        let un: usize = user_prefix.as_str().unicode_len();
        out.append(rel.as_str().substring_char(un, rn));
        assert(out@ =~= config.internal_prefix@ + seq!['/'] + rel@.subrange(
            user_prefix@.len() as int,
            rel@.len() as int,
        ));
        Some(out)
    } else {
        out.append(rel.as_str());
        Some(out)
    }
}

} // verus!
