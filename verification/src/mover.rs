//! The mover stage's planning: where a clean, scanned file is linked
//! to, preserving its position under the source tree. The hardlink (or
//! copy fallback) itself happens outside this crate.

use vstd::prelude::*;
use crate::config::MoverConfig;
use crate::strutil::{has_prefix, push_char, spec_starts_with};
use vstd::string::{StrSliceExecFns, StringExecFns};

verus! {

#[derive(Clone, Debug)]
pub enum MoverError {
    IoError(String),
}

/// Where a file below the source root lands under the destination
/// root: the same relative path; a file outside the source root is not
/// the mover's business.
pub open spec fn spec_link_destination(
    path: Seq<char>,
    source: Seq<char>,
    destination: Seq<char>,
) -> Option<Seq<char>> {
    if spec_starts_with(path, source + seq!['/']) {
        Some(destination + seq!['/'] + path.subrange(source.len() + 1 as int, path.len() as int))
    } else {
        None
    }
}

/// The destination for linking `path`, as `spec_link_destination`
/// describes.
pub fn link_destination(path: &str, config: &MoverConfig) -> (r: Option<String>)
    ensures
        match r {
            Some(s) => spec_link_destination(path@, config.source@, config.destination@) == Some(
                s@,
            ),
            None => spec_link_destination(path@, config.source@, config.destination@) is None,
        },
{
    let mut root = config.source.clone();
    push_char(&mut root, '/');
    assert(root@ =~= config.source@ + seq!['/']);
    if !has_prefix(path, root.as_str()) {
        return None;
    }
    let n: usize = path.unicode_len();
    let start: usize = root.as_str().unicode_len();
    let mut out = config.destination.clone();
    push_char(&mut out, '/');
    out.append(path.substring_char(start, n));
    assert(out@ =~= config.destination@ + seq!['/'] + path@.subrange(
        config.source@.len() + 1 as int,
        path@.len() as int,
    ));
    Some(out)
}

} // verus!
