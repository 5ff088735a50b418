//! Destination-path construction for the canonical
//! `photos_dir/YYYY/YYYY-MM/PREFIX_YYYYMMDD_HHMMSS.ext` layout and for the
//! unsorted directory. Collisions are avoided by probing numeric suffixes
//! `_1`, `_2`, ... against the set of already-occupied paths; the chosen
//! suffix is proved to be exactly the smallest unused one.

use vstd::prelude::*;
use crate::config::OrganizerConfig;
use crate::decimal::{dec_rep, lemma_dec_rep_injective, lemma_num_val_of_dec_rep, pad2, pad4};
use crate::decimal::{push_dec, push_pad2, push_pad4};
use crate::event::{FileEvent, MediaType};
use crate::fsmodel::{FailPoint, MemFs};
use crate::strutil::{contains_exact, find_last, last_index_of, lemma_last_index_of, push_char};
use crate::timestamp::{push_compact, spec_compact, Timestamp};
use vstd::string::{StrSliceExecFns, StringExecFns};

verus! {

#[derive(Clone, Debug)]
pub enum OrganizerError {
    IoError(String),
}

/// Exact content copy of a byte vector.
fn clone_bytes(v: &Vec<u8>) -> (r: Vec<u8>)
    ensures
        r@ == v@,
{
    let n: usize = v.len();
    let mut out: Vec<u8> = Vec::new();
    let mut i: usize = 0;
    while i < n
        invariant
            n == v@.len(),
            i <= n,
            out@ == v@.take(i as int),
        decreases n - i,
    {
        out.push(v[i]);
        assert(out@ =~= v@.take(i + 1 as int));
        i = i + 1;
    }
    assert(v@.take(n as int) =~= v@);
    out
}

/// The outcome of a safe move on filesystem contents `m`: whether it
/// reports success, and what the filesystem holds afterwards. A rename
/// succeeds only on the same filesystem; the fallback copies, flushes,
/// and deletes the source, and a failure at any step leaves the source
/// untouched — a failed copy or flush also removes the partial
/// destination, and a failed source deletion leaves both complete
/// copies in place.
pub open spec fn spec_move_result(
    m: Map<Seq<char>, Seq<u8>>,
    src: Seq<char>,
    dest: Seq<char>,
    same_fs: bool,
    fail: FailPoint,
) -> (bool, Map<Seq<char>, Seq<u8>>) {
    let moved = m.remove(src).insert(dest, m[src]);
    if same_fs && fail != FailPoint::AtRename {
        (true, moved)
    } else if fail == FailPoint::AtCopy || fail == FailPoint::AtSync {
        (false, m)
    } else if fail == FailPoint::AtRemove {
        (false, m.insert(dest, m[src]))
    } else {
        (true, moved)
    }
}

/// Relocate `source` to `dest` on the model filesystem: rename when the
/// two paths share a filesystem, otherwise copy, flush, then delete the
/// source. `fail` injects a failure at one step. Whatever happens, at
/// least one complete copy of the data survives: the source is deleted
/// only after the destination's data is confirmed durable, and a partial
/// destination is removed before a failure is reported.
pub fn move_safe(
    fs: &mut MemFs,
    source: &str,
    dest: &str,
    same_fs: bool,
    fail: FailPoint,
) -> (r: Result<(), OrganizerError>)
    requires
        old(fs).wf(),
        old(fs).contents().contains_key(source@),
        source@ != dest@,
    ensures
        final(fs).wf(),
        r is Ok <==> spec_move_result(old(fs).contents(), source@, dest@, same_fs, fail).0,
        final(fs).contents() =~= spec_move_result(
            old(fs).contents(),
            source@,
            dest@,
            same_fs,
            fail,
        ).1,
        (final(fs).contents().contains_key(source@)
            && final(fs).contents()[source@] == old(fs).contents()[source@])
            || (final(fs).contents().contains_key(dest@)
            && final(fs).contents()[dest@] == old(fs).contents()[source@]),
        r is Err ==> final(fs).contents().contains_key(source@) && final(fs).contents()[source@]
            == old(fs).contents()[source@],
{
    let rename_works = same_fs && !matches!(fail, FailPoint::AtRename);
    if rename_works {
        let entry = match fs.take(source) {
            Some(e) => e,
            None => {
                return Err(OrganizerError::IoError("source disappeared".to_owned()));
            },
        };
        fs.write(dest, entry.data);
        return Ok(());
    }
    match fail {
        FailPoint::AtCopy => Err(OrganizerError::IoError("copy failed".to_owned())),
        FailPoint::AtSync => Err(OrganizerError::IoError("sync failed".to_owned())),
        FailPoint::AtRemove => {
            let data = match fs.read(source) {
                Some(v) => clone_bytes(v),
                None => Vec::new(),
            };
            fs.write(dest, data);
            Err(OrganizerError::IoError("removing source failed".to_owned()))
        },
        _ => {
            let entry = match fs.take(source) {
                Some(e) => e,
                None => {
                    return Err(OrganizerError::IoError("source disappeared".to_owned()));
                },
            };
            fs.write(dest, entry.data);
            Ok(())
        },
    }
}

/// The numeric suffix text for probe index `k`: nothing for the first
/// try, `_1`, `_2`, ... afterwards.
pub open spec fn spec_suffix(k: nat) -> Seq<char> {
    if k == 0 {
        Seq::empty()
    } else {
        seq!['_'] + dec_rep(k)
    }
}

/// Candidate `k` of a collision probe: the invariant part `a`, the
/// suffix for `k`, and the trailing part `b` (the extension, if any).
pub open spec fn spec_probe_candidate(a: Seq<char>, b: Seq<char>, k: nat) -> Seq<char> {
    a + spec_suffix(k) + b
}

/// Whether some occupied path reads exactly `s`.
pub open spec fn occ_contains(occ: Seq<String>, s: Seq<char>) -> bool {
    exists|i: int| 0 <= i < occ.len() && occ[i]@ == s
}

proof fn lemma_suffix_injective(k1: nat, k2: nat)
    requires
        spec_suffix(k1) == spec_suffix(k2),
    ensures
        k1 == k2,
{
    lemma_num_val_of_dec_rep(k1);
    lemma_num_val_of_dec_rep(k2);
    if k1 != 0 && k2 != 0 {
        assert(dec_rep(k1) =~= spec_suffix(k1).subrange(1, spec_suffix(k1).len() as int));
        assert(dec_rep(k2) =~= spec_suffix(k2).subrange(1, spec_suffix(k2).len() as int));
        lemma_dec_rep_injective(k1, k2);
    }
}

/// Distinct probe indices give distinct candidate paths.
proof fn lemma_probe_candidate_injective(a: Seq<char>, b: Seq<char>, k1: nat, k2: nat)
    requires
        spec_probe_candidate(a, b, k1) == spec_probe_candidate(a, b, k2),
    ensures
        k1 == k2,
{
    lemma_num_val_of_dec_rep(k1);
    lemma_num_val_of_dec_rep(k2);
    let s1 = spec_suffix(k1);
    let s2 = spec_suffix(k2);
    assert(spec_probe_candidate(a, b, k1).len() == a.len() + s1.len() + b.len());
    assert(spec_probe_candidate(a, b, k2).len() == a.len() + s2.len() + b.len());
    assert(s1.len() == s2.len());
    assert(s1 =~= (a + s1 + b).subrange(a.len() as int, (a.len() + s1.len()) as int));
    assert(s2 =~= (a + s2 + b).subrange(a.len() as int, (a.len() + s2.len()) as int));
    lemma_suffix_injective(k1, k2);
}

/// The set of the first `k` candidate paths.
spec fn cand_set(a: Seq<char>, b: Seq<char>, k: nat) -> Set<Seq<char>> {
    Set::new(|s: Seq<char>| exists|j: nat| j < k && s == spec_probe_candidate(a, b, j))
}

proof fn lemma_cand_set_card(a: Seq<char>, b: Seq<char>, k: nat)
    ensures
        cand_set(a, b, k).finite(),
        cand_set(a, b, k).len() == k,
    decreases k,
{
    if k == 0 {
        assert(cand_set(a, b, 0) =~= Set::<Seq<char>>::empty());
    } else {
        lemma_cand_set_card(a, b, (k - 1) as nat);
        assert forall|j: nat| j < k - 1 implies #[trigger] spec_probe_candidate(a, b, j)
            != spec_probe_candidate(a, b, (k - 1) as nat) by {
            if spec_probe_candidate(a, b, j) == spec_probe_candidate(a, b, (k - 1) as nat) {
                lemma_probe_candidate_injective(a, b, j, (k - 1) as nat);
            }
        }
        assert(!cand_set(a, b, (k - 1) as nat).contains(
            spec_probe_candidate(a, b, (k - 1) as nat),
        ));
        assert(cand_set(a, b, k) =~= cand_set(a, b, (k - 1) as nat).insert(
            spec_probe_candidate(a, b, (k - 1) as nat),
        ));
    }
}

/// If the first `k` candidates are all among the occupied paths, there
/// are at least `k` occupied paths.
proof fn lemma_probe_pigeonhole(a: Seq<char>, b: Seq<char>, occ: Seq<String>, k: nat)
    requires
        forall|j: nat| j < k ==> occ_contains(occ, spec_probe_candidate(a, b, j)),
    ensures
        k <= occ.len(),
{
    let views = occ.map_values(|x: String| x@);
    assert forall|j: nat| j < k implies views.contains(spec_probe_candidate(a, b, j)) by {
        assert(occ_contains(occ, spec_probe_candidate(a, b, j)));
        let i = choose|i: int| 0 <= i < occ.len() && occ[i]@ == spec_probe_candidate(a, b, j);
        assert(views[i] == spec_probe_candidate(a, b, j));
    }
    lemma_cand_set_card(a, b, k);
    assert(cand_set(a, b, k) <= views.to_set());
    vstd::set_lib::lemma_len_subset(cand_set(a, b, k), views.to_set());
    views.lemma_cardinality_of_set();
}

/// The choice the probe makes is unique: if each of two candidate
/// indices is free while all candidates below it are occupied, the two
/// indices — and so the two candidate paths — are equal. Computing a
/// destination twice under unchanged occupancy therefore yields the same
/// path, and the suffix chosen is exactly the smallest unused one.
pub proof fn lemma_probe_choice_unique(
    a: Seq<char>,
    b: Seq<char>,
    occ: Seq<String>,
    k1: nat,
    k2: nat,
)
    requires
        !occ_contains(occ, spec_probe_candidate(a, b, k1)),
        forall|j: nat| j < k1 ==> occ_contains(occ, spec_probe_candidate(a, b, j)),
        !occ_contains(occ, spec_probe_candidate(a, b, k2)),
        forall|j: nat| j < k2 ==> occ_contains(occ, spec_probe_candidate(a, b, j)),
    ensures
        k1 == k2,
        spec_probe_candidate(a, b, k1) == spec_probe_candidate(a, b, k2),
{
    if k1 < k2 {
        assert(occ_contains(occ, spec_probe_candidate(a, b, k1)));
    }
    if k2 < k1 {
        assert(occ_contains(occ, spec_probe_candidate(a, b, k2)));
    }
}

/// What a finished collision probe guarantees: the result is candidate
/// `k`, that candidate is free, and every candidate below `k` is
/// occupied — `k` is the smallest free probe index.
pub open spec fn probe_result(
    a: Seq<char>,
    b: Seq<char>,
    occ: Seq<String>,
    r: Seq<char>,
    k: nat,
) -> bool {
    &&& k <= occ.len()
    &&& r == spec_probe_candidate(a, b, k)
    &&& !occ_contains(occ, spec_probe_candidate(a, b, k))
    &&& forall|j: nat| j < k ==> occ_contains(occ, #[trigger] spec_probe_candidate(a, b, j))
}

/// Candidate `k` as a `String`.
fn make_candidate(a: &str, b: &str, k: usize) -> (r: String)
    ensures
        r@ == spec_probe_candidate(a@, b@, k as nat),
{
    let mut s = a.to_owned();
    if k > 0 {
        push_char(&mut s, '_');
        push_dec(&mut s, k as u64);
    }
    s.append(b);
    assert(s@ =~= spec_probe_candidate(a@, b@, k as nat));
    s
}

/// The first candidate path not in `occupied`: the lowest probe index
/// whose candidate is free, every candidate below it being occupied.
fn probe_free(a: &str, b: &str, occupied: &Vec<String>) -> (r: String)
    ensures
        exists|k: nat| probe_result(a@, b@, occupied@, r@, k),
{
    let n: usize = occupied.len();
    let mut k: usize = 0;
    loop
        invariant
            n == occupied@.len(),
            k <= n,
            forall|j: nat| j < k ==> occ_contains(occupied@, #[trigger] spec_probe_candidate(a@, b@, j)),
        decreases n - k,
    {
        let cand = make_candidate(a, b, k);
        if !contains_exact(occupied, cand.as_str()) {
            assert(!occ_contains(occupied@, spec_probe_candidate(a@, b@, k as nat)));
            assert(probe_result(a@, b@, occupied@, cand@, k as nat));
            return cand;
        }
        assert(occ_contains(occupied@, spec_probe_candidate(a@, b@, k as nat)));
        proof {
            lemma_probe_pigeonhole(a@, b@, occupied@, (k + 1) as nat);
        }
        k = k + 1;
    }
}

/// The naming prefix for a media type.
pub open spec fn spec_prefix(config: OrganizerConfig, media_type: MediaType) -> Seq<char> {
    match media_type {
        MediaType::Photo => config.photo_prefix@,
        MediaType::Video => config.video_prefix@,
    }
}

/// The dated directory `photos_dir/YYYY/YYYY-MM`.
pub open spec fn spec_target_dir(config: OrganizerConfig, ts: Timestamp) -> Seq<char> {
    config.photos_dir@ + seq!['/'] + pad4(ts.year as int) + seq!['/'] + pad4(ts.year as int)
        + seq!['-'] + pad2(ts.month as int)
}

/// Everything of a dated destination up to the collision suffix:
/// `photos_dir/YYYY/YYYY-MM/PREFIX_YYYYMMDD_HHMMSS`.
pub open spec fn spec_target_head(
    config: OrganizerConfig,
    media_type: MediaType,
    ts: Timestamp,
) -> Seq<char> {
    spec_target_dir(config, ts) + seq!['/'] + spec_prefix(config, media_type) + seq!['_']
        + spec_compact(ts)
}

/// Destination candidate `k` for a dated file.
pub open spec fn spec_target_candidate(
    config: OrganizerConfig,
    media_type: MediaType,
    ts: Timestamp,
    extension: Seq<char>,
    k: nat,
) -> Seq<char> {
    spec_probe_candidate(spec_target_head(config, media_type, ts), seq!['.'] + extension, k)
}

/// The destination path for a dated file:
/// `photos_dir/YYYY/YYYY-MM/PREFIX_YYYYMMDD_HHMMSS.ext`, with the
/// smallest numeric suffix (`_1`, `_2`, ...) that avoids every path in
/// `occupied` — the paths already present in the destination directory.
pub fn build_target_path(
    config: &OrganizerConfig,
    media_type: MediaType,
    datetime: &Timestamp,
    extension: &str,
    occupied: &Vec<String>,
) -> (r: String)
    requires
        datetime.bounded(),
    ensures
        exists|k: nat|
            probe_result(
                spec_target_head(*config, media_type, *datetime),
                seq!['.'] + extension@,
                occupied@,
                r@,
                k,
            ),
{
    let mut head = config.photos_dir.clone();
    push_char(&mut head, '/');
    push_pad4(&mut head, datetime.year as u64);
    push_char(&mut head, '/');
    push_pad4(&mut head, datetime.year as u64);
    push_char(&mut head, '-');
    push_pad2(&mut head, datetime.month as u64);
    push_char(&mut head, '/');
    match media_type {
        MediaType::Photo => head.append(config.photo_prefix.as_str()),
        MediaType::Video => head.append(config.video_prefix.as_str()),
    }
    push_char(&mut head, '_');
    push_compact(&mut head, datetime);
    assert(head@ =~= spec_target_head(*config, media_type, *datetime));
    let mut tail = String::new();
    push_char(&mut tail, '.');
    tail.append(extension);
    assert(tail@ =~= seq!['.'] + extension@);
    let r = probe_free(head.as_str(), tail.as_str(), occupied);
    proof {
        let k = choose|k: nat| probe_result(head@, tail@, occupied@, r@, k);
        assert(probe_result(
            spec_target_head(*config, media_type, *datetime),
            seq!['.'] + extension@,
            occupied@,
            r@,
            k,
        ));
    }
    r
}

/// The extension a dated destination is named with: the file's own
/// extension folded to lower case, or "bin" for a file without one.
pub open spec fn spec_target_extension(path: Seq<char>) -> Seq<char> {
    if crate::strutil::spec_extension(path).len() == 0 {
        "bin"@
    } else {
        crate::strutil::lower_seq(crate::strutil::spec_extension(path))
    }
}

/// The extension used in the destination name for `path`, as
/// `spec_target_extension` describes.
pub fn target_extension(path: &str) -> (r: String)
    ensures
        r@ == spec_target_extension(path@),
{
    let ext = crate::strutil::extension_of(path);
    if ext.as_str().unicode_len() == 0 {
        "bin".to_owned()
    } else {
        crate::strutil::to_lowercase(ext.as_str())
    }
}

/// The dated directory for `datetime`, as `spec_target_dir` describes.
pub fn target_dir(config: &OrganizerConfig, datetime: &Timestamp) -> (r: String)
    requires
        datetime.bounded(),
    ensures
        r@ == spec_target_dir(*config, *datetime),
{
    let mut dir = config.photos_dir.clone();
    push_char(&mut dir, '/');
    push_pad4(&mut dir, datetime.year as u64);
    push_char(&mut dir, '/');
    push_pad4(&mut dir, datetime.year as u64);
    push_char(&mut dir, '-');
    push_pad2(&mut dir, datetime.month as u64);
    assert(dir@ =~= spec_target_dir(*config, *datetime));
    dir
}

/// Where an undated file is sent: the configured unsorted directory
/// under the photos root, or — when none is configured — the fixed
/// failure event the file is reported with instead.
pub fn plan_unsorted(config: &OrganizerConfig, path: String) -> (r: Result<String, FileEvent>)
    ensures
        match config.unsorted_dir {
            Some(d) => (r matches Ok(dir) && dir@ == config.photos_dir@ + seq!['/'] + d@),
            None => (r matches Err(FileEvent::Failed { path: p, error }) && p@ == path@ && error@
                == "No valid date and unsorted_dir not configured"@),
        },
{
    match &config.unsorted_dir {
        Some(d) => {
            let mut dir = config.photos_dir.clone();
            push_char(&mut dir, '/');
            dir.append(d.as_str());
            assert(dir@ =~= config.photos_dir@ + seq!['/'] + d@);
            Ok(dir)
        },
        None => Err(
            FileEvent::Failed {
                path,
                error: "No valid date and unsorted_dir not configured".to_owned(),
            },
        ),
    }
}

/// Everything of an unsorted destination up to the collision suffix:
/// the directory, a '/', and the filename's stem (the whole filename
/// when it holds no '.').
pub open spec fn spec_unsorted_head(dir: Seq<char>, filename: Seq<char>) -> Seq<char> {
    let d = last_index_of(filename, '.');
    if d >= 0 {
        dir + seq!['/'] + filename.subrange(0, d)
    } else {
        dir + seq!['/'] + filename
    }
}

/// What follows the collision suffix of an unsorted destination: the
/// '.' and extension, or nothing for an extensionless filename.
pub open spec fn spec_unsorted_tail(filename: Seq<char>) -> Seq<char> {
    let d = last_index_of(filename, '.');
    if d >= 0 {
        seq!['.'] + filename.subrange(d + 1, filename.len() as int)
    } else {
        Seq::empty()
    }
}

/// Destination candidate `k` for an undated file.
pub open spec fn spec_unsorted_candidate(dir: Seq<char>, filename: Seq<char>, k: nat) -> Seq<
    char,
> {
    spec_probe_candidate(spec_unsorted_head(dir, filename), spec_unsorted_tail(filename), k)
}

/// The destination path for an undated file: `dir/filename`, with the
/// smallest numeric suffix inserted before the extension (appended, if
/// the name has none) that avoids every path in `occupied`. Candidate 0
/// is the unchanged `dir/filename`.
pub fn build_unsorted_path(dir: &str, filename: &str, occupied: &Vec<String>) -> (r: String)
    ensures
        exists|k: nat|
            probe_result(
                spec_unsorted_head(dir@, filename@),
                spec_unsorted_tail(filename@),
                occupied@,
                r@,
                k,
            ),
{
    proof {
        lemma_last_index_of(filename@, '.');
    }
    let n: usize = filename.unicode_len();
    let mut head = dir.to_owned();
    push_char(&mut head, '/');
    let mut tail = String::new();
    match find_last(filename, '.') {
        Some(d) => {
            head.append(filename.substring_char(0, d));
            push_char(&mut tail, '.');
            tail.append(filename.substring_char(d + 1, n));
        },
        None => {
            head.append(filename);
        },
    }
    assert(head@ =~= spec_unsorted_head(dir@, filename@));
    assert(tail@ =~= spec_unsorted_tail(filename@));
    let r = probe_free(head.as_str(), tail.as_str(), occupied);
    proof {
        let k = choose|k: nat| probe_result(head@, tail@, occupied@, r@, k);
        assert(probe_result(
            spec_unsorted_head(dir@, filename@),
            spec_unsorted_tail(filename@),
            occupied@,
            r@,
            k,
        ));
    }
    r
}

} // verus!
