//! The watcher's debounce logic: raw, bursty filesystem notifications
//! become one `Detected` event per file, emitted only after the file has
//! been quiet for the configured interval. The pending map lives here as
//! verified state; the OS notification source, the periodic tick and the
//! stat calls live outside this crate and only feed plain values in.

use vstd::prelude::*;
use crate::event::FileEvent;
use crate::strutil::{lower_seq, spec_extension, spec_has_extension, str_eq};

verus! {

#[derive(Clone, Debug)]
pub enum WatcherError {
    /// Registering the watch failed; fatal for this pipeline instance.
    WatchError(String),
}

/// A path is hidden when any of its '/'-separated components begins
/// with '.'.
pub open spec fn spec_hidden(path: Seq<char>) -> bool {
    exists|i: int| 0 <= i < path.len() && #[trigger] path[i] == '.' && (i == 0 || path[i - 1] == '/')
}

/// Whether any component of `path` begins with '.'.
pub fn is_hidden_path(path: &str) -> (r: bool)
    ensures
        r == spec_hidden(path@),
{
    let n: usize = path.unicode_len();
    let mut i: usize = 0;
    while i < n
        invariant
            n == path@.len(),
            i <= n,
            forall|j: int|
                0 <= j < i ==> !(#[trigger] path@[j] == '.' && (j == 0 || path@[j - 1] == '/')),
        decreases n - i,
    {
        if path.get_char(i) == '.' {
            if i == 0 || path.get_char(i - 1) == '/' {
                return true;
            }
        }
        i = i + 1;
    }
    false
}

/// Which paths the watcher refuses to track: hidden ones, and those
/// whose extension is in the configured ignore set (a file without an
/// extension is never ignored by extension).
pub open spec fn spec_ignored(path: Seq<char>, ignore: Seq<String>) -> bool {
    spec_hidden(path) || (spec_has_extension(path) && exists|i: int|
        0 <= i < ignore.len() && lower_seq(ignore[i]@) == lower_seq(spec_extension(path)))
}

/// Whether the watcher ignores `path`, as `spec_ignored` describes.
pub fn should_ignore(path: &str, ignore_extensions: &Vec<String>) -> (r: bool)
    ensures
        r == spec_ignored(path@, ignore_extensions@),
{
    if is_hidden_path(path) {
        return true;
    }
    let has_ext = {
        let name = crate::strutil::file_name_of(path);
        match crate::strutil::find_last(name.as_str(), '.') {
            Some(d) => d > 0,
            None => false,
        }
    };
    if !has_ext {
        return false;
    }
    let ext = crate::strutil::extension_of(path);
    crate::strutil::contains_ignore_case(ignore_extensions, ext.as_str())
}

/// The event emitted for a path that stayed quiet through its debounce
/// interval and was then re-checked on disk: a zero-size file is
/// silently dropped (assumed an incomplete write or a placeholder).
pub fn detected_event(path: String, size: u64) -> (r: Option<FileEvent>)
    ensures
        size == 0 ==> r is None,
        size > 0 ==> (r matches Some(FileEvent::Detected { path: p, size: s }) && p@ == path@
            && s == size),
{
    if size == 0 {
        None
    } else {
        Some(FileEvent::Detected { path, size })
    }
}

/// One tracked file: its path and when activity was last seen on it,
/// in milliseconds of a monotonic clock supplied by the caller.
pub struct PendingEntry {
    pub path: String,
    pub last_seen_ms: u64,
}

/// Index of the entry with key `p`, or -1 (under unique keys, the
/// index).
pub open spec fn key_index(s: Seq<(Seq<char>, u64)>, p: Seq<char>) -> int
    decreases s.len(),
{
    if s.len() == 0 {
        -1
    } else if s.last().0 == p {
        s.len() - 1
    } else {
        key_index(s.drop_last(), p)
    }
}

pub proof fn lemma_key_index(s: Seq<(Seq<char>, u64)>, p: Seq<char>)
    ensures
        -1 <= key_index(s, p) < s.len(),
        key_index(s, p) >= 0 ==> s[key_index(s, p)].0 == p,
        key_index(s, p) == -1 ==> forall|j: int| 0 <= j < s.len() ==> (#[trigger] s[j]).0 != p,
        forall|j: int| 0 <= j < s.len() && (#[trigger] s[j]).0 == p ==> key_index(s, p) >= j,
    decreases s.len(),
{
    if s.len() > 0 && s.last().0 != p {
        lemma_key_index(s.drop_last(), p);
        assert(forall|j: int| 0 <= j < s.len() - 1 ==> s.drop_last()[j] == s[j]);
    }
}

/// What notifying activity on `p` at time `now` does to the pending
/// entries: refresh the entry holding `p`, or append a new one.
pub open spec fn spec_note(s: Seq<(Seq<char>, u64)>, p: Seq<char>, now: u64) -> Seq<
    (Seq<char>, u64),
> {
    if key_index(s, p) >= 0 {
        s.update(key_index(s, p), (p, now))
    } else {
        s.push((p, now))
    }
}

/// An entry is ready at `now` when its last activity lies at least
/// `debounce_ms` in the past.
pub open spec fn is_ready(e: (Seq<char>, u64), now: u64, debounce_ms: u64) -> bool {
    e.1 + debounce_ms <= now
}

/// The paths of the entries that are ready, in insertion order.
pub open spec fn ready_keys(s: Seq<(Seq<char>, u64)>, now: u64, debounce_ms: u64) -> Seq<
    Seq<char>,
>
    decreases s.len(),
{
    if s.len() == 0 {
        Seq::empty()
    } else {
        let rest = ready_keys(s.drop_last(), now, debounce_ms);
        if is_ready(s.last(), now, debounce_ms) {
            rest.push(s.last().0)
        } else {
            rest
        }
    }
}

/// The entries that are not yet ready, in insertion order.
pub open spec fn still_waiting(s: Seq<(Seq<char>, u64)>, now: u64, debounce_ms: u64) -> Seq<
    (Seq<char>, u64),
>
    decreases s.len(),
{
    if s.len() == 0 {
        Seq::empty()
    } else {
        let rest = still_waiting(s.drop_last(), now, debounce_ms);
        if is_ready(s.last(), now, debounce_ms) {
            rest
        } else {
            rest.push(s.last())
        }
    }
}

/// Keys pairwise distinct.
pub open spec fn keys_unique(s: Seq<(Seq<char>, u64)>) -> bool {
    forall|a: int, b: int| 0 <= a < b < s.len() ==> (#[trigger] s[a]).0 != (#[trigger] s[b]).0
}

proof fn lemma_still_waiting_member(s: Seq<(Seq<char>, u64)>, now: u64, debounce_ms: u64, p: Seq<char>)
    requires
        key_index(still_waiting(s, now, debounce_ms), p) >= 0,
    ensures
        key_index(s, p) >= 0,
    decreases s.len(),
{
    let w = still_waiting(s, now, debounce_ms);
    lemma_key_index(w, p);
    lemma_key_index(s, p);
    if s.len() == 0 {
        assert(false);
    } else {
        let dl = s.drop_last();
        let rest = still_waiting(dl, now, debounce_ms);
        lemma_key_index(rest, p);
        let ki = key_index(w, p);
        if !is_ready(s.last(), now, debounce_ms) && ki == w.len() - 1 {
            assert(s.last().0 == p);
            assert(s[s.len() - 1].0 == p);
        } else {
            assert(rest[ki].0 == p);
            assert(key_index(rest, p) >= 0);
            lemma_still_waiting_member(dl, now, debounce_ms, p);
            lemma_key_index(dl, p);
            let kd = key_index(dl, p);
            assert(dl[kd] == s[kd]);
            assert(s[kd].0 == p);
        }
    }
}

proof fn lemma_still_waiting_unique(s: Seq<(Seq<char>, u64)>, now: u64, debounce_ms: u64)
    requires
        keys_unique(s),
    ensures
        keys_unique(still_waiting(s, now, debounce_ms)),
    decreases s.len(),
{
    if s.len() > 0 {
        let dl = s.drop_last();
        assert(forall|j: int| 0 <= j < s.len() - 1 ==> dl[j] == s[j]);
        assert(keys_unique(dl));
        lemma_still_waiting_unique(dl, now, debounce_ms);
        let w = still_waiting(s, now, debounce_ms);
        let rest = still_waiting(dl, now, debounce_ms);
        if !is_ready(s.last(), now, debounce_ms) {
            lemma_key_index(rest, s.last().0);
            if key_index(rest, s.last().0) >= 0 {
                lemma_still_waiting_member(dl, now, debounce_ms, s.last().0);
                lemma_key_index(dl, s.last().0);
                let kd = key_index(dl, s.last().0);
                assert(s[kd].0 == s[s.len() - 1].0);
                assert(false);
            }
            assert forall|a: int, b: int| 0 <= a < b < w.len() implies (#[trigger] w[a]).0 != (
            #[trigger] w[b]).0 by {
                if b == w.len() - 1 {
                    if w[a].0 == s.last().0 {
                        assert(rest[a].0 == s.last().0);
                        assert(key_index(rest, s.last().0) >= a);
                    }
                }
            }
        }
    }
}

proof fn lemma_ready_keys_member(s: Seq<(Seq<char>, u64)>, now: u64, debounce_ms: u64, p: Seq<char>)
    ensures
        ready_keys(s, now, debounce_ms).contains(p) <==> exists|i: int|
            0 <= i < s.len() && (#[trigger] s[i]).0 == p && is_ready(s[i], now, debounce_ms),
    decreases s.len(),
{
    if s.len() > 0 {
        lemma_ready_keys_member(s.drop_last(), now, debounce_ms, p);
        assert(forall|i: int| 0 <= i < s.len() - 1 ==> s.drop_last()[i] == s[i]);
        let rk = ready_keys(s, now, debounce_ms);
        let rest = ready_keys(s.drop_last(), now, debounce_ms);
        if is_ready(s.last(), now, debounce_ms) {
            assert(rk =~= rest.push(s.last().0));
            if s.last().0 == p {
                assert(s[s.len() - 1].0 == p);
                assert(rk.contains(p)) by {
                    assert(rk[rk.len() - 1] == p);
                }
            }
        }
        if rk.contains(p) {
            let j = choose|j: int| 0 <= j < rk.len() && rk[j] == p;
            if is_ready(s.last(), now, debounce_ms) && j == rk.len() - 1 {
                assert(s[s.len() - 1].0 == p);
            } else {
                assert(rest[j] == p);
                assert(rest.contains(p));
            }
        }
        if exists|i: int|
            0 <= i < s.len() && (#[trigger] s[i]).0 == p && is_ready(s[i], now, debounce_ms) {
            let i = choose|i: int|
                0 <= i < s.len() && (#[trigger] s[i]).0 == p && is_ready(s[i], now, debounce_ms);
            if i < s.len() - 1 {
                assert(s.drop_last()[i].0 == p && is_ready(s.drop_last()[i], now, debounce_ms));
                assert(rest.contains(p));
                let j = choose|j: int| 0 <= j < rest.len() && rest[j] == p;
                if is_ready(s.last(), now, debounce_ms) {
                    assert(rk[j] == p);
                } else {
                    assert(rk == rest);
                }
            }
        }
    }
}

/// Law: noting new activity on a path at time `t` keeps that path out
/// of the ready set until its full debounce interval has elapsed again —
/// however many earlier notifications the path had, a fresh one means no
/// detection before `t + debounce_ms`.
pub proof fn lemma_note_resets_quiet_period(
    s: Seq<(Seq<char>, u64)>,
    p: Seq<char>,
    t: u64,
    now: u64,
    debounce_ms: u64,
)
    requires
        keys_unique(s),
        now < t + debounce_ms,
    ensures
        !ready_keys(spec_note(s, p, t), now, debounce_ms).contains(p),
{
    lemma_key_index(s, p);
    let noted = spec_note(s, p, t);
    lemma_ready_keys_member(noted, now, debounce_ms, p);
    if ready_keys(noted, now, debounce_ms).contains(p) {
        let i = choose|i: int|
            0 <= i < noted.len() && (#[trigger] noted[i]).0 == p && is_ready(
                noted[i],
                now,
                debounce_ms,
            );
        let ki = key_index(s, p);
        if ki >= 0 {
            if i != ki {
                assert(noted[i] == s[i]);
                assert(s[i].0 == p && s[ki].0 == p);
                assert(false);
            }
            assert(noted[ki] == (p, t));
            assert(false);
        } else {
            if i < s.len() {
                assert(noted[i] == s[i]);
                assert(s[i].0 == p);
                assert(false);
            }
            assert(noted[i] == (p, t));
            assert(false);
        }
    }
}

/// Law: one stability tick hands each path out at most once — the ready
/// paths of a pending map with unique keys are pairwise distinct, so a
/// file never yields two `Detected` events from one tick.
pub proof fn lemma_ready_keys_distinct(s: Seq<(Seq<char>, u64)>, now: u64, debounce_ms: u64)
    requires
        keys_unique(s),
    ensures
        forall|i: int, j: int|
            0 <= i < j < ready_keys(s, now, debounce_ms).len() ==> ready_keys(
                s,
                now,
                debounce_ms,
            )[i] != ready_keys(s, now, debounce_ms)[j],
    decreases s.len(),
{
    if s.len() > 0 {
        let dl = s.drop_last();
        assert(forall|i: int| 0 <= i < s.len() - 1 ==> dl[i] == s[i]);
        assert(keys_unique(dl));
        lemma_ready_keys_distinct(dl, now, debounce_ms);
        let rk = ready_keys(s, now, debounce_ms);
        let rest = ready_keys(dl, now, debounce_ms);
        if is_ready(s.last(), now, debounce_ms) {
            lemma_ready_keys_member(dl, now, debounce_ms, s.last().0);
            if rest.contains(s.last().0) {
                let i = choose|i: int|
                    0 <= i < dl.len() && (#[trigger] dl[i]).0 == s.last().0 && is_ready(
                        dl[i],
                        now,
                        debounce_ms,
                    );
                assert(s[i].0 == s[s.len() - 1].0);
                assert(false);
            }
            assert forall|i: int, j: int| 0 <= i < j < rk.len() implies rk[i] != rk[j] by {
                if j == rk.len() - 1 {
                    if rk[i] == s.last().0 {
                        assert(rest[i] == s.last().0);
                        assert(rest.contains(s.last().0));
                    }
                }
            }
        }
    }
}

/// The watcher's pending map: for every file with recent activity, when
/// that activity was last seen. Ephemeral, in-memory state private to
/// the watcher stage.
pub struct PendingFiles {
    pub entries: Vec<PendingEntry>,
}

impl PendingFiles {
    /// The tracked (path, last-seen) pairs, in insertion order.
    pub open spec fn view(self) -> Seq<(Seq<char>, u64)> {
        self.entries@.map_values(|e: PendingEntry| (e.path@, e.last_seen_ms))
    }

    /// Paths are tracked at most once.
    pub open spec fn wf(self) -> bool {
        keys_unique(self.view())
    }

    pub fn new() -> (r: PendingFiles)
        ensures
            r.wf(),
            r.view() =~= Seq::<(Seq<char>, u64)>::empty(),
    {
        PendingFiles { entries: Vec::new() }
    }

    pub fn len(&self) -> (r: usize)
        ensures
            r == self.view().len(),
    {
        self.entries.len()
    }

    pub fn is_empty(&self) -> (r: bool)
        ensures
            r == (self.view().len() == 0),
    {
        self.entries.len() == 0
    }

    /// Record raw notification activity on `path` at time `now_ms`:
    /// refresh the path's last-seen time, inserting it when absent.
    pub fn note(&mut self, path: &str, now_ms: u64)
        requires
            old(self).wf(),
        ensures
            final(self).wf(),
            final(self).view() =~= spec_note(old(self).view(), path@, now_ms),
    {
        let n: usize = self.entries.len();
        let mut i: usize = 0;
        while i < n
            invariant
                n == self.entries@.len(),
                i <= n,
                *self == *old(self),
                old(self).wf(),
                forall|j: int| 0 <= j < i ==> (#[trigger] self.view()[j]).0 != path@,
            decreases n - i,
        {
            if str_eq(self.entries[i].path.as_str(), path) {
                assert(self.view()[i as int].0 == path@);
                proof {
                    lemma_key_index(self.view(), path@);
                    let ki = key_index(self.view(), path@);
                    assert(ki >= i);
                    if ki > i {
                        assert(self.view()[i as int].0 == self.view()[ki].0);
                        assert(false);
                    }
                }
                self.entries.remove(i);
                self.entries.insert(i, PendingEntry { path: path.to_owned(), last_seen_ms: now_ms });
                assert(self.view() =~= spec_note(old(self).view(), path@, now_ms));
                return ;
            }
            i = i + 1;
        }
        proof {
            lemma_key_index(self.view(), path@);
            let ki = key_index(self.view(), path@);
            if ki >= 0 {
                assert(self.view()[ki].0 == path@);
                assert(false);
            }
        }
        self.entries.push(PendingEntry { path: path.to_owned(), last_seen_ms: now_ms });
        assert(self.view() =~= spec_note(old(self).view(), path@, now_ms));
    }

    /// Remove and return the paths that have been quiet for at least
    /// `debounce_ms` at time `now_ms`, in insertion order; everything
    /// younger stays tracked.
    pub fn take_ready(&mut self, now_ms: u64, debounce_ms: u64) -> (r: Vec<String>)
        requires
            old(self).wf(),
        ensures
            final(self).wf(),
            r@.len() == ready_keys(old(self).view(), now_ms, debounce_ms).len(),
            forall|i: int|
                0 <= i < r@.len() ==> (#[trigger] r@[i])@ == ready_keys(
                    old(self).view(),
                    now_ms,
                    debounce_ms,
                )[i],
            final(self).view() =~= still_waiting(old(self).view(), now_ms, debounce_ms),
    {
        let n: usize = self.entries.len();
        let mut ready: Vec<String> = Vec::new();
        let mut kept: Vec<PendingEntry> = Vec::new();
        let mut i: usize = 0;
        while i < n
            invariant
                n == self.entries@.len(),
                i <= n,
                self.view() == old(self).view(),
                ready@.len() == ready_keys(
                    old(self).view().take(i as int),
                    now_ms,
                    debounce_ms,
                ).len(),
                forall|j: int|
                    0 <= j < ready@.len() ==> (#[trigger] ready@[j])@ == ready_keys(
                        old(self).view().take(i as int),
                        now_ms,
                        debounce_ms,
                    )[j],
                kept@.map_values(|e: PendingEntry| (e.path@, e.last_seen_ms)) =~= still_waiting(
                    old(self).view().take(i as int),
                    now_ms,
                    debounce_ms,
                ),
            decreases n - i,
        {
            proof {
                assert(old(self).view().take(i + 1 as int).drop_last() =~= old(self).view().take(
                    i as int,
                ));
                assert(old(self).view().take(i + 1 as int).last() == old(self).view()[i as int]);
            }
            let e = &self.entries[i];
            if debounce_ms <= now_ms && e.last_seen_ms <= now_ms - debounce_ms {
                ready.push(e.path.clone());
            } else {
                kept.push(PendingEntry { path: e.path.clone(), last_seen_ms: e.last_seen_ms });
            }
            i = i + 1;
        }
        proof {
            assert(old(self).view().take(n as int) =~= old(self).view());
            lemma_still_waiting_unique(old(self).view(), now_ms, debounce_ms);
        }
        self.entries = kept;
        ready
    }

    /// Remove and return every tracked path, in insertion order — the
    /// shutdown flush, so that no pending file is silently lost.
    pub fn drain_all(&mut self) -> (r: Vec<String>)
        ensures
            final(self).view() =~= Seq::<(Seq<char>, u64)>::empty(),
            r@.len() == old(self).view().len(),
            forall|i: int| 0 <= i < r@.len() ==> (#[trigger] r@[i])@ == old(self).view()[i].0,
    {
        let n: usize = self.entries.len();
        let mut out: Vec<String> = Vec::new();
        let mut i: usize = 0;
        while i < n
            invariant
                n == self.entries@.len(),
                i <= n,
                *self == *old(self),
                out@.len() == i,
                forall|j: int| 0 <= j < i ==> (#[trigger] out@[j])@ == old(self).view()[j].0,
            decreases n - i,
        {
            out.push(self.entries[i].path.clone());
            i = i + 1;
        }
        self.entries = Vec::new();
        out
    }
}

} // verus!
