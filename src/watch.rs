use vstd::prelude::*;
use crate::files::{File, Files, has_id, ids_unique, same_watch_config};
use crate::text::{canonical, canonical_path};

verus! {

/// The parent directory of a path, as `std::path::Path` finds it.
pub uninterp spec fn parent_of(p: Seq<char>) -> Option<Seq<char>>;

/// Relies on std::path::Path::parent: the path without its last component,
/// if it has one.
#[verifier::external_body]
fn parent(p: &str) -> (r: Option<String>)
    ensures
        match r {
            Some(d) => parent_of(p@) == Some(d@),
            None => parent_of(p@) is None,
        },
{
    std::path::Path::new(p).parent().map(|d| d.to_string_lossy().into_owned())
}

/// The directory watched for a file: the parent of its canonical path, in
/// canonical form.
pub open spec fn watch_dir_of(p: Seq<char>) -> Option<Seq<char>> {
    match parent_of(canonical(p)) {
        Some(d) => Some(canonical(d)),
        None => None,
    }
}

/// The directory watched for the file at `p` (see `watch_dir_of`).
pub fn watch_dir(p: &str) -> (r: Option<String>)
    ensures
        match r {
            Some(d) => watch_dir_of(p@) == Some(d@),
            None => watch_dir_of(p@) is None,
        },
{
    let c = canonical_path(p);
    match parent(c.as_str()) {
        Some(d) => Some(canonical_path(d.as_str())),
        None => None,
    }
}

/// Whether some enabled entry lies in directory `d`, compared as canonical
/// paths.
pub open spec fn dir_needed(s: Seq<File>, d: Seq<char>) -> bool {
    exists|i: int| 0 <= i < s.len() && s[i].enabled && watch_dir_of(s[i].path@) == Some(d)
}

/// The canonical paths of the enabled entries, in order.
pub open spec fn enabled_paths(s: Seq<File>) -> Seq<Seq<char>>
    decreases s.len(),
{
    if s.len() == 0 {
        Seq::empty()
    } else if s.last().enabled {
        enabled_paths(s.drop_last()).push(canonical(s.last().path@))
    } else {
        enabled_paths(s.drop_last())
    }
}

/// What one generation of watches consists of.
#[derive(Debug, Clone)]
pub struct WatchPlan {
    /// Directories to watch, each once.
    pub dirs: Vec<String>,
    /// Paths whose change events are passed on: the enabled entries'
    /// canonical paths, then the configuration store's file.
    pub active: Vec<String>,
}

/// Whether a sequence of texts holds no text twice.
pub open spec fn distinct_texts(v: Seq<String>) -> bool {
    forall|i: int, j: int| 0 <= i < v.len() && 0 <= j < v.len() && i != j ==> v[i]@ != v[j]@
}

/// Whether a text is in a sequence of texts.
pub open spec fn contains_text(v: Seq<String>, t: Seq<char>) -> bool {
    exists|i: int| 0 <= i < v.len() && v[i]@ == t
}

fn find_text(v: &Vec<String>, t: &String) -> (r: bool)
    ensures
        r == contains_text(v@, t@),
{
    let mut i: usize = 0;
    while i < v.len()
        invariant
            i <= v@.len(),
            forall|k: int| 0 <= k < i ==> v@[k]@ != t@,
        decreases v@.len() - i,
    {
        if v[i] == *t {
            return true;
        }
        i = i + 1;
    }
    false
}

/// The watch plan for a snapshot: one watch per directory that holds an
/// enabled entry, and the paths whose events count. `store_path` is the file
/// that backs the configuration store; it is always watched on its own.
pub fn watch_plan(files: &Files, store_path: &str) -> (r: WatchPlan)
    ensures
        distinct_texts(r.dirs@),
        forall|d: Seq<char>| contains_text(r.dirs@, d) <==> dir_needed(files@, d),
        r.active@.len() == enabled_paths(files@).len() + 1,
        forall|k: int| 0 <= k < enabled_paths(files@).len()
            ==> #[trigger] r.active@[k]@ == enabled_paths(files@)[k],
        r.active@.last()@ == store_path@,
{
    let ghost s = files@;
    let mut dirs: Vec<String> = Vec::new();
    let mut active: Vec<String> = Vec::new();
    let mut i: usize = 0;
    while i < files.entries.len()
        invariant
            s == files@,
            i <= s.len(),
            distinct_texts(dirs@),
            forall|d: Seq<char>| contains_text(dirs@, d) <==> dir_needed(s.subrange(0, i as int), d),
            active@.len() == enabled_paths(s.subrange(0, i as int)).len(),
            forall|k: int| 0 <= k < active@.len()
                ==> #[trigger] active@[k]@ == enabled_paths(s.subrange(0, i as int))[k],
        decreases s.len() - i,
    {
        let ghost pre = s.subrange(0, i as int);
        let ghost next = s.subrange(0, i + 1);
        assert(next.drop_last() =~= pre);
        assert(next.last() == s[i as int]);
        let ghost dirs0 = dirs@;
        let f = &files.entries[i];
        if f.enabled {
            active.push(canonical_path(f.path.as_str()));
            match watch_dir(f.path.as_str()) {
                Some(d) => {
                    if find_text(&dirs, &d) {
                        assert(contains_text(dirs@, d@));
                    } else {
                        let ghost old_dirs = dirs@;
                        dirs.push(d);
                        assert forall|x: Seq<char>| contains_text(dirs@, x) <==> contains_text(old_dirs, x)
                            || x == watch_dir_of(s[i as int].path@)->Some_0 by {
                            if contains_text(old_dirs, x) {
                                let k = choose|k: int| 0 <= k < old_dirs.len() && old_dirs[k]@ == x;
                                assert(dirs@[k]@ == x);
                            }
                            if x == watch_dir_of(s[i as int].path@)->Some_0 {
                                assert(dirs@[old_dirs.len() as int]@ == x);
                            }
                            if contains_text(dirs@, x) {
                                let k = choose|k: int| 0 <= k < dirs@.len() && dirs@[k]@ == x;
                                if k < old_dirs.len() {
                                    assert(old_dirs[k]@ == x);
                                }
                            }
                        }
                    }
                },
                None => {},
            }
        }
        assert forall|d: Seq<char>| dir_needed(next, d) <==> dir_needed(pre, d)
            || (s[i as int].enabled && watch_dir_of(s[i as int].path@) == Some(d)) by {
            if dir_needed(next, d) {
                let k = choose|k: int| 0 <= k < next.len() && next[k].enabled && watch_dir_of(next[k].path@) == Some(d);
                if k < i {
                    assert(pre[k] == next[k]);
                }
            }
            if dir_needed(pre, d) {
                let k = choose|k: int| 0 <= k < pre.len() && pre[k].enabled && watch_dir_of(pre[k].path@) == Some(d);
                assert(next[k] == pre[k]);
            }
            if s[i as int].enabled && watch_dir_of(s[i as int].path@) == Some(d) {
                assert(next[i as int] == s[i as int]);
            }
        }
        assert forall|x: Seq<char>| contains_text(dirs@, x) <==> dir_needed(next, x) by {
            assert(contains_text(dirs0, x) <==> dir_needed(pre, x));
        }
        i = i + 1;
    }
    assert(s.subrange(0, s.len() as int) =~= s);
    active.push(String::from_str(store_path));
    WatchPlan { dirs, active }
}

/// A directory that could not be watched, and why.
#[derive(Debug, Clone)]
pub struct WatchFailure {
    pub dir: String,
    pub error: String,
}

/// The error recorded for directory `d`: that of the last failure about it.
pub open spec fn failure_for(fs: Seq<WatchFailure>, d: Seq<char>) -> Option<Seq<char>>
    decreases fs.len(),
{
    if fs.len() == 0 {
        None
    } else if fs.last().dir@ == d {
        Some(fs.last().error@)
    } else {
        failure_for(fs.drop_last(), d)
    }
}

/// How a failed watch changes an entry: an enabled entry whose directory
/// failed takes the error as its update state and is disabled; any other
/// entry stays as it is.
pub open spec fn failure_applied(before: File, after: File, fs: Seq<WatchFailure>) -> bool {
    if before.enabled && watch_dir_of(before.path@) is Some
        && failure_for(fs, watch_dir_of(before.path@)->Some_0) is Some {
        &&& after.id == before.id
        &&& after.name == before.name
        &&& after.path == before.path
        &&& after.mqtt_topic == before.mqtt_topic
        &&& after.last_update_utc == before.last_update_utc
        &&& after.last_version == before.last_version
        &&& !after.enabled
        &&& after.update_state@ == failure_for(fs, watch_dir_of(before.path@)->Some_0)->Some_0
    } else {
        after == before
    }
}

fn lookup_failure(fs: &Vec<WatchFailure>, d: &String) -> (r: Option<String>)
    ensures
        match r {
            Some(e) => failure_for(fs@, d@) == Some(e@),
            None => failure_for(fs@, d@) is None,
        },
{
    let mut found: Option<String> = None;
    let mut i: usize = 0;
    while i < fs.len()
        invariant
            i <= fs@.len(),
            match found {
                Some(e) => failure_for(fs@.subrange(0, i as int), d@) == Some(e@),
                None => failure_for(fs@.subrange(0, i as int), d@) is None,
            },
        decreases fs@.len() - i,
    {
        assert(fs@.subrange(0, i + 1).drop_last() =~= fs@.subrange(0, i as int));
        if fs[i].dir == *d {
            found = Some(fs[i].error.clone());
        }
        i = i + 1;
    }
    assert(fs@.subrange(0, fs@.len() as int) =~= fs@);
    found
}

/// Records failed directory watches on the entries they concern, so that
/// one failure never stops the other watches.
pub fn record_watch_failures(files: &mut Files, failures: &Vec<WatchFailure>)
    requires
        old(files).wf(),
    ensures
        final(files).wf(),
        final(files)@.len() == old(files)@.len(),
        forall|i: int| 0 <= i < old(files)@.len()
            ==> failure_applied(#[trigger] old(files)@[i], final(files)@[i], failures@),
{
    let ghost before = files@;
    let n = files.entries.len();
    let mut i: usize = 0;
    while i < n
        invariant
            n == before.len(),
            i <= n,
            files@.len() == n,
            ids_unique(before),
            forall|j: int| 0 <= j < n ==> files@[j].id == before[j].id,
            forall|j: int| i <= j < n ==> files@[j] == before[j],
            forall|j: int| 0 <= j < i ==> failure_applied(#[trigger] before[j], files@[j], failures@),
        decreases n - i,
    {
        if files.entries[i].enabled {
            match watch_dir(files.entries[i].path.as_str()) {
                Some(d) => {
                    match lookup_failure(failures, &d) {
                        Some(e) => {
                            let mut f = files.entries[i].snapshot();
                            f.update_state = e;
                            f.enabled = false;
                            files.entries.set(i, f);
                        },
                        None => {},
                    }
                },
                None => {},
            }
        }
        i = i + 1;
    }
    assert forall|a: int, b: int| 0 <= a < n && 0 <= b < n && a != b
        implies files@[a].id != files@[b].id by {
        assert(files@[a].id == before[a].id);
        assert(files@[b].id == before[b].id);
    }
}

/// Passes on a change event only where its canonical path is active; the
/// canonical path is what goes on.
pub fn accept_event(active: &Vec<String>, raw: &str) -> (r: Option<String>)
    ensures
        match r {
            Some(p) => p@ == canonical(raw@) && contains_text(active@, p@),
            None => !contains_text(active@, canonical(raw@)),
        },
{
    let p = canonical_path(raw);
    if find_text(active, &p) {
        Some(p)
    } else {
        None
    }
}

/// Two snapshots with the same watch configuration: the same ids, and equal
/// watch configuration under each id.
pub open spec fn same_config(a: Seq<File>, b: Seq<File>) -> bool {
    &&& forall|id: u128| has_id(a, id) <==> has_id(b, id)
    &&& forall|i: int, j: int| 0 <= i < a.len() && 0 <= j < b.len() && a[i].id == b[j].id
        ==> same_watch_config(a[i], b[j])
}

/// Every id of `a` is in `b`, with an equal watch configuration.
pub open spec fn covers(a: Seq<File>, b: Seq<File>) -> bool {
    &&& forall|i: int| 0 <= i < a.len() ==> has_id(b, #[trigger] a[i].id)
    &&& forall|i: int, j: int| 0 <= i < a.len() && 0 <= j < b.len() && a[i].id == b[j].id
        ==> same_watch_config(a[i], b[j])
}

fn covered_by(a: &Files, b: &Files) -> (r: bool)
    requires
        ids_unique(b@),
    ensures
        r == covers(a@, b@),
{
    let mut i: usize = 0;
    while i < a.entries.len()
        invariant
            ids_unique(b@),
            i <= a@.len(),
            forall|k: int| 0 <= k < i ==> has_id(b@, #[trigger] a@[k].id),
            forall|k: int, j: int| 0 <= k < i && 0 <= j < b@.len() && a@[k].id == b@[j].id
                ==> same_watch_config(a@[k], b@[j]),
        decreases a@.len() - i,
    {
        match b.position(a.entries[i].id) {
            Some(j) => {
                if a.entries[i] != b.entries[j] {
                    assert(!same_watch_config(a@[i as int], b@[j as int]));
                    assert(!covers(a@, b@));
                    return false;
                }
            },
            None => {
                assert(!has_id(b@, a@[i as int].id));
                assert(!covers(a@, b@));
                return false;
            },
        }
        i = i + 1;
    }
    true
}

/// Whether two snapshots have the same watch configuration.
pub fn same_files(a: &Files, b: &Files) -> (r: bool)
    requires
        a.wf(),
        b.wf(),
    ensures
        r == same_config(a@, b@),
{
    let ab = covered_by(a, b);
    let ba = covered_by(b, a);
    proof {
        if ab && ba {
            assert forall|id: u128| has_id(a@, id) <==> has_id(b@, id) by {
                if has_id(a@, id) {
                    let i = choose|i: int| 0 <= i < a@.len() && a@[i].id == id;
                    assert(has_id(b@, a@[i].id));
                }
                if has_id(b@, id) {
                    let i = choose|i: int| 0 <= i < b@.len() && b@[i].id == id;
                    assert(has_id(a@, b@[i].id));
                }
            }
        } else if !ab {
            if !(forall|i: int| 0 <= i < a@.len() ==> has_id(b@, #[trigger] a@[i].id)) {
                let i = choose|i: int| 0 <= i < a@.len() && !has_id(b@, #[trigger] a@[i].id);
                assert(has_id(a@, a@[i].id));
            }
        } else {
            if !(forall|i: int| 0 <= i < b@.len() ==> has_id(a@, #[trigger] b@[i].id)) {
                let i = choose|i: int| 0 <= i < b@.len() && !has_id(a@, #[trigger] b@[i].id);
                assert(has_id(b@, b@[i].id));
            } else {
                let (i, j) = choose|i: int, j: int| 0 <= i < b@.len() && 0 <= j < a@.len()
                    && b@[i].id == a@[j].id && !same_watch_config(b@[i], a@[j]);
                assert(!same_watch_config(a@[j], b@[i]));
            }
        }
    }
    ab && ba
}

/// The position of the entry with this id, where there is one.
pub open spec fn index_of(s: Seq<File>, id: u128) -> int {
    choose|k: int| 0 <= k < s.len() && s[k].id == id
}

/// The paths to resolve again after a configuration change: for each
/// enabled new entry, in order, whose id was known with another watch
/// configuration, the path that the known entry had.
pub open spec fn reread_paths(cur: Seq<File>, new: Seq<File>) -> Seq<Seq<char>>
    decreases new.len(),
{
    if new.len() == 0 {
        Seq::empty()
    } else {
        let rest = reread_paths(cur, new.drop_last());
        let f = new.last();
        if f.enabled && has_id(cur, f.id) && !same_watch_config(cur[index_of(cur, f.id)], f) {
            rest.push(cur[index_of(cur, f.id)].path@)
        } else {
            rest
        }
    }
}

/// What a refresh of the watch engine asks of its runner.
#[derive(Debug, Clone)]
pub enum WatchRefresh {
    /// The watch configuration is unchanged: keep the live watches.
    Keep,
    /// Abort the watch task `cancel` without waiting for it, start task
    /// `start` on the plan of the new snapshot, and resolve the versions at
    /// `reread` again.
    Restart { cancel: u64, start: u64, reread: Vec<String> },
}

/// The watch engine: the snapshot its live watches were made from, and the
/// number of the task that runs them.
#[derive(Debug, Clone)]
pub struct FileWatcher {
    pub current_file_config: Files,
    pub watcher_thread: u64,
}

impl FileWatcher {
    pub open spec fn wf(&self) -> bool {
        self.current_file_config.wf()
    }

    /// The engine for a snapshot, with its first task numbered 0.
    pub fn init(files: Files) -> (r: FileWatcher)
        requires
            files.wf(),
        ensures
            r.wf(),
            r.current_file_config == files,
            r.watcher_thread == 0,
    {
        FileWatcher { current_file_config: files, watcher_thread: 0 }
    }

    /// Brings the engine in line with the latest snapshot. Where the watch
    /// configuration is unchanged nothing changes; otherwise exactly the
    /// current task is cancelled, a new one is started and the new snapshot
    /// becomes current.
    pub fn refresh(&mut self, new_files: Files) -> (r: WatchRefresh)
        requires
            old(self).wf(),
            new_files.wf(),
        ensures
            final(self).wf(),
            same_config(old(self).current_file_config@, new_files@) ==> {
                &&& r is Keep
                &&& *final(self) == *old(self)
            },
            !same_config(old(self).current_file_config@, new_files@) ==> {
                &&& r matches WatchRefresh::Restart { cancel, start, reread }
                &&& cancel == old(self).watcher_thread
                &&& start == final(self).watcher_thread
                &&& start != cancel
                &&& final(self).current_file_config == new_files
                &&& reread@.len() == reread_paths(old(self).current_file_config@, new_files@).len()
                &&& forall|k: int| 0 <= k < reread@.len() ==> #[trigger] reread@[k]@
                    == reread_paths(old(self).current_file_config@, new_files@)[k]
            },
    {
        if same_files(&self.current_file_config, &new_files) {
            return WatchRefresh::Keep;
        }
        let ghost cur = self.current_file_config@;
        let ghost nw = new_files@;
        let mut reread: Vec<String> = Vec::new();
        let mut i: usize = 0;
        while i < new_files.entries.len()
            invariant
                cur == self.current_file_config@,
                ids_unique(cur),
                nw == new_files@,
                i <= nw.len(),
                reread@.len() == reread_paths(cur, nw.subrange(0, i as int)).len(),
                forall|k: int| 0 <= k < reread@.len()
                    ==> #[trigger] reread@[k]@ == reread_paths(cur, nw.subrange(0, i as int))[k],
            decreases nw.len() - i,
        {
            assert(nw.subrange(0, i + 1).drop_last() =~= nw.subrange(0, i as int));
            assert(nw.subrange(0, i + 1).last() == nw[i as int]);
            let f = &new_files.entries[i];
            if f.enabled {
                match self.current_file_config.position(f.id) {
                    Some(k) => {
                        proof {
                            let c = index_of(cur, f.id);
                            assert(0 <= c < cur.len() && cur[c].id == f.id);
                            assert(c == k);
                        }
                        if self.current_file_config.entries[k] != *f {
                            reread.push(self.current_file_config.entries[k].path.clone());
                        }
                    },
                    None => {},
                }
            }
            i = i + 1;
        }
        assert(nw.subrange(0, nw.len() as int) =~= nw);
        let cancel = self.watcher_thread;
        let start = cancel.wrapping_add(1);
        self.current_file_config = new_files;
        self.watcher_thread = start;
        WatchRefresh::Restart { cancel, start, reread }
    }
}

} // verus!
