//! Which file-system events about database files are reported: only `.db`
//! files, each path at most once in two seconds.

use vstd::prelude::*;
use crate::strutil::str_eq;

verus! {

/// A change to a database file.
#[derive(Debug, Clone)]
pub enum FileChangeEvent {
    /// The file was modified.
    DatabaseModified { path: String, db_name: String },
    /// The file was created.
    DatabaseCreated { path: String, db_name: String },
    /// The file was deleted.
    DatabaseDeleted { path: String, db_name: String },
}

/// The kind of a file-system event.
#[derive(Debug, Clone, Copy, PartialEq, Eq, Structural)]
pub enum FsEventKind {
    Modify,
    Create,
    Remove,
    Other,
}

/// A path named by a file-system event.
#[derive(Debug, Clone)]
pub struct EventPath {
    /// The path as text.
    pub path: String,
    /// Its extension, if it has one.
    pub extension: Option<String>,
    /// Its file name (empty when it has none).
    pub file_name: String,
}

/// The view of a change: (kind, path, database name).
pub open spec fn change_view(e: FileChangeEvent) -> (FsEventKind, Seq<char>, Seq<char>) {
    match e {
        FileChangeEvent::DatabaseModified { path, db_name } => (FsEventKind::Modify, path@, db_name@),
        FileChangeEvent::DatabaseCreated { path, db_name } => (FsEventKind::Create, path@, db_name@),
        FileChangeEvent::DatabaseDeleted { path, db_name } => (FsEventKind::Remove, path@, db_name@),
    }
}

/// The debounce window, in milliseconds.
pub open spec fn debounce_ms() -> nat {
    2000
}

/// When each path was last reported (or last seen), in milliseconds.
pub struct Debouncer {
    last: Vec<(String, u64)>,
}

/// The last time recorded for a path (the latest entry wins).
pub open spec fn last_seen(entries: Seq<(Seq<char>, u64)>, path: Seq<char>) -> Option<u64>
    decreases entries.len(),
{
    if entries.len() == 0 {
        None
    } else if entries.last().0 == path {
        Some(entries.last().1)
    } else {
        last_seen(entries.drop_last(), path)
    }
}

/// Whether a path is a database file: its extension is `db`.
pub open spec fn is_db_path(p: EventPath) -> bool {
    p.extension matches Some(e) && e@ == "db"@
}

/// Whether a path seen at `now` falls within the window of its last time.
pub open spec fn debounced(entries: Seq<(Seq<char>, u64)>, path: Seq<char>, now: u64) -> bool {
    last_seen(entries, path) matches Some(t) && t <= now && now - t < debounce_ms()
}

/// The changes an event reports and the times afterwards, path by path:
/// database paths outside their window are recorded at `now` and reported
/// as the event's kind (nothing for other kinds).
pub open spec fn filter_spec(entries: Seq<(Seq<char>, u64)>, kind: FsEventKind, paths: Seq<EventPath>, now: u64)
    -> (Seq<(FsEventKind, Seq<char>, Seq<char>)>, Seq<(Seq<char>, u64)>)
    decreases paths.len(),
{
    if paths.len() == 0 {
        (Seq::empty(), entries)
    } else {
        let (out, es) = filter_spec(entries, kind, paths.drop_last(), now);
        let p = paths.last();
        if !is_db_path(p) || debounced(es, p.path@, now) {
            (out, es)
        } else if kind == FsEventKind::Other {
            (out, es.push((p.path@, now)))
        } else {
            (out.push((kind, p.path@, p.file_name@)), es.push((p.path@, now)))
        }
    }
}

impl Debouncer {
    /// The recorded times.
    pub closed spec fn entries(&self) -> Seq<(Seq<char>, u64)> {
        self.last@.map_values(|e: (String, u64)| (e.0@, e.1))
    }

    /// No path recorded.
    pub fn new() -> (r: Self)
        ensures
            r.entries() == Seq::<(Seq<char>, u64)>::empty(),
    {
        let r = Debouncer { last: Vec::new() };
        assert(r.entries() =~= Seq::<(Seq<char>, u64)>::empty());
        r
    }

    fn last_time(&self, path: &str) -> (r: Option<u64>)
        ensures
            r == last_seen(self.entries(), path@),
    {
        let ghost es = self.entries();
        let mut i = self.last.len();
        assert(es.take(i as int) =~= es);
        while i > 0
            invariant
                i <= self.last@.len(),
                es == self.entries(),
                last_seen(es, path@) == last_seen(es.take(i as int), path@),
            decreases i,
        {
            assert(es.take(i as int).drop_last() =~= es.take(i - 1));
            assert(es[i - 1] == (self.last@[i - 1].0@, self.last@[i - 1].1));
            if str_eq(self.last[i - 1].0.as_str(), path) {
                return Some(self.last[i - 1].1);
            }
            i -= 1;
        }
        None
    }

    /// The changes a file-system event reports at time `now` (milliseconds).
    pub fn filter(&mut self, kind: FsEventKind, paths: &Vec<EventPath>, now: u64) -> (r: Vec<FileChangeEvent>)
        ensures
            r@.map_values(|e: FileChangeEvent| change_view(e)) == filter_spec(old(self).entries(), kind, paths@, now).0,
            final(self).entries() == filter_spec(old(self).entries(), kind, paths@, now).1,
    {
        let mut out: Vec<FileChangeEvent> = Vec::new();
        let ghost e0 = self.entries();
        let mut i: usize = 0;
        while i < paths.len()
            invariant
                i <= paths@.len(),
                e0 == old(self).entries(),
                out@.map_values(|e: FileChangeEvent| change_view(e)) == filter_spec(e0, kind, paths@.take(i as int), now).0,
                self.entries() == filter_spec(e0, kind, paths@.take(i as int), now).1,
            decreases paths.len() - i,
        {
            proof {
                assert(paths@.take(i + 1).drop_last() =~= paths@.take(i as int));
                assert(paths@.take(i + 1).last() == paths@[i as int]);
            }
            let p = &paths[i];
            let is_db = match &p.extension {
                Some(e) => str_eq(e.as_str(), "db"),
                None => false,
            };
            if is_db {
                let skip = match self.last_time(p.path.as_str()) {
                    Some(t) => t <= now && now - t < 2000,
                    None => false,
                };
                if !skip {
                    let ghost before = self.last@;
                    self.last.push((p.path.clone(), now));
                    assert(self.entries() =~= (before.map_values(|e: (String, u64)| (e.0@, e.1))).push((p.path@, now)));
                    let ghost ov = out@.map_values(|e: FileChangeEvent| change_view(e));
                    match kind {
                        FsEventKind::Modify => {
                            out.push(FileChangeEvent::DatabaseModified { path: p.path.clone(), db_name: p.file_name.clone() });
                        },
                        FsEventKind::Create => {
                            out.push(FileChangeEvent::DatabaseCreated { path: p.path.clone(), db_name: p.file_name.clone() });
                        },
                        FsEventKind::Remove => {
                            out.push(FileChangeEvent::DatabaseDeleted { path: p.path.clone(), db_name: p.file_name.clone() });
                        },
                        FsEventKind::Other => {},
                    }
                    assert(out@.map_values(|e: FileChangeEvent| change_view(e))
                        =~= filter_spec(e0, kind, paths@.take(i + 1), now).0);
                }
            }
            i += 1;
        }
        assert(paths@.take(i as int) =~= paths@);
        out
    }
}

/// Once an event for a path has been passed on at `now`, the path was last
/// seen at `now`.
proof fn lemma_passed_on_seen(entries: Seq<(Seq<char>, u64)>, kind: FsEventKind, paths: Seq<EventPath>, now: u64, x: Seq<char>)
    requires
        exists|i: int| 0 <= i < filter_spec(entries, kind, paths, now).0.len()
            && (#[trigger] filter_spec(entries, kind, paths, now).0[i]).1 == x,
    ensures
        last_seen(filter_spec(entries, kind, paths, now).1, x) == Some(now),
    decreases paths.len(),
{
    let r = filter_spec(entries, kind, paths, now);
    if paths.len() == 0 {
        assert(r.0.len() == 0);
    } else {
        let (out, es) = filter_spec(entries, kind, paths.drop_last(), now);
        let p = paths.last();
        let i = choose|i: int| 0 <= i < r.0.len() && (#[trigger] r.0[i]).1 == x;
        if !is_db_path(p) || debounced(es, p.path@, now) {
            assert(r == (out, es));
            assert(out[i].1 == x);
            lemma_passed_on_seen(entries, kind, paths.drop_last(), now, x);
            assert(last_seen(r.1, x) == Some(now));
        } else if kind == FsEventKind::Other {
            assert(r == (out, es.push((p.path@, now))));
            assert(out[i].1 == x);
            if p.path@ != x {
                lemma_passed_on_seen(entries, kind, paths.drop_last(), now, x);
            }
            assert(es.push((p.path@, now)).drop_last() =~= es);
            assert(last_seen(r.1, x) == Some(now));
        } else {
            assert(r == (out.push((kind, p.path@, p.file_name@)), es.push((p.path@, now))));
            if p.path@ != x {
                assert(i < out.len());
                assert(out[i] == r.0[i]);
                lemma_passed_on_seen(entries, kind, paths.drop_last(), now, x);
            }
            assert(es.push((p.path@, now)).drop_last() =~= es);
            assert(last_seen(r.1, x) == Some(now));
        }
    }
}

/// Debouncing: once an event for a database file has been passed on at time
/// `t1`, a later event for the same file less than two seconds after it
/// (times in milliseconds) is dropped.
pub proof fn law_debounce(entries: Seq<(Seq<char>, u64)>, kind1: FsEventKind, paths1: Seq<EventPath>, t1: u64,
    kind2: FsEventKind, p: EventPath, t2: u64)
    requires
        exists|i: int| 0 <= i < filter_spec(entries, kind1, paths1, t1).0.len()
            && (#[trigger] filter_spec(entries, kind1, paths1, t1).0[i]).1 == p.path@,
        t1 <= t2,
        t2 - t1 < debounce_ms(),
    ensures
        filter_spec(filter_spec(entries, kind1, paths1, t1).1, kind2, seq![p], t2).0.len() == 0,
{
    lemma_passed_on_seen(entries, kind1, paths1, t1, p.path@);
    let es1 = filter_spec(entries, kind1, paths1, t1).1;
    assert(seq![p].drop_last() =~= Seq::<EventPath>::empty());
    assert(filter_spec(es1, kind2, Seq::<EventPath>::empty(), t2).0.len() == 0);
}

} // verus!
