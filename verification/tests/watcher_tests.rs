use rustminidb::watcher::{Debouncer, EventPath, FileChangeEvent, FsEventKind};

fn db(path: &str) -> EventPath {
    let name = path.rsplit('/').next().unwrap_or(path).to_string();
    let extension = name.rsplit_once('.').map(|(_, e)| e.to_string());
    EventPath { path: path.to_string(), extension, file_name: name }
}

#[test]
fn debouncer_drops_repeats_within_two_seconds() {
    let mut d = Debouncer::new();
    let first = d.filter(FsEventKind::Modify, &vec![db("/d/a.db")], 1_000);
    assert_eq!(first.len(), 1);
    match &first[0] {
        FileChangeEvent::DatabaseModified { path, db_name } => {
            assert_eq!(path, "/d/a.db");
            assert_eq!(db_name, "a.db");
        }
        other => panic!("unexpected event {:?}", other),
    }
    assert!(d.filter(FsEventKind::Modify, &vec![db("/d/a.db")], 2_999).is_empty());
    assert_eq!(d.filter(FsEventKind::Create, &vec![db("/d/a.db")], 3_000).len(), 1);
}

#[test]
fn debouncer_ignores_other_files_and_kinds() {
    let mut d = Debouncer::new();
    assert!(d.filter(FsEventKind::Modify, &vec![db("/d/notes.txt")], 0).is_empty());
    assert!(d.filter(FsEventKind::Other, &vec![db("/d/b.db")], 0).is_empty());
    // The ignored kind still counts as a sighting of the file.
    assert!(d.filter(FsEventKind::Remove, &vec![db("/d/b.db")], 1_000).is_empty());
    let events = d.filter(FsEventKind::Remove, &vec![db("/d/b.db"), db("/d/c.db")], 5_000);
    assert_eq!(events.len(), 2);
    assert!(matches!(&events[1], FileChangeEvent::DatabaseDeleted { db_name, .. } if db_name == "c.db"));
}
