use git2::{Index, Oid};
use git_conflict::entries::{Conflict, Entry, EntryTime};
use git_conflict::index_fill::fill_resolved_index;
use std::path::Path;

fn entry(seed: u8, path: &[u8]) -> Entry {
    Entry {
        ctime: EntryTime { seconds: 1, nanoseconds: 2 },
        mtime: EntryTime { seconds: 3, nanoseconds: 4 },
        dev: 0,
        ino: 0,
        mode: 0o100644,
        uid: 0,
        gid: 0,
        file_size: 5,
        id: [seed; 20],
        flags: 0,
        flags_extended: 0,
        path: path.to_vec(),
    }
}

fn id_at(index: &Index, path: &str, stage: i32) -> Option<Oid> {
    index.get_path(Path::new(path), stage).map(|e| e.id)
}

#[test]
fn fill_holds_resolutions_and_merged_entries() {
    let mut index = Index::new().unwrap();
    index.add(&git2::IndexEntry {
        ctime: git2::IndexTime::new(0, 0),
        mtime: git2::IndexTime::new(0, 0),
        dev: 0, ino: 0, mode: 0o100644, uid: 0, gid: 0, file_size: 0,
        id: Oid::from_bytes(&[9; 20]).unwrap(),
        flags: 0, flags_extended: 0, path: b"stale".to_vec(),
    }).unwrap();
    let conflicts = vec![Conflict { ancestor: entry(1, b"c.txt"), our: entry(2, b"c.txt"), their: entry(3, b"c.txt") }];
    let merged = vec![entry(4, b"a.txt"), entry(5, b"dir/b.txt")];
    assert!(fill_resolved_index(&mut index, &conflicts, &merged, true).is_ok());
    assert_eq!(index.len(), 3);
    assert_eq!(id_at(&index, "c.txt", 0), Some(Oid::from_bytes(&[2; 20]).unwrap()));
    assert_eq!(id_at(&index, "a.txt", 0), Some(Oid::from_bytes(&[4; 20]).unwrap()));
    assert_eq!(id_at(&index, "dir/b.txt", 0), Some(Oid::from_bytes(&[5; 20]).unwrap()));
    assert_eq!(id_at(&index, "stale", 0), None);
}

#[test]
fn later_entry_at_the_same_place_wins() {
    let mut index = Index::new().unwrap();
    let conflicts = vec![Conflict { ancestor: entry(1, b"x"), our: entry(2, b"x"), their: entry(3, b"x") }];
    let merged = vec![entry(7, b"x")];
    assert!(fill_resolved_index(&mut index, &conflicts, &merged, false).is_ok());
    assert_eq!(index.len(), 1);
    assert_eq!(id_at(&index, "x", 0), Some(Oid::from_bytes(&[7; 20]).unwrap()));
}

#[test]
fn a_directory_entry_displaces_a_file_of_its_name() {
    let mut index = Index::new().unwrap();
    let conflicts = vec![Conflict { ancestor: entry(1, b"d"), our: entry(2, b"d"), their: entry(3, b"d") }];
    let merged = vec![entry(6, b"d/inner")];
    assert!(fill_resolved_index(&mut index, &conflicts, &merged, true).is_ok());
    assert_eq!(id_at(&index, "d", 0), None);
    assert_eq!(id_at(&index, "d/inner", 0), Some(Oid::from_bytes(&[6; 20]).unwrap()));
}

#[test]
fn nothing_to_add_leaves_an_empty_index() {
    let mut index = Index::new().unwrap();
    assert!(fill_resolved_index(&mut index, &vec![], &vec![], true).is_ok());
    assert_eq!(index.len(), 0);
}

#[test]
fn an_invalid_mode_stops_the_fill() {
    let mut index = Index::new().unwrap();
    let mut bad = entry(1, b"m");
    bad.mode = 0o123;
    let r = fill_resolved_index(&mut index, &vec![], &vec![entry(2, b"ok"), bad], true);
    assert!(matches!(r, Err(git_conflict::index_fill::IndexFillError::Add { position: 1 })));
}

#[test]
fn conflicts_are_entries_above_stage_zero() {
    let mut index = Index::new().unwrap();
    assert!(!git_conflict::index_fill::does_conflict_exists(&index));
    let merged = vec![entry(4, b"a.txt")];
    assert!(fill_resolved_index(&mut index, &vec![], &merged, true).is_ok());
    assert!(!git_conflict::index_fill::does_conflict_exists(&index));
    let mut theirs = entry(5, b"b.txt");
    theirs.flags = 3 << 12;
    assert!(fill_resolved_index(&mut index, &vec![], &vec![entry(4, b"a.txt"), theirs], true).is_ok());
    assert_eq!(id_at(&index, "b.txt", 3), Some(Oid::from_bytes(&[5; 20]).unwrap()));
    assert!(git_conflict::index_fill::does_conflict_exists(&index));
}
