use git_conflict::entries::{
    conflicted_paths, make_entry, resolution_entries, Conflict, Entry, EntryTime,
};

fn entry(seed: u32, path: &[u8]) -> Entry {
    Entry {
        ctime: EntryTime { seconds: seed as i32, nanoseconds: seed + 1 },
        mtime: EntryTime { seconds: seed as i32 + 2, nanoseconds: seed + 3 },
        dev: seed + 4,
        ino: seed + 5,
        mode: 0o100644,
        uid: seed + 6,
        gid: seed + 7,
        file_size: seed + 8,
        id: [seed as u8; 20],
        flags: 0,
        flags_extended: seed as u16 + 9,
        path: path.to_vec(),
    }
}

#[test]
fn parent_interference_takes_times_and_path_from_ancestor() {
    let a = entry(10, b"old/name.txt");
    let b = entry(50, b"file.txt");
    let r = make_entry(&a, &b, true);
    assert_eq!(r.ctime.seconds, 10);
    assert_eq!(r.ctime.nanoseconds, 11);
    assert_eq!(r.mtime.seconds, 12);
    assert_eq!(r.path, b"old/name.txt".to_vec());
    assert_eq!(r.flags, 12);
    assert_eq!(r.flags_extended, 19);
    assert_eq!(r.dev, 54);
    assert_eq!(r.ino, 55);
    assert_eq!(r.uid, 56);
    assert_eq!(r.gid, 57);
    assert_eq!(r.file_size, 58);
    assert_eq!(r.id, b.id);
}

#[test]
fn without_parent_interference_the_entry_is_ours() {
    let a = entry(10, b"old/name.txt");
    let b = entry(50, b"file.txt");
    let r = make_entry(&a, &b, false);
    assert_eq!(r.ctime.seconds, 50);
    assert_eq!(r.mtime.nanoseconds, 53);
    assert_eq!(r.path, b"file.txt".to_vec());
    assert_eq!(r.flags, 8);
    assert_eq!(r.flags_extended, 59);
    assert_eq!(r.id, b.id);
}

#[test]
fn flags_wrap_at_sixteen_bits() {
    let long = vec![b'a'; 70000];
    let a = entry(1, &long);
    let b = entry(2, b"x");
    assert_eq!(make_entry(&a, &b, true).flags, (70000 % 65536) as u16);
}

#[test]
fn one_entry_and_one_path_per_conflict() {
    let conflicts = vec![
        Conflict { ancestor: entry(1, b"p1"), our: entry(2, b"p1"), their: entry(3, b"p1") },
        Conflict { ancestor: entry(4, b"q"), our: entry(5, b"q"), their: entry(6, b"q2") },
    ];
    let es = resolution_entries(&conflicts, true);
    assert_eq!(es.len(), 2);
    assert_eq!(es[0].ctime.seconds, 1);
    assert_eq!(es[0].dev, 6);
    assert_eq!(es[1].ctime.seconds, 4);
    assert_eq!(es[1].dev, 9);
    let paths = conflicted_paths(&conflicts);
    assert_eq!(paths, vec![b"p1".to_vec(), b"q2".to_vec()]);
    assert!(resolution_entries(&vec![], false).is_empty());
}

#[test]
fn resolved_index_puts_resolutions_before_the_rest() {
    let conflicts = vec![Conflict { ancestor: entry(1, b"c"), our: entry(2, b"c"), their: entry(3, b"c") }];
    let merged = vec![entry(20, b"a"), entry(30, b"b")];
    let r = git_conflict::entries::resolved_index(&conflicts, &merged, false);
    assert_eq!(r.len(), 3);
    assert_eq!(r[0].ctime.seconds, 2);
    assert_eq!(r[0].flags, 1);
    assert_eq!(r[1].path, b"a".to_vec());
    assert_eq!(r[1].dev, 24);
    assert_eq!(r[2].path, b"b".to_vec());
    assert_eq!(r[2].flags, 0);
    let copy = git_conflict::entries::copy_entry(&merged[1]);
    assert_eq!(copy.path, merged[1].path);
    assert_eq!(copy.id, merged[1].id);
}
