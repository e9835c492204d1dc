use git2::Status;
use git_conflict::status::{return_conflicted_files, StatusEntry};

fn entry(status: Status, path: Option<&str>) -> StatusEntry {
    StatusEntry { status: status.bits(), path: path.map(|p| p.to_string()) }
}

#[test]
fn conflicted_files_in_order() {
    let entries = vec![
        entry(Status::CONFLICTED, Some("a.txt")),
        entry(Status::WT_MODIFIED, Some("b.txt")),
        entry(Status::CONFLICTED | Status::INDEX_MODIFIED, Some("c.txt")),
        entry(Status::CONFLICTED, None),
        entry(Status::CURRENT, Some("d.txt")),
    ];
    let files = return_conflicted_files(&entries, Status::CONFLICTED.bits()).unwrap();
    assert_eq!(files, vec!["a.txt".to_string(), "c.txt".to_string()]);
}

#[test]
fn no_entries_give_empty_list() {
    let files = return_conflicted_files(&vec![], Status::CONFLICTED.bits()).unwrap();
    assert!(files.is_empty());
}

#[test]
fn every_flag_of_the_condition_is_needed() {
    let cond = Status::CONFLICTED | Status::WT_MODIFIED;
    let entries = vec![
        entry(Status::CONFLICTED, Some("only_conflicted")),
        entry(Status::CONFLICTED | Status::WT_MODIFIED, Some("both")),
    ];
    let files = return_conflicted_files(&entries, cond.bits()).unwrap();
    assert_eq!(files, vec!["both".to_string()]);
}

#[test]
fn empty_condition_selects_every_path() {
    let entries = vec![entry(Status::CURRENT, Some("x")), entry(Status::IGNORED, Some("y"))];
    let files = return_conflicted_files(&entries, Status::CURRENT.bits()).unwrap();
    assert_eq!(files, vec!["x".to_string(), "y".to_string()]);
}

#[test]
fn flags_outside_the_known_set_count_too() {
    let odd = 1u32 << 20;
    let entries = vec![
        StatusEntry { status: odd | Status::CONFLICTED.bits(), path: Some("kept".to_string()) },
        StatusEntry { status: Status::CONFLICTED.bits(), path: Some("dropped".to_string()) },
    ];
    let files = return_conflicted_files(&entries, odd).unwrap();
    assert_eq!(files, vec!["kept".to_string()]);
}
