use git_conflict::markers::{has_conflict_marker, has_run, remove_conflict_markers};

fn strip(s: &str) -> String {
    String::from_utf8(remove_conflict_markers(s.as_bytes())).unwrap()
}

#[test]
fn conflict_block_keeps_both_sides() {
    let text = "line one\n<<<<<<< HEAD\nours\n=======\ntheirs\n>>>>>>> feature\nlast\n";
    assert_eq!(strip(text), "line one\nours\ntheirs\nlast");
}

#[test]
fn empty_text_stays_empty() {
    assert_eq!(strip(""), "");
}

#[test]
fn only_markers_give_empty_text() {
    assert_eq!(strip("<<<<<<< a\n=======\n>>>>>>> b\n"), "");
}

#[test]
fn crlf_line_ends_become_lf() {
    assert_eq!(strip("a\r\n<<<<<<< x\r\nb\r\n"), "a\nb");
}

#[test]
fn lone_carriage_return_at_end_is_kept() {
    assert_eq!(strip("a\nb\r"), "a\nb\r");
}

#[test]
fn trailing_newline_is_dropped() {
    assert_eq!(strip("a\nb\n"), "a\nb");
}

#[test]
fn empty_lines_are_kept() {
    assert_eq!(strip("a\n\nb"), "a\n\nb");
    assert_eq!(strip("\n"), "");
    assert_eq!(strip("\n\n"), "\n");
}

#[test]
fn unmarked_text_is_unchanged() {
    let text = "fn main() {\n    let x = 1;\n}";
    assert_eq!(strip(text), text);
}

#[test]
fn short_runs_are_not_markers() {
    let text = "<<<<<< six\n===== five\n>>>>> five\na == b";
    assert_eq!(strip(text), text);
}

#[test]
fn marker_anywhere_in_line_drops_it() {
    assert_eq!(strip("keep\nx ====== y\nkeep2"), "keep\nkeep2");
    assert_eq!(strip("keep\nfoo>>>>>>\nkeep2"), "keep\nkeep2");
}

#[test]
fn result_has_no_marker_across_lines() {
    let text = "<<<\n<<<<\n===\n===\n";
    let out = remove_conflict_markers(text.as_bytes());
    assert!(!has_run(&out, b'<', 7));
    assert!(!has_run(&out, b'=', 6));
    assert_eq!(String::from_utf8(out).unwrap(), "<<<\n<<<<\n===\n===");
}

#[test]
fn multibyte_text_is_kept() {
    assert_eq!(strip("héllo\n<<<<<<< ü\nwörld"), "héllo\nwörld");
}

#[test]
fn marker_detection() {
    assert!(has_conflict_marker(b"<<<<<<< HEAD"));
    assert!(has_conflict_marker(b"======="));
    assert!(has_conflict_marker(b">>>>>>"));
    assert!(!has_conflict_marker(b"<<<<<<"));
    assert!(!has_conflict_marker(b"====="));
    assert!(!has_conflict_marker(b""));
}

#[test]
fn run_detection() {
    assert!(has_run(b"xxaaay", b'a', 3));
    assert!(!has_run(b"xxaay", b'a', 3));
    assert!(has_run(b"", b'a', 0));
    assert!(!has_run(b"aa", b'a', 3));
}

#[test]
fn removing_twice_changes_nothing() {
    let text = "a\n<<<<<<< HEAD\nb\n=======\nc\n>>>>>>> x\nd";
    let once = strip(text);
    assert_eq!(strip(&once), once);
}

#[test]
fn removing_twice_drops_a_left_final_newline() {
    let once = strip("a\n\n");
    assert_eq!(once, "a\n");
    assert_eq!(strip(&once), "a");
}
