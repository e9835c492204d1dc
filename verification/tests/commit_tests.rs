use git2::Oid;
use git_conflict::commit::resolution_parents;

fn oid(b: u8) -> Oid {
    Oid::from_bytes(&[b; 20]).unwrap()
}

#[test]
fn overwrite_keeps_only_the_ancestor() {
    assert_eq!(resolution_parents(true, oid(1), oid(2), oid(3)), vec![oid(3)]);
}

#[test]
fn merge_keeps_ours_then_theirs() {
    assert_eq!(resolution_parents(false, oid(1), oid(2), oid(3)), vec![oid(1), oid(2)]);
}
