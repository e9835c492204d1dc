use git_conflict::branches::{Branches, CheckoutSide};

fn pair() -> Branches {
    Branches::init("main".to_string(), "feature".to_string())
}

#[test]
fn init_keeps_names() {
    let b = pair();
    assert_eq!(b.src_branch, "main");
    assert_eq!(b.dest_branch, "feature");
}

#[test]
fn checkout_side_on_either_branch() {
    let b = pair();
    assert!(b.checkout_side(&"main".to_string(), true) == Some(CheckoutSide::Ours));
    assert!(b.checkout_side(&"main".to_string(), false) == Some(CheckoutSide::Theirs));
    assert!(b.checkout_side(&"feature".to_string(), true) == Some(CheckoutSide::Ours));
    assert!(b.checkout_side(&"feature".to_string(), false) == Some(CheckoutSide::Theirs));
}

#[test]
fn checkout_side_off_both_branches() {
    let b = pair();
    assert!(b.checkout_side(&"other".to_string(), true).is_none());
    assert!(b.checkout_side(&"".to_string(), false).is_none());
}

#[test]
fn merge_commit_message_names_both_branches() {
    assert_eq!(
        pair().merge_commit_message(),
        "Resolve Conflict: Merge main branch into feature branch"
    );
}

#[test]
fn tree_merge_message_names_both_branches() {
    assert_eq!(
        pair().tree_merge_message(),
        "Resolve Conflict through tree resolution:  main branch into feature branch"
    );
}
