//! Selection of the paths whose status holds given flags, such as the
//! conflicted files of a merge.
use vstd::prelude::*;

verus! {

/// One entry of a repository's status list: the bits of its `git2::Status`
/// and its path, when the path is valid UTF-8.
pub struct StatusEntry {
    pub status: u32,
    pub path: Option<String>,
}

/// `git2::Status::contains`: the flags `bits` hold every flag of
/// `condition`. The flags are taken as they are, unknown bits included
/// (`from_bits_retain`), and `contains` compares `bits & condition` with
/// `condition`.
#[verifier::external_body]
fn status_contains(bits: u32, condition: u32) -> (r: bool)
    ensures
        r == (bits & condition == condition),
{
    git2::Status::from_bits_retain(bits).contains(git2::Status::from_bits_retain(condition))
}

/// The status flags `bits` hold every flag of `condition`.
pub open spec fn holds_flags(bits: u32, condition: u32) -> bool {
    bits & condition == condition
}

/// The paths of the entries whose flags hold `condition`, in the order of
/// the entries; an entry without a path is passed over.
pub open spec fn matching_paths(entries: Seq<StatusEntry>, condition: u32) -> Seq<String>
    decreases entries.len(),
{
    if entries.len() == 0 {
        seq![]
    } else {
        let rest = matching_paths(entries.drop_last(), condition);
        let e = entries.last();
        if holds_flags(e.status, condition) && e.path is Some {
            rest.push(e.path->0)
        } else {
            rest
        }
    }
}

/// The paths of the status entries whose flags hold every flag of
/// `condition` (with `git2::Status::CONFLICTED`, the conflicted files), in
/// the order of the entries. There is always a list.
pub fn return_conflicted_files(entries: &Vec<StatusEntry>, condition: u32) -> (r: Option<
    Vec<String>,
>)
    ensures
        r matches Some(v) && v@ == matching_paths(entries@, condition),
        r is Some,
        r->0@ == entries@.filter(
            |e: StatusEntry| e.status & condition == condition && e.path is Some,
        ).map_values(|e: StatusEntry| e.path->0),
        exists|idx: Seq<int>|
            #![trigger idx.len()]
            {
                &&& idx.len() == r->0@.len()
                &&& forall|j: int, l: int| 0 <= j < l < idx.len() ==> idx[j] < idx[l]
                &&& forall|j: int|
                    0 <= j < idx.len() ==> 0 <= #[trigger] idx[j] < entries@.len()
                        && entries@[idx[j]].status & condition == condition
                        && entries@[idx[j]].path == Some(r->0@[j])
                &&& forall|m: int|
                    0 <= m < entries@.len() && #[trigger] entries@[m].status & condition
                        == condition && entries@[m].path is Some ==> exists|j: int|
                        0 <= j < idx.len() && idx[j] == m
            },
{
    let mut list: Vec<String> = Vec::new();
    let ghost mut idx: Seq<int> = Seq::empty();
    let mut i: usize = 0;
    while i < entries.len()
        invariant
            i <= entries@.len(),
            list@ == matching_paths(entries@.subrange(0, i as int), condition),
            idx.len() == list@.len(),
            forall|j: int, l: int| 0 <= j < l < idx.len() ==> idx[j] < idx[l],
            forall|j: int|
                0 <= j < idx.len() ==> 0 <= #[trigger] idx[j] < i
                    && entries@[idx[j]].status & condition == condition
                    && entries@[idx[j]].path == Some(list@[j]),
            forall|m: int|
                0 <= m < i && #[trigger] entries@[m].status & condition == condition
                    && entries@[m].path is Some ==> exists|j: int| 0 <= j < idx.len() && idx[j] == m,
        decreases entries@.len() - i,
    {
        let e = &entries[i];
        assert(entries@.subrange(0, i + 1).drop_last() =~= entries@.subrange(0, i as int));
        let ghost old_idx = idx;
        if status_contains(e.status, condition) {
            match &e.path {
                Some(p) => {
                    list.push(p.clone());
                    proof {
                        idx = idx.push(i as int);
                        assert(idx[idx.len() - 1] == i as int);
                        assert forall|m: int|
                            0 <= m < i + 1 && #[trigger] entries@[m].status & condition == condition
                                && entries@[m].path is Some implies exists|j: int|
                            0 <= j < idx.len() && idx[j] == m by {
                            if m < i {
                                let j = choose|j: int| 0 <= j < old_idx.len() && old_idx[j] == m;
                                assert(idx[j] == m);
                            } else {
                                assert(idx[idx.len() - 1] == m);
                            }
                        }
                    }
                },
                None => {},
            }
        }
        i = i + 1;
    }
    assert(entries@.subrange(0, entries@.len() as int) =~= entries@);
    assert(idx.len() == list@.len());
    proof {
        lemma_matching_paths_filter(entries@, condition);
    }
    Some(list)
}

/// The paths listed are those of the entries whose flags hold every flag
/// of `condition` and that have a path, kept in the order of the entries,
/// whatever the paths hold: the entries filtered, each taken to its path.
pub proof fn lemma_matching_paths_filter(entries: Seq<StatusEntry>, condition: u32)
    ensures
        matching_paths(entries, condition) == entries.filter(
            |e: StatusEntry| e.status & condition == condition && e.path is Some,
        ).map_values(|e: StatusEntry| e.path->0),
    decreases entries.len(),
{
    let pred = |e: StatusEntry| e.status & condition == condition && e.path is Some;
    let f = |e: StatusEntry| e.path->0;
    reveal(Seq::filter);
    if entries.len() > 0 {
        lemma_matching_paths_filter(entries.drop_last(), condition);
        let sub = entries.drop_last().filter(pred);
        assert(matching_paths(entries.drop_last(), condition) == sub.map_values(f));
        if pred(entries.last()) {
            assert(entries.filter(pred) == sub.push(entries.last()));
            assert(sub.push(entries.last()).map_values(f) =~= sub.map_values(f).push(
                f(entries.last()),
            ));
        } else {
            assert(entries.filter(pred) == sub);
        }
    } else {
        assert(entries.filter(pred).map_values(f) =~= Seq::<String>::empty());
    }
}

} // verus!
