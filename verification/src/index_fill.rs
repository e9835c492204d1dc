//! Filling the index of a tree-level resolution: the index is cleared and
//! the entries of `resolved_index` are added to it one after the other.
use vstd::prelude::*;
use git2::Index;
use crate::entries::{resolved_entry, resolved_index, Conflict, Entry, EntryView};

verus! {

/// What a `git2::Index` holds: for each path and stage, the 20 bytes of the
/// id of the object that its entry names.
pub uninterp spec fn index_contents(index: Index) -> Map<(Seq<u8>, int), Seq<u8>>;

/// Whether a `git2::Index` compares paths without regard to case.
pub uninterp spec fn index_ignores_case(index: Index) -> bool;

/// The stage that the flags of an index entry name (bits 12 and 13).
pub open spec fn stage_of(flags: u16) -> int {
    (flags as int / 4096) % 4
}

/// The place of an entry in an index: its path and its stage.
pub open spec fn entry_key(e: EntryView) -> (Seq<u8>, int) {
    (e.path, stage_of(e.flags))
}

/// `a` names a directory that holds `b`: `b` is `a`, a `/` and more.
pub open spec fn dir_prefix(a: Seq<u8>, b: Seq<u8>) -> bool {
    a.len() < b.len() && b.take(a.len() as int) == a && b[a.len() as int] == 47u8
}

/// Two places of an index that adding an entry at one may take from the
/// other: the same stage, and the same path or a path and a directory
/// that holds it.
pub open spec fn keys_clash(k1: (Seq<u8>, int), k2: (Seq<u8>, int)) -> bool {
    k1.1 == k2.1 && (k1.0 == k2.0 || dir_prefix(k1.0, k2.0) || dir_prefix(k2.0, k1.0))
}

/// `git2::Index::clear` (libgit2's `git_index_clear`): on success the index
/// holds no entry. It does not change how the index compares paths. What
/// the index holds after a failure is left unsaid.
#[verifier::external_body]
fn index_clear(index: &mut Index) -> (r: Result<(), git2::Error>)
    ensures
        index_ignores_case(*final(index)) == index_ignores_case(*old(index)),
        r is Ok ==> forall|k: (Seq<u8>, int)| !(#[trigger] index_contents(*final(index)).contains_key(k)),
{
    index.clear()
}

/// `git2::Index::add` (libgit2's `git_index_add`), with the entry turned
/// into a `git2::IndexEntry` field by field. On success the entry's place
/// (its path, and the stage of its flags) names the entry's object; every
/// other place the index holds it held before, with the same object; and,
/// in an index that compares paths with their case, only places that clash
/// with the entry's place (same stage; same path, or one path a directory
/// of the other) may have been removed. The mode, flags and time stamps
/// that libgit2 stores are left unsaid, as is the index after a failure.
#[verifier::external_body]
fn index_add(index: &mut Index, entry: &Entry) -> (r: Result<(), git2::Error>)
    ensures
        index_ignores_case(*final(index)) == index_ignores_case(*old(index)),
        r is Ok ==> index_contents(*final(index)).contains_key(entry_key(entry@))
            && index_contents(*final(index))[entry_key(entry@)] == entry.id@,
        r is Ok ==> forall|k: (Seq<u8>, int)|
            #[trigger] index_contents(*final(index)).contains_key(k) && k != entry_key(entry@)
                ==> index_contents(*old(index)).contains_key(k) && index_contents(
                *final(index),
            )[k] == index_contents(*old(index))[k],
        r is Ok && !index_ignores_case(*old(index)) ==> forall|k: (Seq<u8>, int)|
            #[trigger] index_contents(*old(index)).contains_key(k) && !keys_clash(
                k,
                entry_key(entry@),
            ) ==> index_contents(*final(index)).contains_key(k) && index_contents(
                *final(index),
            )[k] == index_contents(*old(index))[k],
{
    let id = git2::Oid::from_bytes(&entry.id)?;
    let ctime = git2::IndexTime::new(entry.ctime.seconds, entry.ctime.nanoseconds);
    let mtime = git2::IndexTime::new(entry.mtime.seconds, entry.mtime.nanoseconds);
    index.add(&git2::IndexEntry {
        ctime, mtime, dev: entry.dev, ino: entry.ino, mode: entry.mode, uid: entry.uid,
        gid: entry.gid, file_size: entry.file_size, id, flags: entry.flags,
        flags_extended: entry.flags_extended, path: entry.path.clone(),
    })
}

/// `git2::Index::has_conflicts` (libgit2's `git_index_has_conflicts`):
/// whether some entry of the index stands at a stage above 0.
#[verifier::external_body]
fn index_has_conflicts(index: &Index) -> (r: bool)
    ensures
        r == (exists|k: (Seq<u8>, int)| #[trigger] index_contents(*index).contains_key(k) && k.1 != 0),
{
    index.has_conflicts()
}

/// Whether the index holds a conflict: an entry at a stage other than 0
/// (the common ancestor's, ours or theirs).
pub fn does_conflict_exists(index: &Index) -> (r: bool)
    ensures
        r == (exists|k: (Seq<u8>, int)| #[trigger] index_contents(*index).contains_key(k) && k.1 != 0),
{
    index_has_conflicts(index)
}

/// The entries of the resolved index, as `resolved_index` lists them.
pub open spec fn resolved_index_views(
    conflicts: Seq<Conflict>,
    merged: Seq<Entry>,
    parent_interference: bool,
) -> Seq<EntryView> {
    Seq::new(
        (conflicts.len() + merged.len()) as nat,
        |k: int|
            if k < conflicts.len() {
                resolved_entry(conflicts[k].ancestor@, conflicts[k].our@, parent_interference)
            } else {
                merged[k - conflicts.len()]@
            },
    )
}

/// Why filling the index stopped.
pub enum IndexFillError {
    /// The index could not be cleared.
    Clear,
    /// The entry at this position of the list could not be added.
    Add { position: usize },
}

/// Clears the index and adds to it, in order, the entry that resolves each
/// conflict and then every entry of `merged`. On success the index holds
/// nothing but places of these entries; and, in an index that compares
/// paths with their case, each entry whose place no later entry clashes
/// with stands at its place, naming its object. A failed addition is
/// reported with the position of its entry in that list. Whether libgit2
/// accepts the clearing and each addition (it checks paths and modes, and
/// may run out of memory) is left unsaid.
pub fn fill_resolved_index(
    index: &mut Index,
    conflicts: &Vec<Conflict>,
    merged: &Vec<Entry>,
    parent_interference: bool,
) -> (r: Result<(), IndexFillError>)
    ensures
        index_ignores_case(*final(index)) == index_ignores_case(*old(index)),
        (r matches Err(IndexFillError::Add { position }) ==> position < conflicts@.len()
            + merged@.len()),
        r is Ok ==> forall|k: (Seq<u8>, int)|
            #[trigger] index_contents(*final(index)).contains_key(k) ==> exists|i: int|
                0 <= i < conflicts@.len() + merged@.len() && #[trigger] entry_key(
                    resolved_index_views(conflicts@, merged@, parent_interference)[i],
                ) == k,
        r is Ok && !index_ignores_case(*old(index)) ==> forall|i: int|
            0 <= i < conflicts@.len() + merged@.len() && (forall|j: int|
                i < j < conflicts@.len() + merged@.len() ==> !keys_clash(
                    entry_key(resolved_index_views(conflicts@, merged@, parent_interference)[i]),
                    entry_key(#[trigger] resolved_index_views(conflicts@, merged@, parent_interference)[j]),
                )) ==> index_contents(*final(index)).contains_key(
                entry_key(#[trigger] resolved_index_views(conflicts@, merged@, parent_interference)[i]),
            ) && index_contents(*final(index))[entry_key(
                resolved_index_views(conflicts@, merged@, parent_interference)[i],
            )] == resolved_index_views(conflicts@, merged@, parent_interference)[i].id@,
{
    let ghost ic = index_ignores_case(*index);
    match index_clear(index) {
        Ok(()) => {},
        Err(_) => {
            return Err(IndexFillError::Clear);
        },
    }
    let es = resolved_index(conflicts, merged, parent_interference);
    let ghost views = resolved_index_views(conflicts@, merged@, parent_interference);
    assert forall|k: int| 0 <= k < es@.len() implies (#[trigger] es@[k])@ == views[k] by {
        if k >= conflicts@.len() {
            assert(es@[conflicts@.len() + (k - conflicts@.len())] == es@[k]);
        }
    }
    let mut i: usize = 0;
    while i < es.len()
        invariant
            es@.len() == views.len(),
            views == resolved_index_views(conflicts@, merged@, parent_interference),
            views.len() == conflicts@.len() + merged@.len(),
            forall|k: int| 0 <= k < es@.len() ==> (#[trigger] es@[k])@ == views[k],
            i <= es@.len(),
            index_ignores_case(*index) == ic,
            ic == index_ignores_case(*old(index)),
            forall|k: (Seq<u8>, int)|
                #[trigger] index_contents(*index).contains_key(k) ==> exists|j: int|
                    0 <= j < i && #[trigger] entry_key(views[j]) == k,
            !ic ==> forall|j: int|
                0 <= j < i && (forall|l: int|
                    j < l < i ==> !keys_clash(entry_key(views[j]), entry_key(#[trigger] views[l])))
                    ==> index_contents(*index).contains_key(entry_key(#[trigger] views[j]))
                    && index_contents(*index)[entry_key(views[j])] == views[j].id@,
        decreases es@.len() - i,
    {
        let ghost before = index_contents(*index);
        let ghost key = entry_key(views[i as int]);
        match index_add(index, &es[i]) {
            Ok(()) => {},
            Err(_) => {
                return Err(IndexFillError::Add { position: i });
            },
        }
        let ghost after = index_contents(*index);
        assert(es@[i as int]@ == views[i as int]);
        assert forall|k: (Seq<u8>, int)| #[trigger] after.contains_key(k) implies exists|j: int|
            0 <= j < i + 1 && #[trigger] entry_key(views[j]) == k by {
            if k == key {
                assert(entry_key(views[i as int]) == k);
            } else {
                assert(before.contains_key(k));
                let j = choose|j: int| 0 <= j < i && #[trigger] entry_key(views[j]) == k;
                assert(entry_key(views[j]) == k);
            }
        }
        proof {
            if !ic {
                assert forall|j: int|
                    0 <= j < i + 1 && (forall|l: int|
                        j < l < i + 1 ==> !keys_clash(entry_key(views[j]), entry_key(#[trigger] views[l])))
                        implies after.contains_key(entry_key(#[trigger] views[j]))
                        && after[entry_key(views[j])] == views[j].id@ by {
                    if j < i {
                        assert(!keys_clash(entry_key(views[j]), entry_key(views[i as int])));
                        assert(forall|l: int|
                            j < l < i ==> !keys_clash(entry_key(views[j]), entry_key(#[trigger] views[l])));
                        assert(before.contains_key(entry_key(views[j])));
                    }
                }
            }
        }
        i = i + 1;
    }
    Ok(())
}

/// An entry whose path is shorter than 4096 bytes and whose flags are the
/// length of its path, as every resolving entry's flags are, stands at
/// stage 0.
pub proof fn lemma_short_path_stage_zero(len: nat)
    requires
        len < 4096,
    ensures
        stage_of(crate::entries::path_len_flags(len)) == 0,
{
}

/// Every entry that resolves a conflict stands at stage 0 when its path is
/// shorter than 4096 bytes, whatever the stages of the entries it is built
/// from: the conflict is resolved.
pub proof fn lemma_resolving_entry_stage_zero(
    ancestor: EntryView,
    base: EntryView,
    parent_interference: bool,
)
    requires
        (if parent_interference { ancestor.path.len() } else { base.path.len() }) < 4096,
    ensures
        stage_of(resolved_entry(ancestor, base, parent_interference).flags) == 0,
{
    let len = if parent_interference { ancestor.path.len() } else { base.path.len() };
    lemma_short_path_stage_zero(len);
}

} // verus!
