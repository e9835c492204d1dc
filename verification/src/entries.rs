//! Index entries of a tree-level resolution: a conflicted path gets one
//! entry built from the entries of its conflict.
use vstd::prelude::*;
use crate::markers::copy_range;

verus! {

/// A time stamp of an index entry (`git2::IndexTime`).
#[derive(Clone, Copy)]
pub struct EntryTime {
    pub seconds: i32,
    pub nanoseconds: u32,
}

/// The fields of a `git2::IndexEntry`; the object id as its 20 bytes.
pub struct Entry {
    pub ctime: EntryTime,
    pub mtime: EntryTime,
    pub dev: u32,
    pub ino: u32,
    pub mode: u32,
    pub uid: u32,
    pub gid: u32,
    pub file_size: u32,
    pub id: [u8; 20],
    pub flags: u16,
    pub flags_extended: u16,
    pub path: Vec<u8>,
}

/// An index entry as a value: its fields, the path as its bytes.
pub struct EntryView {
    pub ctime: EntryTime,
    pub mtime: EntryTime,
    pub dev: u32,
    pub ino: u32,
    pub mode: u32,
    pub uid: u32,
    pub gid: u32,
    pub file_size: u32,
    pub id: [u8; 20],
    pub flags: u16,
    pub flags_extended: u16,
    pub path: Seq<u8>,
}

impl View for Entry {
    type V = EntryView;

    open spec fn view(&self) -> EntryView {
        EntryView {
            ctime: self.ctime,
            mtime: self.mtime,
            dev: self.dev,
            ino: self.ino,
            mode: self.mode,
            uid: self.uid,
            gid: self.gid,
            file_size: self.file_size,
            id: self.id,
            flags: self.flags,
            flags_extended: self.flags_extended,
            path: self.path@,
        }
    }
}

/// The three sides of a conflicted path: the common ancestor, ours and theirs.
pub struct Conflict {
    pub ancestor: Entry,
    pub our: Entry,
    pub their: Entry,
}

/// The flags of an entry whose path has `len` bytes: the length, cut to 16 bits.
pub open spec fn path_len_flags(len: nat) -> u16 {
    (len % 0x10000) as u16
}

/// The entry that resolves a conflict: time stamps, path and extended
/// flags come from the ancestor when the parent interferes and from `base`
/// otherwise; the file's identity (device, inode, object id, mode, owner,
/// size) always comes from `base`; the flags are the length of the path.
pub open spec fn resolved_entry(ancestor: EntryView, base: EntryView, parent_interference: bool) -> EntryView {
    let chosen = if parent_interference { ancestor } else { base };
    EntryView {
        ctime: chosen.ctime,
        mtime: chosen.mtime,
        path: chosen.path,
        dev: base.dev,
        ino: base.ino,
        id: base.id,
        mode: base.mode,
        uid: base.uid,
        gid: base.gid,
        file_size: base.file_size,
        flags: path_len_flags(chosen.path.len()),
        flags_extended: chosen.flags_extended,
    }
}

/// Builds the entry that resolves a conflict from the ancestor's entry and
/// `base` (our entry).
pub fn make_entry(ancestor: &Entry, base: &Entry, parent_interference: bool) -> (r: Entry)
    ensures
        r@ == resolved_entry(ancestor@, base@, parent_interference),
        r.flags as int == r.path@.len() % 65536,
        r.path@ == (if parent_interference { ancestor.path@ } else { base.path@ }),
        r.ctime == (if parent_interference { ancestor.ctime } else { base.ctime }),
        r.mtime == (if parent_interference { ancestor.mtime } else { base.mtime }),
        r.flags_extended == (if parent_interference {
            ancestor.flags_extended
        } else {
            base.flags_extended
        }),
        r.id == base.id && r.dev == base.dev && r.ino == base.ino && r.mode == base.mode && r.uid
            == base.uid && r.gid == base.gid && r.file_size == base.file_size,
{
    let index = if parent_interference { ancestor } else { base };
    let n = index.path.len();
    let flags = (n % 65536) as u16;
    let path = copy_range(index.path.as_slice(), 0, n);
    assert(path@ =~= index.path@);
    assert(flags == path_len_flags(index.path@.len()));
    Entry {
        ctime: index.ctime,
        mtime: index.mtime,
        path,
        dev: base.dev,
        ino: base.ino,
        id: base.id,
        mode: base.mode,
        uid: base.uid,
        gid: base.gid,
        file_size: base.file_size,
        flags,
        flags_extended: index.flags_extended,
    }
}

/// Without parent interference the resolving entry is our entry itself,
/// with only its flags set to the length of its path.
pub proof fn lemma_resolved_entry_without_parent(ancestor: EntryView, base: EntryView)
    ensures
        resolved_entry(ancestor, base, false) == (EntryView { flags: path_len_flags(base.path.len()), ..base }),
{
}

/// Whatever the choice, the resolving entry names the object of our entry.
pub proof fn lemma_resolved_entry_keeps_object(ancestor: EntryView, base: EntryView, parent_interference: bool)
    ensures
        resolved_entry(ancestor, base, parent_interference).id == base.id,
        resolved_entry(ancestor, base, parent_interference).mode == base.mode,
        resolved_entry(ancestor, base, parent_interference).file_size == base.file_size,
{
}

/// The entries that resolve the conflicts, one for each, in their order.
pub fn resolution_entries(conflicts: &Vec<Conflict>, parent_interference: bool) -> (r: Vec<Entry>)
    ensures
        r@.len() == conflicts@.len(),
        forall|k: int|
            0 <= k < conflicts@.len() ==> (#[trigger] r@[k])@ == resolved_entry(
                conflicts@[k].ancestor@,
                conflicts@[k].our@,
                parent_interference,
            ),
        forall|k: int|
            0 <= k < conflicts@.len() ==> (#[trigger] r@[k]).flags as int == r@[k].path@.len() % 65536
                && r@[k].id == conflicts@[k].our.id && r@[k].path@ == (if parent_interference {
                conflicts@[k].ancestor.path@
            } else {
                conflicts@[k].our.path@
            }),
{
    let mut r: Vec<Entry> = Vec::new();
    let mut i: usize = 0;
    while i < conflicts.len()
        invariant
            i <= conflicts@.len(),
            r@.len() == i,
            forall|k: int|
                0 <= k < i ==> (#[trigger] r@[k])@ == resolved_entry(
                    conflicts@[k].ancestor@,
                    conflicts@[k].our@,
                    parent_interference,
                ),
            forall|k: int|
                0 <= k < i ==> (#[trigger] r@[k]).flags as int == r@[k].path@.len() % 65536
                    && r@[k].id == conflicts@[k].our.id && r@[k].path@ == (if parent_interference {
                    conflicts@[k].ancestor.path@
                } else {
                    conflicts@[k].our.path@
                }),
        decreases conflicts@.len() - i,
    {
        let c = &conflicts[i];
        let e = make_entry(&c.ancestor, &c.our, parent_interference);
        r.push(e);
        i = i + 1;
    }
    r
}

/// The paths of the conflicts, as their side ("theirs") names them, in order.
pub fn conflicted_paths(conflicts: &Vec<Conflict>) -> (r: Vec<Vec<u8>>)
    ensures
        r@.len() == conflicts@.len(),
        forall|k: int| 0 <= k < conflicts@.len() ==> (#[trigger] r@[k])@ == conflicts@[k].their.path@,
{
    let mut r: Vec<Vec<u8>> = Vec::new();
    let mut i: usize = 0;
    while i < conflicts.len()
        invariant
            i <= conflicts@.len(),
            r@.len() == i,
            forall|k: int| 0 <= k < i ==> (#[trigger] r@[k])@ == conflicts@[k].their.path@,
        decreases conflicts@.len() - i,
    {
        let p = &conflicts[i].their.path;
        let copy = copy_range(p.as_slice(), 0, p.len());
        assert(copy@ =~= p@);
        r.push(copy);
        i = i + 1;
    }
    r
}

/// A copy of an entry.
pub fn copy_entry(e: &Entry) -> (r: Entry)
    ensures
        r@ == e@,
{
    let path = copy_range(e.path.as_slice(), 0, e.path.len());
    assert(path@ =~= e.path@);
    Entry {
        ctime: e.ctime,
        mtime: e.mtime,
        dev: e.dev,
        ino: e.ino,
        mode: e.mode,
        uid: e.uid,
        gid: e.gid,
        file_size: e.file_size,
        id: e.id,
        flags: e.flags,
        flags_extended: e.flags_extended,
        path,
    }
}

/// The entries of the resolved index, in the order they are added to it:
/// first the entry that resolves each conflict, in the order of the
/// conflicts, then every entry that is left in the merged index once its
/// conflicts are removed, in its order.
pub fn resolved_index(conflicts: &Vec<Conflict>, merged: &Vec<Entry>, parent_interference: bool) -> (r: Vec<Entry>)
    ensures
        r@.len() == conflicts@.len() + merged@.len(),
        forall|k: int|
            0 <= k < conflicts@.len() ==> (#[trigger] r@[k])@ == resolved_entry(
                conflicts@[k].ancestor@,
                conflicts@[k].our@,
                parent_interference,
            ),
        forall|k: int|
            0 <= k < merged@.len() ==> (#[trigger] r@[conflicts@.len() + k])@ == merged@[k]@,
        forall|k: int|
            0 <= k < conflicts@.len() ==> (#[trigger] r@[k]).flags as int == r@[k].path@.len() % 65536
                && r@[k].id == conflicts@[k].our.id && r@[k].path@ == (if parent_interference {
                conflicts@[k].ancestor.path@
            } else {
                conflicts@[k].our.path@
            }),
{
    let mut r = resolution_entries(conflicts, parent_interference);
    let n = conflicts.len();
    let mut i: usize = 0;
    while i < merged.len()
        invariant
            n == conflicts@.len(),
            i <= merged@.len(),
            r@.len() == n + i,
            forall|k: int|
                0 <= k < n ==> (#[trigger] r@[k])@ == resolved_entry(
                    conflicts@[k].ancestor@,
                    conflicts@[k].our@,
                    parent_interference,
                ),
            forall|k: int| 0 <= k < i ==> (#[trigger] r@[n + k])@ == merged@[k]@,
            forall|k: int|
                0 <= k < n ==> (#[trigger] r@[k]).flags as int == r@[k].path@.len() % 65536
                    && r@[k].id == conflicts@[k].our.id && r@[k].path@ == (if parent_interference {
                    conflicts@[k].ancestor.path@
                } else {
                    conflicts@[k].our.path@
                }),
        decreases merged@.len() - i,
    {
        let e = copy_entry(&merged[i]);
        r.push(e);
        proof {
            assert(r@[n + i as int]@ == merged@[i as int]@);
        }
        i = i + 1;
    }
    r
}

/// The flags of a resolving entry are the length of its path, cut to 16
/// bits, whatever the flags of the entries it is built from; the entry names
/// our object.
pub proof fn lemma_resolving_flags_are_path_length(
    ancestor: EntryView,
    base: EntryView,
    parent_interference: bool,
)
    ensures
        resolved_entry(ancestor, base, parent_interference).flags as int == resolved_entry(
            ancestor,
            base,
            parent_interference,
        ).path.len() % 65536,
        resolved_entry(ancestor, base, parent_interference).path == (if parent_interference {
            ancestor.path
        } else {
            base.path
        }),
        resolved_entry(ancestor, base, parent_interference).id == base.id,
{
}

} // verus!
