//! A model of the workspace utilities' effect on a directory tree. Paths
//! are segment lists; a state is the set of entries (files and directories)
//! that exist. The semantics here is what the thin filesystem shell around
//! the standalone compiler implements: *remove* takes an entry and
//! everything beneath it and is a no-op on an absent path; *create
//! directory* and *create file* are destructive, removing whatever the path
//! held before.

use vstd::prelude::*;

verus! {

/// One existing entry: its path and whether it is a directory.
#[derive(Debug, Clone, PartialEq)]
pub struct FsEntry {
    pub path: Vec<String>,
    pub dir: bool,
}

/// The mathematical value of an entry.
#[verifier::ext_equal]
pub ghost struct EntryView {
    pub path: Seq<Seq<char>>,
    pub dir: bool,
}

/// The characters of each path segment.
pub open spec fn path_view(p: Seq<String>) -> Seq<Seq<char>> {
    p.map_values(|s: String| s@)
}

impl View for FsEntry {
    type V = EntryView;

    open spec fn view(&self) -> EntryView {
        EntryView { path: path_view(self.path@), dir: self.dir }
    }
}

/// `p` is `q` itself or an ancestor of `q`.
pub open spec fn path_is_prefix(p: Seq<Seq<char>>, q: Seq<Seq<char>>) -> bool {
    p.len() <= q.len() && q.take(p.len() as int) == p
}

/// The entries left after removing the entry at `p` and everything beneath
/// it; removing an absent path removes nothing.
pub open spec fn spec_rm(v: Seq<EntryView>, p: Seq<Seq<char>>) -> Seq<EntryView>
    decreases v.len(),
{
    if v.len() == 0 {
        Seq::<EntryView>::empty()
    } else {
        spec_rm(v.drop_last(), p) + (if path_is_prefix(p, v.last().path) {
            Seq::<EntryView>::empty()
        } else {
            seq![v.last()]
        })
    }
}

/// An entry with this path and kind exists.
pub open spec fn spec_contains(v: Seq<EntryView>, p: Seq<Seq<char>>, dir: bool) -> bool {
    exists|i: int| 0 <= i < v.len() && v[i].path == p && v[i].dir == dir
}

/// A directory tree, as the entries that exist in it.
#[derive(Debug, Clone, PartialEq)]
pub struct FsModel {
    pub entries: Vec<FsEntry>,
}

impl View for FsModel {
    type V = Seq<EntryView>;

    open spec fn view(&self) -> Seq<EntryView> {
        self.entries@.map_values(|e: FsEntry| e@)
    }
}

fn seg_eq(a: &Vec<String>, b: &Vec<String>) -> (r: bool)
    ensures
        r == (path_view(a@) == path_view(b@)),
{
    if a.len() != b.len() {
        proof {
            assert(path_view(a@).len() != path_view(b@).len());
        }
        return false;
    }
    let mut i: usize = 0;
    while i < a.len()
        invariant
            a@.len() == b@.len(),
            i <= a@.len(),
            forall|j: int| 0 <= j < i ==> path_view(a@)[j] == path_view(b@)[j],
        decreases a@.len() - i,
    {
        if !a[i].eq(&b[i]) {
            proof {
                assert(path_view(a@)[i as int] != path_view(b@)[i as int]);
            }
            return false;
        }
        i = i + 1;
    }
    proof {
        assert(path_view(a@) =~= path_view(b@));
    }
    true
}

fn has_prefix(p: &Vec<String>, q: &Vec<String>) -> (r: bool)
    ensures
        r == path_is_prefix(path_view(p@), path_view(q@)),
{
    if p.len() > q.len() {
        return false;
    }
    let mut i: usize = 0;
    while i < p.len()
        invariant
            p@.len() <= q@.len(),
            i <= p@.len(),
            forall|j: int| 0 <= j < i ==> path_view(q@)[j] == path_view(p@)[j],
        decreases p@.len() - i,
    {
        if !q[i].eq(&p[i]) {
            proof {
                assert(path_view(q@).take(path_view(p@).len() as int)[i as int] != path_view(
                    p@,
                )[i as int]);
            }
            return false;
        }
        i = i + 1;
    }
    proof {
        assert(path_view(q@).take(path_view(p@).len() as int) =~= path_view(p@));
    }
    true
}

impl FsModel {
    /// An empty tree.
    pub fn new() -> (m: FsModel)
        ensures
            m@ == Seq::<EntryView>::empty(),
    {
        let m = FsModel { entries: Vec::new() };
        proof {
            assert(m@ =~= Seq::<EntryView>::empty());
        }
        m
    }

    /// Whether an entry of this kind exists at this path.
    pub fn has_entry(&self, path: &Vec<String>, dir: bool) -> (r: bool)
        ensures
            r == spec_contains(self@, path_view(path@), dir),
    {
        let mut i: usize = 0;
        while i < self.entries.len()
            invariant
                i <= self.entries@.len(),
                forall|j: int|
                    0 <= j < i ==> !(self@[j].path == path_view(path@) && self@[j].dir == dir),
            decreases self.entries@.len() - i,
        {
            if self.entries[i].dir == dir && seg_eq(&self.entries[i].path, path) {
                proof {
                    assert(self@[i as int].path == path_view(path@) && self@[i as int].dir
                        == dir);
                }
                return true;
            }
            i = i + 1;
        }
        false
    }

    /// Remove: take out the entry at `path` and everything beneath it; a
    /// file is taken alone; an absent path changes nothing.
    pub fn rm(&mut self, path: &Vec<String>)
        ensures
            final(self)@ == spec_rm(old(self)@, path_view(path@)),
    {
        let ghost all = self@;
        let ghost p = path_view(path@);
        let mut kept: Vec<FsEntry> = Vec::new();
        let mut i: usize = 0;
        proof {
            assert(all.take(0).len() == 0);
            assert(kept@.map_values(|e: FsEntry| e@) =~= spec_rm(all.take(0), p));
        }
        while i < self.entries.len()
            invariant
                i <= self.entries@.len(),
                all == self@,
                p == path_view(path@),
                kept@.map_values(|e: FsEntry| e@) == spec_rm(all.take(i as int), p),
            decreases self.entries@.len() - i,
        {
            let ghost pre = kept@;
            let e = &self.entries[i];
            if !has_prefix(path, &e.path) {
                kept.push(e.clone_entry());
            }
            proof {
                assert(all.take(i + 1).drop_last() =~= all.take(i as int));
                assert(all.take(i + 1).last() == all[i as int]);
                assert(kept@.map_values(|x: FsEntry| x@) =~= spec_rm(all.take(i + 1), p));
            }
            i = i + 1;
        }
        proof {
            assert(all.take(all.len() as int) =~= all);
        }
        self.entries = kept;
    }

    /// Create a directory, destructively: whatever the path held before is
    /// removed first, and a fresh empty directory takes its place.
    pub fn mkdir(&mut self, path: &Vec<String>)
        ensures
            final(self)@ == spec_rm(old(self)@, path_view(path@)).push(
                EntryView { path: path_view(path@), dir: true },
            ),
    {
        self.rm(path);
        let ghost pre = self@;
        self.entries.push(FsEntry { path: clone_path(path), dir: true });
        proof {
            assert(self@ =~= pre.push(EntryView { path: path_view(path@), dir: true }));
        }
    }

    /// Create or overwrite a file, destructively: whatever the path held
    /// before is removed first.
    pub fn mkfile(&mut self, path: &Vec<String>)
        ensures
            final(self)@ == spec_rm(old(self)@, path_view(path@)).push(
                EntryView { path: path_view(path@), dir: false },
            ),
    {
        self.rm(path);
        let ghost pre = self@;
        self.entries.push(FsEntry { path: clone_path(path), dir: false });
        proof {
            assert(self@ =~= pre.push(EntryView { path: path_view(path@), dir: false }));
        }
    }
}

impl FsEntry {
    /// Copy an entry; the contract pins the value.
    pub fn clone_entry(&self) -> (r: FsEntry)
        ensures
            r@ == self@,
            r.dir == self.dir,
    {
        let r = FsEntry { path: clone_path(&self.path), dir: self.dir };
        proof {
            assert(r@ =~= self@);
        }
        r
    }
}

/// Copy a path; the contract pins each segment.
pub fn clone_path(p: &Vec<String>) -> (r: Vec<String>)
    ensures
        path_view(r@) == path_view(p@),
        r@.len() == p@.len(),
{
    let mut r: Vec<String> = Vec::new();
    let mut i: usize = 0;
    while i < p.len()
        invariant
            i <= p@.len(),
            r@.len() == i,
            forall|j: int| 0 <= j < i ==> path_view(r@)[j] == path_view(p@)[j],
        decreases p@.len() - i,
    {
        r.push(p[i].clone());
        i = i + 1;
    }
    proof {
        assert(path_view(r@) =~= path_view(p@));
    }
    r
}

/// Every entry that removal keeps is outside the removed subtree.
pub proof fn lemma_rm_removes_subtree(v: Seq<EntryView>, p: Seq<Seq<char>>, i: int)
    requires
        0 <= i < spec_rm(v, p).len(),
    ensures
        !path_is_prefix(p, spec_rm(v, p)[i].path),
    decreases v.len(),
{
    if v.len() > 0 {
        if i < spec_rm(v.drop_last(), p).len() {
            lemma_rm_removes_subtree(v.drop_last(), p, i);
        }
    }
}

/// Law: removing a path that no entry lies at or beneath is a no-op.
pub proof fn lemma_rm_absent_noop(v: Seq<EntryView>, p: Seq<Seq<char>>)
    requires
        forall|i: int| 0 <= i < v.len() ==> !path_is_prefix(p, (#[trigger] v[i]).path),
    ensures
        spec_rm(v, p) == v,
    decreases v.len(),
{
    if v.len() > 0 {
        assert(!path_is_prefix(p, v.last().path));
        lemma_rm_absent_noop(v.drop_last(), p);
        assert(spec_rm(v, p) =~= v);
    } else {
        assert(spec_rm(v, p) =~= v);
    }
}

/// Law: creating a directory over a path that held a file replaces the file
/// with an empty directory: afterwards the path holds a directory, no file,
/// and nothing lies strictly beneath it.
pub proof fn lemma_mkdir_replaces_file(v: Seq<EntryView>, p: Seq<Seq<char>>)
    ensures
        spec_contains(spec_rm(v, p).push(EntryView { path: p, dir: true }), p, true),
        !spec_contains(spec_rm(v, p).push(EntryView { path: p, dir: true }), p, false),
        forall|i: int|
            0 <= i < spec_rm(v, p).push(EntryView { path: p, dir: true }).len() - 1
                ==> !path_is_prefix(
                p,
                spec_rm(v, p).push(EntryView { path: p, dir: true })[i].path,
            ),
{
    let w = spec_rm(v, p).push(EntryView { path: p, dir: true });
    assert(w[w.len() - 1].path == p && w[w.len() - 1].dir == true);
    assert forall|i: int| 0 <= i < w.len() - 1 implies !path_is_prefix(p, w[i].path) by {
        lemma_rm_removes_subtree(v, p, i);
    }
    assert forall|i: int| 0 <= i < w.len() && w[i].path == p implies w[i].dir == true by {
        if i < w.len() - 1 {
            lemma_rm_removes_subtree(v, p, i);
            assert(p.take(p.len() as int) =~= p);
        }
    }
}

} // verus!
