//! The tree model: a directory-tree snapshot is a path-sorted list of
//! entries, each path holding a file (with content id and executable bit), a
//! symlink, nothing, or an unresolved value. A content store maps content ids
//! to file bytes and symlink targets.

use vstd::prelude::*;
use crate::ids::ContentId;
use crate::ids::bytes_eq;
use crate::textutil::CharOrder;
use crate::textutil::lemma_char_lt_transitive;
use crate::textutil::seq_char_lt;
use crate::textutil::str_cmp;

verus! {

/// The state of one path in one tree snapshot.
pub enum TreeValue {
    /// The path is not present.
    Absent,
    /// A regular file with content `id` and an executable bit.
    File { id: ContentId, executable: bool },
    /// A symbolic link whose target text has content `id`.
    Symlink { id: ContentId },
    /// A value that does not resolve (for example a conflict); never diffed.
    Conflicted,
}

/// The mathematical value of a `TreeValue`.
pub enum TreeValueView {
    Absent,
    File { id: Seq<u8>, executable: bool },
    Symlink { id: Seq<u8> },
    Conflicted,
}

impl View for TreeValue {
    type V = TreeValueView;

    open spec fn view(&self) -> TreeValueView {
        match self {
            TreeValue::Absent => TreeValueView::Absent,
            TreeValue::File { id, executable } => TreeValueView::File {
                id: id@,
                executable: *executable,
            },
            TreeValue::Symlink { id } => TreeValueView::Symlink { id: id@ },
            TreeValue::Conflicted => TreeValueView::Conflicted,
        }
    }
}

impl Clone for TreeValue {
    fn clone(&self) -> (r: Self)
        ensures
            r@ == self@,
    {
        match self {
            TreeValue::Absent => TreeValue::Absent,
            TreeValue::File { id, executable } => TreeValue::File {
                id: id.clone(),
                executable: *executable,
            },
            TreeValue::Symlink { id } => TreeValue::Symlink { id: id.clone() },
            TreeValue::Conflicted => TreeValue::Conflicted,
        }
    }
}

/// Equality of two tree values, byte-exact on content ids.
pub fn tree_value_eq(a: &TreeValue, b: &TreeValue) -> (r: bool)
    ensures
        r == (a@ == b@),
{
    match (a, b) {
        (TreeValue::Absent, TreeValue::Absent) => true,
        (
            TreeValue::File { id: ia, executable: ea },
            TreeValue::File { id: ib, executable: eb },
        ) => ia.same_as(ib) && (*ea == *eb),
        (TreeValue::Symlink { id: ia }, TreeValue::Symlink { id: ib }) => ia.same_as(ib),
        (TreeValue::Conflicted, TreeValue::Conflicted) => true,
        _ => false,
    }
}

/// One (path, value) row of a tree snapshot.
pub struct TreeEntry {
    pub path: String,
    pub value: TreeValue,
}

/// A directory-tree snapshot: entries strictly sorted by path.
pub struct Tree {
    pub entries: Vec<TreeEntry>,
}

impl View for Tree {
    type V = Seq<(Seq<char>, TreeValueView)>;

    open spec fn view(&self) -> Seq<(Seq<char>, TreeValueView)> {
        self.entries@.map(|i: int, e: TreeEntry| (e.path@, e.value@))
    }
}

/// Entries are strictly increasing by path (hence paths are unique).
pub open spec fn tree_sorted(t: Seq<(Seq<char>, TreeValueView)>) -> bool {
    forall|i: int| 0 <= i < t.len() - 1 ==> seq_char_lt(#[trigger] t[i].0, t[i + 1].0)
}

/// In a sorted entry sequence, any earlier path is less than any later one.
pub proof fn lemma_sorted_pairwise(t: Seq<(Seq<char>, TreeValueView)>, i: int, j: int)
    requires
        tree_sorted(t),
        0 <= i < j < t.len(),
    ensures
        seq_char_lt(t[i].0, t[j].0),
    decreases j - i,
{
    if j == i + 1 {
    } else {
        lemma_sorted_pairwise(t, i, j - 1);
        lemma_char_lt_transitive(t[i].0, t[j - 1].0, t[j].0);
    }
}

/// The value a tree snapshot assigns to `path`: the first matching entry's
/// value, or `Absent` when no entry matches.
pub open spec fn tree_lookup(t: Seq<(Seq<char>, TreeValueView)>, path: Seq<char>) -> TreeValueView
    decreases t.len(),
{
    if t.len() == 0 {
        TreeValueView::Absent
    } else if t[0].0 == path {
        t[0].1
    } else {
        tree_lookup(t.drop_first(), path)
    }
}

/// Looking up the path of entry `k` yields that entry's value, provided no
/// earlier entry shares the path.
pub proof fn lemma_lookup_at(t: Seq<(Seq<char>, TreeValueView)>, k: int)
    requires
        0 <= k < t.len(),
        forall|m: int| 0 <= m < k ==> (#[trigger] t[m].0) != t[k].0,
    ensures
        tree_lookup(t, t[k].0) == t[k].1,
    decreases k,
{
    if k == 0 {
    } else {
        assert(t[0].0 != t[k].0);
        assert(t.drop_first()[k - 1] == t[k]);
        lemma_lookup_at(t.drop_first(), k - 1);
    }
}

/// When no entry has path `p`, lookup yields `Absent`.
pub proof fn lemma_lookup_absent(t: Seq<(Seq<char>, TreeValueView)>, p: Seq<char>)
    requires
        forall|m: int| 0 <= m < t.len() ==> (#[trigger] t[m].0) != p,
    ensures
        tree_lookup(t, p) == TreeValueView::Absent,
    decreases t.len(),
{
    if t.len() > 0 {
        lemma_lookup_absent(t.drop_first(), p);
    }
}

/// When lookup yields something other than `Absent`, some entry has path `p`.
pub proof fn lemma_lookup_present(t: Seq<(Seq<char>, TreeValueView)>, p: Seq<char>)
    requires
        tree_lookup(t, p) != TreeValueView::Absent,
    ensures
        exists|m: int| 0 <= m < t.len() && (#[trigger] t[m].0) == p,
    decreases t.len(),
{
    if t.len() == 0 {
    } else if t[0].0 == p {
        assert(t[0].0 == p);
    } else {
        lemma_lookup_present(t.drop_first(), p);
        let m = choose|m: int| 0 <= m < t.drop_first().len() && (#[trigger] t.drop_first()[m].0)
            == p;
        assert(t[m + 1].0 == p);
    }
}

impl Tree {
    /// The empty tree.
    pub fn empty() -> (r: Tree)
        ensures
            r@ == Seq::<(Seq<char>, TreeValueView)>::empty(),
            tree_sorted(r@),
    {
        let r = Tree { entries: Vec::new() };
        proof {
            assert(r@ =~= Seq::<(Seq<char>, TreeValueView)>::empty());
        }
        r
    }

    /// Wraps an entry list as a tree snapshot, provided the entries are
    /// strictly sorted by path; returns `None` otherwise.
    pub fn from_entries(entries: Vec<TreeEntry>) -> (r: Option<Tree>)
        ensures
            r is Some <==> tree_sorted(
                entries@.map(|i: int, e: TreeEntry| (e.path@, e.value@)),
            ),
            r matches Some(t) ==> t@ == entries@.map(|i: int, e: TreeEntry| (e.path@, e.value@))
                && tree_sorted(t@),
    {
        let ghost view = entries@.map(|i: int, e: TreeEntry| (e.path@, e.value@));
        let n = entries.len();
        if n > 0 {
            let mut i: usize = 0;
            while i < n - 1
                invariant
                    n == entries@.len(),
                    n == view.len(),
                    n > 0,
                    i <= n - 1,
                    view == entries@.map(|k: int, e: TreeEntry| (e.path@, e.value@)),
                    forall|k: int| 0 <= k < i ==> seq_char_lt(#[trigger] view[k].0, view[k + 1].0),
                decreases n - 1 - i,
            {
                let order = str_cmp(entries[i].path.as_str(), entries[i + 1].path.as_str());
                if !matches!(order, CharOrder::Less) {
                    proof {
                        assert(view[i as int] == (entries@[i as int].path@, entries@[
                            i as int
                        ].value@));
                        assert(view[i as int + 1] == (entries@[i as int + 1].path@, entries@[
                            i as int + 1
                        ].value@));
                        assert(!seq_char_lt(view[i as int].0, view[i as int + 1].0));
                    }
                    return None;
                }
                i = i + 1;
            }
        }
        let r = Tree { entries };
        Some(r)
    }

    /// The number of entries.
    pub fn len(&self) -> (r: usize)
        ensures
            r == self@.len(),
    {
        self.entries.len()
    }
}

/// A read-only content store: file bytes and symlink targets keyed by
/// content id. Lookups take the first matching entry.
pub struct ContentStore {
    pub files: Vec<(ContentId, Vec<u8>)>,
    pub symlinks: Vec<(ContentId, String)>,
}

/// First-match association lookup over (id bytes, payload) pairs.
pub open spec fn assoc_lookup<T>(entries: Seq<(Seq<u8>, T)>, key: Seq<u8>) -> Option<T>
    decreases entries.len(),
{
    if entries.len() == 0 {
        None
    } else if entries[0].0 == key {
        Some(entries[0].1)
    } else {
        assoc_lookup(entries.drop_first(), key)
    }
}

impl ContentStore {
    /// The store's file table as id bytes paired with content bytes.
    pub open spec fn files_view(&self) -> Seq<(Seq<u8>, Seq<u8>)> {
        self.files@.map(|i: int, e: (ContentId, Vec<u8>)| (e.0@, e.1@))
    }

    /// The store's symlink table as id bytes paired with target text.
    pub open spec fn symlinks_view(&self) -> Seq<(Seq<u8>, Seq<char>)> {
        self.symlinks@.map(|i: int, e: (ContentId, String)| (e.0@, e.1@))
    }

    /// An empty store.
    pub fn new() -> (r: ContentStore)
        ensures
            r.files_view() == Seq::<(Seq<u8>, Seq<u8>)>::empty(),
            r.symlinks_view() == Seq::<(Seq<u8>, Seq<char>)>::empty(),
    {
        let r = ContentStore { files: Vec::new(), symlinks: Vec::new() };
        proof {
            assert(r.files_view() =~= Seq::<(Seq<u8>, Seq<u8>)>::empty());
            assert(r.symlinks_view() =~= Seq::<(Seq<u8>, Seq<char>)>::empty());
        }
        r
    }

    /// Records file content under an id.
    pub fn add_file(&mut self, id: ContentId, content: Vec<u8>)
        ensures
            final(self).files_view() == old(self).files_view().push((id@, content@)),
            final(self).symlinks_view() == old(self).symlinks_view(),
    {
        let ghost old_files = self.files_view();
        self.files.push((id, content));
        proof {
            assert(self.files_view() =~= old_files.push(
                (self.files@.last().0@, self.files@.last().1@),
            ));
        }
    }

    /// Records a symlink target under an id.
    pub fn add_symlink(&mut self, id: ContentId, target: String)
        ensures
            final(self).symlinks_view() == old(self).symlinks_view().push((id@, target@)),
            final(self).files_view() == old(self).files_view(),
    {
        let ghost old_symlinks = self.symlinks_view();
        self.symlinks.push((id, target));
        proof {
            assert(self.symlinks_view() =~= old_symlinks.push(
                (self.symlinks@.last().0@, self.symlinks@.last().1@),
            ));
        }
    }

    /// Reads file content for an id, or `None` when the store lacks it.
    pub fn read_file(&self, id: &ContentId) -> (r: Option<&Vec<u8>>)
        ensures
            match r {
                Some(content) => assoc_lookup(self.files_view(), id@) == Some(content@),
                None => assoc_lookup(self.files_view(), id@) is None,
            },
    {
        let n = self.files.len();
        let mut i: usize = 0;
        proof {
            assert(self.files_view().skip(0) =~= self.files_view());
        }
        while i < n
            invariant
                i <= n,
                n == self.files@.len(),
                assoc_lookup(self.files_view(), id@) == assoc_lookup(
                    self.files_view().skip(i as int),
                    id@,
                ),
            decreases n - i,
        {
            let ghost rest = self.files_view().skip(i as int);
            proof {
                assert(rest[0] == self.files_view()[i as int]);
                assert(rest.drop_first() =~= self.files_view().skip(i as int + 1));
            }
            if bytes_eq(&self.files[i].0.bytes, &id.bytes) {
                return Some(&self.files[i].1);
            }
            i = i + 1;
        }
        proof {
            assert(self.files_view().skip(n as int) =~= Seq::<(Seq<u8>, Seq<u8>)>::empty());
        }
        None
    }

    /// Reads a symlink target for an id, or `None` when the store lacks it.
    pub fn read_symlink(&self, id: &ContentId) -> (r: Option<&String>)
        ensures
            match r {
                Some(target) => assoc_lookup(self.symlinks_view(), id@) == Some(target@),
                None => assoc_lookup(self.symlinks_view(), id@) is None,
            },
    {
        let n = self.symlinks.len();
        let mut i: usize = 0;
        proof {
            assert(self.symlinks_view().skip(0) =~= self.symlinks_view());
        }
        while i < n
            invariant
                i <= n,
                n == self.symlinks@.len(),
                assoc_lookup(self.symlinks_view(), id@) == assoc_lookup(
                    self.symlinks_view().skip(i as int),
                    id@,
                ),
            decreases n - i,
        {
            let ghost rest = self.symlinks_view().skip(i as int);
            proof {
                assert(rest[0] == self.symlinks_view()[i as int]);
                assert(rest.drop_first() =~= self.symlinks_view().skip(i as int + 1));
            }
            if bytes_eq(&self.symlinks[i].0.bytes, &id.bytes) {
                return Some(&self.symlinks[i].1);
            }
            i = i + 1;
        }
        proof {
            assert(self.symlinks_view().skip(n as int) =~= Seq::<(Seq<u8>, Seq<char>)>::empty());
        }
        None
    }
}

} // verus!
