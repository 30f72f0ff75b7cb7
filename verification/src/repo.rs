//! A repository snapshot and the operations the surrounding tool runs
//! against it: resolving a revision argument (defaulting to the working
//! copy `@`), rendering the full unified diff of a commit against its
//! parent tree, listing changed paths, and reading descriptions.

use vstd::prelude::*;
use vstd::string::StrSliceExecFns;
use vstd::string::StringExecFns;
use crate::diff::DiffEntry;
use crate::diff::diff_rows_ok;
use crate::diff::diff_view;
use crate::diff::diff_trees;
use crate::diff::filter_view;
use crate::diff::list_changed_paths;
use crate::entry::format_entry;
use crate::entry::spec_format_entry;
use crate::errors::DiffError;
use crate::errors::diff_error_of_resolution;
use crate::errors::resolution_to_diff_error;
use crate::graph::CommitGraph;
use crate::graph::find_index;
use crate::graph::has_commit;
use crate::graph::index_of;
use crate::graph::lemma_index_of_unique;
use crate::graph::resolve_revision;
use crate::graph::spec_resolve;
use crate::ids::CommitId;
use crate::textutil::seq_char_lt;
use crate::textutil::str_eq_str;
use crate::tree::ContentStore;
use crate::tree::Tree;
use crate::tree::TreeValueView;
use crate::tree::tree_lookup;
use crate::tree::tree_sorted;
use crate::tree::tree_value_eq;

verus! {

/// The kind of version-control repository in use.
#[derive(Debug, Clone, PartialEq, Eq, Structural)]
pub enum VcsType {
    Git,
    Jujutsu,
}

/// A read-only snapshot of a repository: the commit graph, the tree table
/// that commits reference, the content store behind the trees, and the
/// working-copy commit (the revision `@`), when one exists.
pub struct RepoSnapshot {
    pub graph: CommitGraph,
    pub trees: Vec<Tree>,
    pub store: ContentStore,
    pub workspace_commit: Option<CommitId>,
}

impl RepoSnapshot {
    /// Well-formed: unique commit ids, sorted trees, and every tree
    /// reference of every commit lands inside the tree table.
    pub open spec fn wf(&self) -> bool {
        &&& self.graph.wf()
        &&& forall|t: int|
            0 <= t < self.trees@.len() ==> tree_sorted((#[trigger] self.trees@[t])@)
        &&& forall|k: int|
            0 <= k < self.graph.commits_view().len() ==> {
                &&& 0 <= (#[trigger] self.graph.commits_view()[k]).tree < self.trees@.len()
                &&& 0 <= self.graph.commits_view()[k].parent_tree < self.trees@.len()
            }
    }

    /// The commit position a revision text denotes: `@` names the
    /// working-copy commit, anything else goes through the resolver; the
    /// resolved id must then exist in the graph.
    pub open spec fn commit_for_spec(&self, rev: Seq<char>) -> Result<int, DiffError> {
        let g = self.graph.commits_view();
        if rev == "@"@ {
            match self.workspace_commit {
                None => Err(DiffError::NoWorkingCopy),
                Some(wid) => if has_commit(g, wid@) {
                    Ok(index_of(g, wid@))
                } else {
                    Err(DiffError::ObjectNotFound)
                },
            }
        } else {
            match spec_resolve(g, self.graph.heads_view(), rev) {
                Err(e) => Err(diff_error_of_resolution(e)),
                Ok(idb) => if has_commit(g, idb) {
                    Ok(index_of(g, idb))
                } else {
                    Err(DiffError::ObjectNotFound)
                },
            }
        }
    }

    /// The revision text an optional argument denotes: a missing argument
    /// stands for the working copy `@`.
    pub open spec fn rev_of(revision: Option<&str>) -> Seq<char> {
        match revision {
            None => "@"@,
            Some(r) => r@,
        }
    }

    /// The tree of commit `cx`, before (its parent tree) or after (its own).
    pub open spec fn tree_at(&self, cx: int, parent: bool) -> Seq<(Seq<char>, TreeValueView)> {
        if parent {
            self.trees@[self.graph.commits_view()[cx].parent_tree]@
        } else {
            self.trees@[self.graph.commits_view()[cx].tree]@
        }
    }

    /// Resolves an optional revision argument to a commit position.
    pub fn commit_for_revision(&self, revision: Option<&str>) -> (r: Result<usize, DiffError>)
        requires
            self.wf(),
        ensures
            match self.commit_for_spec(Self::rev_of(revision)) {
                Ok(cx) => r == Ok::<usize, DiffError>(cx as usize) && 0 <= cx
                    < self.graph.commits_view().len() && cx == cx as usize as int,
                Err(e) => r == Err::<usize, DiffError>(e),
            },
    {
        let ghost g = self.graph.commits_view();
        let rev: &str = match revision {
            Some(r) => r,
            None => "@",
        };
        if str_eq_str(rev, "@") {
            match &self.workspace_commit {
                None => Err(DiffError::NoWorkingCopy),
                Some(wid) => {
                    match find_index(&self.graph.commits, wid) {
                        Some(cx) => {
                            proof {
                                lemma_index_of_unique(g, cx as int);
                            }
                            Ok(cx)
                        },
                        None => Err(DiffError::ObjectNotFound),
                    }
                },
            }
        } else {
            match resolve_revision(&self.graph, rev) {
                Err(e) => Err(resolution_to_diff_error(e)),
                Ok(id) => {
                    match find_index(&self.graph.commits, &id) {
                        Some(cx) => {
                            proof {
                                lemma_index_of_unique(g, cx as int);
                            }
                            Ok(cx)
                        },
                        None => Err(DiffError::ObjectNotFound),
                    }
                },
            }
        }
    }

    /// The tree-table position of a commit's own tree or its parent tree.
    pub fn tree_index(&self, cx: usize, parent: bool) -> (r: usize)
        requires
            self.wf(),
            0 <= (cx as int) < self.graph.commits_view().len(),
        ensures
            parent ==> r as int == self.graph.commits_view()[cx as int].parent_tree,
            !parent ==> r as int == self.graph.commits_view()[cx as int].tree,
            (r as int) < self.trees@.len(),
    {
        proof {
            assert(self.graph.commits_view()[cx as int] == self.graph.commits@[cx as int]@);
        }
        if parent {
            self.graph.commits[cx].parent_tree
        } else {
            self.graph.commits[cx].tree
        }
    }
}

/// The concatenation of the rendered texts of all rows, or `None` when any
/// row needs content the store lacks.
pub open spec fn spec_render_rows(
    rows: Seq<(Seq<char>, TreeValueView, TreeValueView)>,
    files: Seq<(Seq<u8>, Seq<u8>)>,
    symlinks: Seq<(Seq<u8>, Seq<char>)>,
) -> Option<Seq<char>>
    decreases rows.len(),
{
    if rows.len() == 0 {
        Some(Seq::empty())
    } else {
        match spec_format_entry(rows[0].0, rows[0].1, rows[0].2, files, symlinks) {
            None => None,
            Some(t) => match spec_render_rows(rows.drop_first(), files, symlinks) {
                None => None,
                Some(rest) => Some(t + rest),
            },
        }
    }
}

/// Renders every diff row in order and concatenates the texts; fails with
/// `ContentUnavailable` when any row's content is missing, returning no
/// partial output.
pub fn render_rows(entries: &Vec<DiffEntry>, store: &ContentStore) -> (r: Result<
    String,
    DiffError,
>)
    ensures
        match r {
            Ok(s) => spec_render_rows(
                diff_view(entries@),
                store.files_view(),
                store.symlinks_view(),
            ) == Some(s@),
            Err(e) => spec_render_rows(
                diff_view(entries@),
                store.files_view(),
                store.symlinks_view(),
            ) is None && e == DiffError::ContentUnavailable,
        },
{
    let ghost rows = diff_view(entries@);
    let ghost files = store.files_view();
    let ghost symlinks = store.symlinks_view();
    let mut out = String::new();
    let n = entries.len();
    let mut i: usize = 0;
    proof {
        assert(rows.skip(0) =~= rows);
    }
    while i < n
        invariant
            i <= n,
            n == entries@.len(),
            n == rows.len(),
            rows == diff_view(entries@),
            files == store.files_view(),
            symlinks == store.symlinks_view(),
            match spec_render_rows(rows.skip(i as int), files, symlinks) {
                Some(rest) => spec_render_rows(rows, files, symlinks) == Some(out@ + rest),
                None => spec_render_rows(rows, files, symlinks) is None,
            },
        decreases n - i,
    {
        let ghost rest_rows = rows.skip(i as int);
        proof {
            assert(rest_rows[0] == rows[i as int]);
            assert(rows[i as int] == entries@[i as int]@);
            assert(rest_rows.drop_first() =~= rows.skip(i as int + 1));
        }
        match format_entry(&entries[i], store) {
            Ok(text) => {
                let ghost out_before = out@;
                out.append(text.as_str());
                proof {
                    match spec_render_rows(rows.skip(i as int + 1), files, symlinks) {
                        Some(rest) => {
                            assert(spec_render_rows(rest_rows, files, symlinks) == Some(
                                text@ + rest,
                            ));
                            assert(out_before + (text@ + rest) =~= out@ + rest);
                        },
                        None => {
                            assert(spec_render_rows(rest_rows, files, symlinks) is None);
                        },
                    }
                }
            },
            Err(e) => {
                proof {
                    assert(spec_render_rows(rest_rows, files, symlinks) is None);
                }
                return Err(DiffError::ContentUnavailable);
            },
        }
        i = i + 1;
    }
    proof {
        assert(rows.skip(n as int) =~= Seq::<(Seq<char>, TreeValueView, TreeValueView)>::empty());
        assert(spec_render_rows(rows.skip(n as int), files, symlinks) == Some(
            Seq::<char>::empty(),
        ));
        assert(out@ + Seq::<char>::empty() =~= out@);
    }
    Ok(out)
}

/// Computes the fully formatted unified diff of the commit a revision
/// argument denotes, against that commit's parent tree, optionally scoped
/// to a path filter. The output is the concatenation, in path order, of
/// the rendered texts of the changed paths; identical trees yield the
/// empty string, which is not an error here.
pub fn diff_revision(
    snapshot: &RepoSnapshot,
    revision: Option<&str>,
    path_filter: Option<&Vec<String>>,
) -> (r: Result<String, DiffError>)
    requires
        snapshot.wf(),
    ensures
        match snapshot.commit_for_spec(RepoSnapshot::rev_of(revision)) {
            Ok(cx) => exists|rows: Seq<(Seq<char>, TreeValueView, TreeValueView)>|
                {
                    &&& #[trigger] diff_rows_ok(
                        snapshot.tree_at(cx, true),
                        snapshot.tree_at(cx, false),
                        filter_view(path_filter),
                        rows,
                    )
                    &&& match r {
                        Ok(s) => spec_render_rows(
                            rows,
                            snapshot.store.files_view(),
                            snapshot.store.symlinks_view(),
                        ) == Some(s@),
                        Err(e) => e == DiffError::ContentUnavailable && spec_render_rows(
                            rows,
                            snapshot.store.files_view(),
                            snapshot.store.symlinks_view(),
                        ) is None,
                    }
                },
            Err(e) => r == Err::<String, DiffError>(e),
        },
{
    let cx = match snapshot.commit_for_revision(revision) {
        Ok(cx) => cx,
        Err(e) => {
            return Err(e);
        },
    };
    let pt = snapshot.tree_index(cx, true);
    let tt = snapshot.tree_index(cx, false);
    let parent_tree = &snapshot.trees[pt];
    let tree = &snapshot.trees[tt];
    let entries = diff_trees(parent_tree, tree, path_filter);
    let result = render_rows(&entries, &snapshot.store);
    proof {
        assert(diff_rows_ok(
            snapshot.tree_at(cx as int, true),
            snapshot.tree_at(cx as int, false),
            filter_view(path_filter),
            diff_view(entries@),
        ));
    }
    result
}

/// Whether the commit a revision argument denotes changes anything: its
/// tree differs from its parent tree.
pub fn has_changes_for_revision(snapshot: &RepoSnapshot, revision: Option<&str>) -> (r: Result<
    bool,
    DiffError,
>)
    requires
        snapshot.wf(),
    ensures
        match snapshot.commit_for_spec(RepoSnapshot::rev_of(revision)) {
            Ok(cx) => r == Ok::<bool, DiffError>(
                snapshot.tree_at(cx, true) != snapshot.tree_at(cx, false),
            ),
            Err(e) => r == Err::<bool, DiffError>(e),
        },
{
    let cx = match snapshot.commit_for_revision(revision) {
        Ok(cx) => cx,
        Err(e) => {
            return Err(e);
        },
    };
    let pt = snapshot.tree_index(cx, true);
    let tt = snapshot.tree_index(cx, false);
    let same = tree_eq(&snapshot.trees[pt], &snapshot.trees[tt]);
    Ok(!same)
}

/// Entry-by-entry equality of two tree snapshots.
pub fn tree_eq(x: &Tree, y: &Tree) -> (r: bool)
    ensures
        r == (x@ == y@),
{
    let nx = x.entries.len();
    let ny = y.entries.len();
    if nx != ny {
        proof {
            assert(x@.len() == nx);
            assert(y@.len() == ny);
        }
        return false;
    }
    let mut i: usize = 0;
    while i < nx
        invariant
            i <= nx,
            nx == x.entries@.len(),
            nx == y.entries@.len(),
            forall|k: int| 0 <= k < i ==> x@[k] == y@[k],
        decreases nx - i,
    {
        proof {
            assert(x@[i as int] == (x.entries@[i as int].path@, x.entries@[i as int].value@));
            assert(y@[i as int] == (y.entries@[i as int].path@, y.entries@[i as int].value@));
        }
        if !str_eq_str(x.entries[i].path.as_str(), y.entries[i].path.as_str()) {
            return false;
        }
        if !tree_value_eq(&x.entries[i].value, &y.entries[i].value) {
            return false;
        }
        i = i + 1;
    }
    proof {
        assert(x@ =~= y@);
    }
    true
}

/// The description of the commit a revision argument denotes: `None` when
/// the description is empty.
pub fn get_description(snapshot: &RepoSnapshot, revision: Option<&str>) -> (r: Result<
    Option<String>,
    DiffError,
>)
    requires
        snapshot.wf(),
    ensures
        match snapshot.commit_for_spec(RepoSnapshot::rev_of(revision)) {
            Ok(cx) => match r {
                Ok(None) => snapshot.graph.commits_view()[cx].description.len() == 0,
                Ok(Some(s)) => s@ == snapshot.graph.commits_view()[cx].description && s@.len()
                    > 0,
                Err(_) => false,
            },
            Err(e) => r == Err::<Option<String>, DiffError>(e),
        },
{
    let cx = match snapshot.commit_for_revision(revision) {
        Ok(cx) => cx,
        Err(e) => {
            return Err(e);
        },
    };
    proof {
        assert(snapshot.graph.commits_view()[cx as int] == snapshot.graph.commits@[cx as int]@);
    }
    let desc = &snapshot.graph.commits[cx].description;
    if desc.as_str().unicode_len() == 0 {
        Ok(None)
    } else {
        Ok(Some(desc.clone()))
    }
}

/// Decides the identities for rewriting a commit's description: a side
/// (author or committer) whose name or email is empty falls back to the
/// configured user identity, and the write is refused when a fallback is
/// needed but the configured identity is itself incomplete. Returns, per
/// side, whether the configured identity must stand in.
pub fn plan_signatures(
    author_name: &str,
    author_email: &str,
    committer_name: &str,
    committer_email: &str,
    user_name: &str,
    user_email: &str,
) -> (r: Option<(bool, bool)>)
    ensures
        ({
            let needs_author = author_name@.len() == 0 || author_email@.len() == 0;
            let needs_committer = committer_name@.len() == 0 || committer_email@.len() == 0;
            let user_ok = user_name@.len() > 0 && user_email@.len() > 0;
            if (needs_author || needs_committer) && !user_ok {
                r is None
            } else {
                r == Some((needs_author, needs_committer))
            }
        }),
{
    let needs_author = author_name.unicode_len() == 0 || author_email.unicode_len() == 0;
    let needs_committer = committer_name.unicode_len() == 0 || committer_email.unicode_len()
        == 0;
    if (needs_author || needs_committer) && (user_name.unicode_len() == 0
        || user_email.unicode_len() == 0) {
        None
    } else {
        Some((needs_author, needs_committer))
    }
}

/// The paths the working-copy commit changes against its parent tree, in
/// path order.
pub fn get_modified_files(snapshot: &RepoSnapshot) -> (r: Result<Vec<String>, DiffError>)
    requires
        snapshot.wf(),
    ensures
        match snapshot.commit_for_spec("@"@) {
            Ok(cx) => match r {
                Ok(paths) => {
                    let before = snapshot.tree_at(cx, true);
                    let after = snapshot.tree_at(cx, false);
                    &&& (forall|m: int|
                        0 <= m < paths@.len() - 1 ==> seq_char_lt(
                            (#[trigger] paths@[m])@,
                            paths@[m + 1]@,
                        ))
                    &&& (forall|m: int|
                        0 <= m < paths@.len() ==> tree_lookup(before, (#[trigger] paths@[m])@)
                            != tree_lookup(after, paths@[m]@))
                    &&& (forall|p: Seq<char>|
                        #![trigger tree_lookup(before, p), tree_lookup(after, p)]
                        tree_lookup(before, p) != tree_lookup(after, p) ==> exists|m: int|
                            0 <= m < paths@.len() && (#[trigger] paths@[m])@ == p)
                },
                Err(_) => false,
            },
            Err(e) => r == Err::<Vec<String>, DiffError>(e),
        },
{
    let cx = match snapshot.commit_for_revision(None) {
        Ok(cx) => cx,
        Err(e) => {
            return Err(e);
        },
    };
    let pt = snapshot.tree_index(cx, true);
    let tt = snapshot.tree_index(cx, false);
    Ok(list_changed_paths(&snapshot.trees[pt], &snapshot.trees[tt]))
}

} // verus!
