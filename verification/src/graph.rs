//! The commit graph and revision resolver: a query resolves to exactly one
//! commit, by the exact full-hex fast path or by case-insensitive prefix
//! search over the commit ids and change-id display forms of every commit
//! reachable from the heads.

use vstd::prelude::*;
use vstd::set_lib::lemma_len_subset;
use vstd::set_lib::lemma_int_range;
use vstd::set_lib::set_int_range;
use vstd::string::StrSliceExecFns;
use crate::errors::ResolutionError;
use crate::ids::ChangeId;
use crate::ids::CommitId;
use crate::ids::bytes_eq;
use crate::ids::bytes_of_hex;
use crate::ids::hex_of_bytes;
use crate::ids::is_full_hex;
use crate::ids::reverse_hex_of_bytes;
use crate::textutil::seq_char_prefix;
use crate::textutil::str_starts_with;

verus! {

/// One commit of the graph: its two identifiers, its parents, references
/// into the snapshot's tree table for its own tree and its (merged) parent
/// tree, and its description text.
pub struct Commit {
    pub id: CommitId,
    pub change_id: ChangeId,
    pub parent_ids: Vec<CommitId>,
    pub tree: usize,
    pub parent_tree: usize,
    pub description: String,
}

/// The mathematical value of a commit.
pub struct CommitView {
    pub id: Seq<u8>,
    pub change_id: Seq<u8>,
    pub parents: Seq<Seq<u8>>,
    pub tree: int,
    pub parent_tree: int,
    pub description: Seq<char>,
}

impl View for Commit {
    type V = CommitView;

    open spec fn view(&self) -> CommitView {
        CommitView {
            id: self.id@,
            change_id: self.change_id@,
            parents: self.parent_ids@.map(|i: int, c: CommitId| c@),
            tree: self.tree as int,
            parent_tree: self.parent_tree as int,
            description: self.description@,
        }
    }
}

/// An immutable snapshot of the commit graph: the commits the store holds
/// and the current head ids.
pub struct CommitGraph {
    pub commits: Vec<Commit>,
    pub heads: Vec<CommitId>,
}

/// The commits of a commit vector, as mathematical values.
pub open spec fn commits_of(s: Seq<Commit>) -> Seq<CommitView> {
    s.map(|i: int, c: Commit| c@)
}

impl CommitGraph {
    /// The graph's commits as mathematical values.
    pub open spec fn commits_view(&self) -> Seq<CommitView> {
        commits_of(self.commits@)
    }

    /// The graph's head ids as byte sequences.
    pub open spec fn heads_view(&self) -> Seq<Seq<u8>> {
        self.heads@.map(|i: int, h: CommitId| h@)
    }

    /// Commit ids are unique within the snapshot.
    pub open spec fn wf(&self) -> bool {
        graph_wf(self.commits_view())
    }
}

/// Commit ids are unique.
pub open spec fn graph_wf(g: Seq<CommitView>) -> bool {
    forall|i: int, j: int|
        0 <= i < j < g.len() ==> (#[trigger] g[i]).id != (#[trigger] g[j]).id
}

/// Some commit of `g` has id `id`.
pub open spec fn has_commit(g: Seq<CommitView>, id: Seq<u8>) -> bool {
    exists|k: int| 0 <= k < g.len() && (#[trigger] g[k]).id == id
}

/// The index of the commit with id `id` (meaningful when one exists).
pub open spec fn index_of(g: Seq<CommitView>, id: Seq<u8>) -> int {
    choose|k: int| 0 <= k < g.len() && (#[trigger] g[k]).id == id
}

/// The commit with id `id` (meaningful when one exists).
pub open spec fn commit_of(g: Seq<CommitView>, id: Seq<u8>) -> CommitView {
    g[index_of(g, id)]
}

/// In a well-formed graph the index of a commit's id is that commit's own
/// position.
pub proof fn lemma_index_of_unique(g: Seq<CommitView>, j: int)
    requires
        graph_wf(g),
        0 <= j < g.len(),
    ensures
        has_commit(g, g[j].id),
        index_of(g, g[j].id) == j,
        commit_of(g, g[j].id) == g[j],
{
    assert(0 <= j < g.len() && g[j].id == g[j].id);
    let k = index_of(g, g[j].id);
    assert(0 <= k < g.len() && g[k].id == g[j].id);
    if k < j {
        assert(g[k].id != g[j].id);
    } else if j < k {
        assert(g[j].id != g[k].id);
    }
}

/// A walk through the graph by ids: it starts at a head, and each step goes
/// from a commit the graph holds to one of its parents.
pub open spec fn is_id_path(g: Seq<CommitView>, heads: Seq<Seq<u8>>, p: Seq<Seq<u8>>) -> bool {
    &&& p.len() >= 1
    &&& heads.contains(p[0])
    &&& forall|k: int|
        0 <= k < p.len() - 1 ==> has_commit(g, #[trigger] p[k]) && commit_of(g, p[k]).parents.contains(
            p[k + 1],
        )
}

/// `id` lies on some walk from the heads.
pub open spec fn reachable(g: Seq<CommitView>, heads: Seq<Seq<u8>>, id: Seq<u8>) -> bool {
    exists|p: Seq<Seq<u8>>| is_id_path(g, heads, p) && p.last() == id
}

/// A walk through the graph by commit positions.
pub open spec fn is_index_path(g: Seq<CommitView>, heads: Seq<Seq<u8>>, p: Seq<int>) -> bool {
    &&& p.len() >= 1
    &&& (forall|k: int| 0 <= k < p.len() ==> 0 <= #[trigger] p[k] < g.len())
    &&& heads.contains(g[p[0]].id)
    &&& forall|k: int|
        0 <= k < p.len() - 1 ==> g[#[trigger] p[k]].parents.contains(g[p[k + 1]].id)
}

/// The commit at position `ix` lies on some walk from the heads.
pub open spec fn reachable_ix(g: Seq<CommitView>, heads: Seq<Seq<u8>>, ix: int) -> bool {
    exists|p: Seq<int>| is_index_path(g, heads, p) && p.last() == ix
}

/// For a well-formed graph, reachability by id and by position coincide.
pub proof fn lemma_reachable_correspondence(g: Seq<CommitView>, heads: Seq<Seq<u8>>, ix: int)
    requires
        graph_wf(g),
        0 <= ix < g.len(),
    ensures
        reachable(g, heads, g[ix].id) <==> reachable_ix(g, heads, ix),
{
    if reachable(g, heads, g[ix].id) {
        let p = choose|p: Seq<Seq<u8>>| is_id_path(g, heads, p) && p.last() == g[ix].id;
        let q = Seq::new(
            p.len(),
            |k: int| if k == p.len() - 1 { ix } else { index_of(g, p[k]) },
        );
        assert forall|k: int| 0 <= k < q.len() implies 0 <= #[trigger] q[k] < g.len() && g[q[k]].id
            == p[k] by {
            if k == p.len() - 1 {
            } else {
                assert(has_commit(g, p[k]));
            }
        }
        assert(heads.contains(g[q[0]].id));
        assert forall|k: int| 0 <= k < q.len() - 1 implies g[#[trigger] q[k]].parents.contains(
            g[q[k + 1]].id,
        ) by {
            assert(has_commit(g, p[k]));
            lemma_index_of_unique(g, q[k]);
            assert(index_of(g, p[k]) == q[k] || k == p.len() - 1);
            assert(commit_of(g, p[k]) == g[q[k]]) by {
                if k < p.len() - 1 {
                    assert(g[q[k]].id == p[k]);
                    assert(index_of(g, g[q[k]].id) == q[k]);
                }
            }
            assert(commit_of(g, p[k]).parents.contains(p[k + 1]));
            assert(g[q[k + 1]].id == p[k + 1]);
        }
        assert(is_index_path(g, heads, q));
        assert(q.last() == ix);
    }
    if reachable_ix(g, heads, ix) {
        let q = choose|q: Seq<int>| is_index_path(g, heads, q) && q.last() == ix;
        let p = Seq::new(q.len(), |k: int| g[q[k]].id);
        assert(p[0] == g[q[0]].id);
        assert forall|k: int| 0 <= k < p.len() - 1 implies has_commit(g, #[trigger] p[k])
            && commit_of(g, p[k]).parents.contains(p[k + 1]) by {
            lemma_index_of_unique(g, q[k]);
            assert(commit_of(g, p[k]) == g[q[k]]);
            assert(g[q[k]].parents.contains(g[q[k + 1]].id));
        }
        assert(is_id_path(g, heads, p));
        assert(p.last() == g[ix].id);
    }
}

/// A head commit is reachable.
pub proof fn lemma_reachable_ix_head(g: Seq<CommitView>, heads: Seq<Seq<u8>>, ix: int)
    requires
        0 <= ix < g.len(),
        heads.contains(g[ix].id),
    ensures
        reachable_ix(g, heads, ix),
{
    let p: Seq<int> = seq![ix];
    assert(is_index_path(g, heads, p));
    assert(p.last() == ix);
}

/// A parent (present in the graph) of a reachable commit is reachable.
pub proof fn lemma_reachable_ix_parent(g: Seq<CommitView>, heads: Seq<Seq<u8>>, ix: int, pj: int)
    requires
        reachable_ix(g, heads, ix),
        0 <= ix < g.len(),
        0 <= pj < g.len(),
        g[ix].parents.contains(g[pj].id),
    ensures
        reachable_ix(g, heads, pj),
{
    let p = choose|p: Seq<int>| is_index_path(g, heads, p) && p.last() == ix;
    let q = p.push(pj);
    assert(q[0] == p[0]);
    assert forall|k: int| 0 <= k < q.len() - 1 implies g[#[trigger] q[k]].parents.contains(
        g[q[k + 1]].id,
    ) by {
        if k < p.len() - 1 {
            assert(q[k] == p[k]);
            assert(q[k + 1] == p[k + 1]);
        } else {
            assert(q[k] == p.last());
            assert(q[k + 1] == pj);
        }
    }
    assert(is_index_path(g, heads, q));
    assert(q.last() == pj);
}

/// When the heads and the parent relation lead nowhere new (the visited
/// marks are closed), every commit on a walk from the heads is marked.
pub proof fn lemma_closed_covers_paths(
    g: Seq<CommitView>,
    heads: Seq<Seq<u8>>,
    visited: Seq<bool>,
    p: Seq<int>,
)
    requires
        graph_wf(g),
        visited.len() == g.len(),
        forall|h: int|
            0 <= h < heads.len() && has_commit(g, #[trigger] heads[h]) ==> visited[index_of(
                g,
                heads[h],
            )],
        forall|jx: int, pj: int|
            0 <= jx < g.len() && visited[jx] && 0 <= pj < g.len() && (#[trigger] g[jx].parents.contains(
                (#[trigger] g[pj]).id,
            )) ==> visited[pj],
        is_index_path(g, heads, p),
    ensures
        visited[p.last()],
    decreases p.len(),
{
    if p.len() == 1 {
        let h = choose|h: int| 0 <= h < heads.len() && heads[h] == g[p[0]].id;
        assert(has_commit(g, heads[h])) by {
            assert(0 <= p[0] < g.len() && g[p[0]].id == heads[h]);
        }
        lemma_index_of_unique(g, p[0]);
        assert(visited[index_of(g, heads[h])]);
    } else {
        let q = p.drop_last();
        assert(is_index_path(g, heads, q)) by {
            assert(q[0] == p[0]);
            assert(forall|k: int| 0 <= k < q.len() ==> #[trigger] q[k] == p[k]);
        }
        lemma_closed_covers_paths(g, heads, visited, q);
        let last = p.len() - 1;
        assert(q.last() == p[last - 1]);
        assert(g[p[last - 1]].parents.contains(g[p[last]].id));
        assert(visited[p[last]]);
    }
}

/// The commit's displayed commit id or change id starts with the
/// (lower-cased) query.
pub open spec fn query_matches_commit(c: CommitView, qlow: Seq<char>) -> bool {
    seq_char_prefix(hex_of_bytes(c.id), qlow) || seq_char_prefix(
        reverse_hex_of_bytes(c.change_id),
        qlow,
    )
}

/// `id` names a reachable commit whose display forms match the query.
pub open spec fn matched(
    g: Seq<CommitView>,
    heads: Seq<Seq<u8>>,
    qlow: Seq<char>,
    id: Seq<u8>,
) -> bool {
    has_commit(g, id) && reachable(g, heads, id) && query_matches_commit(commit_of(g, id), qlow)
}

/// The Unicode alphanumeric character property.
pub uninterp spec fn is_unicode_alphanumeric(c: char) -> bool;

/// Relies on `char::is_alphanumeric`: a pure property of the character;
/// ASCII letters and digits are alphanumeric.
#[verifier::external_body]
fn char_is_alphanumeric(c: char) -> (r: bool)
    ensures
        r == is_unicode_alphanumeric(c),
        ('a' <= c && c <= 'z') || ('A' <= c && c <= 'Z') || ('0' <= c && c <= '9') ==> r,
{
    c.is_alphanumeric()
}

/// A query character the resolver accepts: alphanumeric, or one of the four
/// punctuation characters that plain revision names may carry.
pub open spec fn allowed_query_char(c: char) -> bool {
    is_unicode_alphanumeric(c) || c == '-' || c == '_' || c == '.' || c == ':'
}

/// A non-empty query of allowed characters.
pub open spec fn valid_query(q: Seq<char>) -> bool {
    q.len() > 0 && forall|i: int| 0 <= i < q.len() ==> allowed_query_char(#[trigger] q[i])
}

/// The text that Unicode lower-casing assigns to a character sequence.
pub uninterp spec fn lower_of(s: Seq<char>) -> Seq<char>;

/// An ASCII character lower-cased: letters `A`-`Z` move to `a`-`z`, all
/// other characters are unchanged.
pub open spec fn ascii_lower_char(c: char) -> char {
    if 'A' <= c && c <= 'Z' {
        ((c as int) + 32) as char
    } else {
        c
    }
}

/// All characters of `s` are ASCII.
pub open spec fn chars_all_ascii(s: Seq<char>) -> bool {
    forall|i: int| 0 <= i < s.len() ==> ((#[trigger] s[i]) as int) < 128
}

/// Relies on `str::to_lowercase`: the result is a pure function of the
/// characters, and ASCII characters map to their ASCII lowercase forms.
#[verifier::external_body]
fn lowercase_str(s: &str) -> (r: String)
    ensures
        r@ == lower_of(s@),
        chars_all_ascii(s@) ==> r@ == s@.map(|i: int, c: char| ascii_lower_char(c)),
{
    s.to_lowercase()
}

/// Checks that a revision query is non-empty and holds only alphanumeric
/// characters, hyphens, underscores, dots and colons; anything else is
/// refused before any graph traversal.
pub fn validate_revision_id(rev: &str) -> (r: Result<(), ResolutionError>)
    ensures
        r is Ok <==> valid_query(rev@),
        r matches Err(e) ==> e == ResolutionError::InvalidSyntax,
{
    let len = rev.unicode_len();
    if len == 0 {
        return Err(ResolutionError::InvalidSyntax);
    }
    let mut i: usize = 0;
    while i < len
        invariant
            len == rev@.len(),
            i <= len,
            forall|j: int| 0 <= j < i ==> allowed_query_char(#[trigger] rev@[j]),
        decreases len - i,
    {
        let c = rev.get_char(i);
        let ok = char_is_alphanumeric(c) || c == '-' || c == '_' || c == '.' || c == ':';
        if !ok {
            return Err(ResolutionError::InvalidSyntax);
        }
        i = i + 1;
    }
    Ok(())
}

/// The outcome that resolution owes the caller: a syntax failure for an
/// invalid query; the literal bytes for a full-length hex query, with no
/// existence check; else the single reachable commit matching the
/// lower-cased query by commit-id hex or change-id display prefix, or
/// `NotFound`/`Ambiguous` when no commit or more than one matches.
pub open spec fn spec_resolve(
    g: Seq<CommitView>,
    heads: Seq<Seq<u8>>,
    q: Seq<char>,
) -> Result<Seq<u8>, ResolutionError> {
    if !valid_query(q) {
        Err(ResolutionError::InvalidSyntax)
    } else if is_full_hex(q) {
        Ok(bytes_of_hex(q))
    } else if exists|id: Seq<u8>|
        matched(g, heads, lower_of(q), id) && (forall|id2: Seq<u8>|
            matched(g, heads, lower_of(q), id2) ==> id2 == id) {
        Ok(
            choose|id: Seq<u8>|
                matched(g, heads, lower_of(q), id) && (forall|id2: Seq<u8>|
                    matched(g, heads, lower_of(q), id2) ==> id2 == id),
        )
    } else if forall|id: Seq<u8>| !matched(g, heads, lower_of(q), id) {
        Err(ResolutionError::NotFound)
    } else {
        Err(ResolutionError::Ambiguous)
    }
}

/// Some element of the worklist equals `ix`.
pub open spec fn queue_has(q: Seq<usize>, ix: int) -> bool {
    exists|k: int| 0 <= k < q.len() && (#[trigger] q[k]) as int == ix
}

/// Resolves a revision query against the graph: an invalid query fails
/// fast with `InvalidSyntax`; a full-length hex literal resolves to its own
/// bytes without any existence check; otherwise every commit reachable from
/// the heads is visited once, those whose commit-id hex or change-id
/// display starts with the lower-cased query are collected, and the single
/// match is returned - zero matches fail with `NotFound`, several with
/// `Ambiguous`.
#[verifier::rlimit(100)]
pub fn resolve_revision(graph: &CommitGraph, query: &str) -> (r: Result<CommitId, ResolutionError>)
    requires
        graph.wf(),
    ensures
        match r {
            Ok(id) => spec_resolve(graph.commits_view(), graph.heads_view(), query@) == Ok::<
                Seq<u8>,
                ResolutionError,
            >(id@),
            Err(e) => spec_resolve(graph.commits_view(), graph.heads_view(), query@) == Err::<
                Seq<u8>,
                ResolutionError,
            >(e),
        },
{
    let ghost g = graph.commits_view();
    let ghost hs = graph.heads_view();
    match validate_revision_id(query) {
        Ok(_) => {},
        Err(e) => {
            return Err(e);
        },
    }
    if let Some(id) = CommitId::try_from_hex(query) {
        return Ok(id);
    }
    let qlow = lowercase_str(query);
    let ghost ql = lower_of(query@);
    let n = graph.commits.len();
    let mut visited: Vec<bool> = Vec::new();
    while visited.len() < n
        invariant
            visited@.len() <= n,
            forall|j: int| 0 <= j < visited@.len() ==> !(#[trigger] visited@[j]),
        decreases n - visited@.len(),
    {
        visited.push(false);
    }
    let mut to_visit: Vec<usize> = Vec::new();
    let nh = graph.heads.len();
    let mut hi: usize = 0;
    while hi < nh
        invariant
            hi <= nh,
            g == graph.commits_view(),
            hs == graph.heads_view(),
            graph.wf(),
            n == g.len(),
            n == graph.commits@.len(),
            nh == hs.len(),
            nh == graph.heads@.len(),
            forall|k: int|
                0 <= k < to_visit@.len() ==> 0 <= ((#[trigger] to_visit@[k]) as int) < n
                    && reachable_ix(g, hs, to_visit@[k] as int),
            forall|h: int|
                0 <= h < hi && has_commit(g, #[trigger] hs[h]) ==> queue_has(
                    to_visit@,
                    index_of(g, hs[h]),
                ),
        decreases nh - hi,
    {
        let ghost tv_before = to_visit@;
        proof {
            assert(hs[hi as int] == graph.heads@[hi as int]@);
        }
        match find_index(&graph.commits, &graph.heads[hi]) {
            Some(ix) => {
                proof {
                    assert(g[ix as int].id == hs[hi as int]);
                    assert(hs.contains(g[ix as int].id));
                    lemma_reachable_ix_head(g, hs, ix as int);
                    lemma_index_of_unique(g, ix as int);
                }
                to_visit.push(ix);
                proof {
                    assert(to_visit@[to_visit@.len() - 1] == ix);
                    assert forall|h: int| 0 <= h < hi + 1 && has_commit(g, #[trigger] hs[h])
                        implies queue_has(to_visit@, index_of(g, hs[h])) by {
                        if h < hi {
                            let k = choose|k: int|
                                0 <= k < tv_before.len() && ((#[trigger] tv_before[k]) as int)
                                    == index_of(g, hs[h]);
                            assert((to_visit@[k]) as int == index_of(g, hs[h]));
                        } else {
                            assert((to_visit@[to_visit@.len() - 1]) as int == index_of(
                                g,
                                hs[h],
                            ));
                        }
                    }
                }
            },
            None => {
                proof {
                    assert(!has_commit(g, hs[hi as int]));
                }
            },
        }
        hi = hi + 1;
    }
    let mut matches: Vec<usize> = Vec::new();
    let ghost mut vset: Set<int> = Set::empty();
    proof {
        assert(vset.subset_of(set_int_range(0, n as int)));
        lemma_int_range(0, n as int);
    }
    while to_visit.len() > 0
        invariant
            g == graph.commits_view(),
            hs == graph.heads_view(),
            graph.wf(),
            n == g.len(),
            n == graph.commits@.len(),
            nh == hs.len(),
            ql == lower_of(query@),
            qlow@ == ql,
            visited@.len() == n,
            vset.finite(),
            vset.subset_of(set_int_range(0, n as int)),
            forall|j: int| 0 <= j < n ==> (#[trigger] visited@[j]) == vset.contains(j),
            forall|k: int|
                0 <= k < to_visit@.len() ==> 0 <= ((#[trigger] to_visit@[k]) as int) < n
                    && reachable_ix(g, hs, to_visit@[k] as int),
            forall|j: int| 0 <= j < n && #[trigger] visited@[j] ==> reachable_ix(g, hs, j),
            forall|h: int|
                0 <= h < nh && has_commit(g, #[trigger] hs[h]) ==> visited@[index_of(g, hs[h])]
                    || queue_has(to_visit@, index_of(g, hs[h])),
            forall|jx: int, pj: int|
                0 <= jx < n && visited@[jx] && 0 <= pj < n && (#[trigger] g[jx].parents.contains(
                    (#[trigger] g[pj]).id,
                )) ==> visited@[pj] || queue_has(to_visit@, pj),
            forall|k: int|
                0 <= k < matches@.len() ==> 0 <= ((#[trigger] matches@[k]) as int) < n
                    && visited@[matches@[k] as int] && query_matches_commit(
                    g[matches@[k] as int],
                    ql,
                ),
            forall|j: int|
                0 <= j < n && #[trigger] visited@[j] && query_matches_commit(g[j], ql)
                    ==> queue_has(matches@, j),
            forall|k1: int, k2: int|
                0 <= k1 < k2 < matches@.len() ==> (#[trigger] matches@[k1]) != (
                #[trigger] matches@[k2]),
        decreases n - vset.len(), to_visit@.len(),
    {
        proof {
            lemma_int_range(0, n as int);
            lemma_len_subset(vset, set_int_range(0, n as int));
        }
        let ghost tv_with = to_visit@;
        let ix = to_visit.pop().unwrap();
        let ghost tv_after = to_visit@;
        proof {
            assert(tv_after =~= tv_with.subrange(0, tv_with.len() - 1));
            assert(tv_with[tv_with.len() - 1] == ix);
            assert forall|q: int| queue_has(tv_with, q) && q != ix as int implies queue_has(
                tv_after,
                q,
            ) by {
                let k = choose|k: int|
                    0 <= k < tv_with.len() && ((#[trigger] tv_with[k]) as int) == q;
                assert(k < tv_with.len() - 1);
                assert((tv_after[k]) as int == q);
            }
        }
        if !visited[ix] {
            let ghost visited_before = visited@;
            let ghost vset_before = vset;
            visited.set(ix, true);
            proof {
                vset = vset.insert(ix as int);
                assert(vset.subset_of(set_int_range(0, n as int)));
                vstd::set::axiom_set_insert_len(vset_before, ix as int);
                vstd::set::axiom_set_insert_finite(vset_before, ix as int);
                assert(vset.len() == vset_before.len() + 1);
                lemma_len_subset(vset, set_int_range(0, n as int));
                // the popped entry is now marked, so the heads and the
                // closedness facts survive the pop
                assert forall|h: int| 0 <= h < nh && has_commit(g, #[trigger] hs[h]) implies
                    visited@[index_of(g, hs[h])] || queue_has(to_visit@, index_of(g, hs[h])) by {
                    let idx = index_of(g, hs[h]);
                    if visited_before[idx] || idx == ix as int {
                    } else {
                        assert(queue_has(tv_with, idx));
                        assert(queue_has(tv_after, idx));
                    }
                }
                assert forall|jx: int, pj: int|
                    0 <= jx < n && visited@[jx] && jx != ix as int && 0 <= pj < n && (
                    #[trigger] g[jx].parents.contains((#[trigger] g[pj]).id)) implies visited@[pj]
                        || queue_has(to_visit@, pj) by {
                    if visited_before[pj] || pj == ix as int {
                    } else {
                        assert(queue_has(tv_with, pj));
                        assert(queue_has(tv_after, pj));
                    }
                }
            }
            // collect the commit when its display forms match the query
            let hex = graph.commits[ix].id.hex();
            let mut is_match = str_starts_with(hex.as_str(), qlow.as_str());
            if !is_match {
                let rhex = graph.commits[ix].change_id.reverse_hex();
                is_match = str_starts_with(rhex.as_str(), qlow.as_str());
            }
            proof {
                assert(g[ix as int] == graph.commits@[ix as int]@);
                assert(is_match == query_matches_commit(g[ix as int], ql));
            }
            let ghost matches_before = matches@;
            if is_match {
                matches.push(ix);
            }
            proof {
                assert forall|j: int|
                    0 <= j < n && #[trigger] visited@[j] && query_matches_commit(g[j], ql)
                    implies queue_has(matches@, j) by {
                    if j == ix as int {
                        assert((matches@[matches@.len() - 1]) as int == j);
                    } else {
                        let k = choose|k: int|
                            0 <= k < matches_before.len() && ((#[trigger] matches_before[k])
                                as int) == j;
                        assert((matches@[k]) as int == j);
                    }
                }
            }
            // enqueue parents that the graph holds and are not yet visited
            let parents = &graph.commits[ix].parent_ids;
            let np = parents.len();
            let mut pk: usize = 0;
            proof {
                assert(g[ix as int].parents.take(0).len() == 0);
            }
            while pk < np
                invariant
                    pk <= np,
                    g == graph.commits_view(),
                    hs == graph.heads_view(),
                    graph.wf(),
                    n == g.len(),
                    n == graph.commits@.len(),
                    nh == hs.len(),
                    visited@.len() == n,
                    0 <= (ix as int) < n,
                    visited@[ix as int],
                    parents@ == graph.commits@[ix as int].parent_ids@,
                    np == parents@.len(),
                    np == g[ix as int].parents.len(),
                    forall|m: int|
                        0 <= m < np ==> g[ix as int].parents[m] == (#[trigger] parents@[m])@,
                    forall|j: int| 0 <= j < n && #[trigger] visited@[j] ==> reachable_ix(g, hs, j),
                    forall|k: int|
                        0 <= k < to_visit@.len() ==> 0 <= ((#[trigger] to_visit@[k]) as int) < n
                            && reachable_ix(g, hs, to_visit@[k] as int),
                    forall|h: int|
                        0 <= h < nh && has_commit(g, #[trigger] hs[h]) ==> visited@[index_of(
                            g,
                            hs[h],
                        )] || queue_has(to_visit@, index_of(g, hs[h])),
                    forall|jx: int, pj: int|
                        0 <= jx < n && visited@[jx] && jx != ix as int && 0 <= pj < n && (
                        #[trigger] g[jx].parents.contains((#[trigger] g[pj]).id)) ==> visited@[pj]
                            || queue_has(to_visit@, pj),
                    forall|pj: int|
                        0 <= pj < n && g[ix as int].parents.take(pk as int).contains(
                            (#[trigger] g[pj]).id,
                        ) ==> visited@[pj] || queue_has(to_visit@, pj),
                decreases np - pk,
            {
                let ghost tv0 = to_visit@;
                proof {
                    assert(g[ix as int].parents[pk as int] == parents@[pk as int]@);
                }
                match find_index(&graph.commits, &parents[pk]) {
                    Some(pj) => {
                        let pj_was_visited = visited[pj];
                        if !pj_was_visited {
                            proof {
                                assert(g[pj as int].id == parents@[pk as int]@);
                                assert(g[ix as int].parents.contains(g[pj as int].id));
                                lemma_reachable_ix_parent(g, hs, ix as int, pj as int);
                            }
                            to_visit.push(pj);
                            proof {
                                assert forall|q: int| queue_has(tv0, q) implies queue_has(
                                    to_visit@,
                                    q,
                                ) by {
                                    let k = choose|k: int|
                                        0 <= k < tv0.len() && ((#[trigger] tv0[k]) as int) == q;
                                    assert((to_visit@[k]) as int == q);
                                }
                                assert((to_visit@[to_visit@.len() - 1]) as int == pj as int);
                                assert(queue_has(to_visit@, pj as int));
                            }
                        }
                        proof {
                            assert forall|pj2: int|
                                0 <= pj2 < n && g[ix as int].parents.take(pk as int + 1).contains(
                                    (#[trigger] g[pj2]).id,
                                ) implies visited@[pj2] || queue_has(to_visit@, pj2) by {
                                let m = choose|m: int|
                                    0 <= m < pk + 1 && (#[trigger] g[ix as int].parents.take(
                                        pk as int + 1,
                                    )[m]) == g[pj2].id;
                                if m < pk {
                                    assert(g[ix as int].parents.take(pk as int)[m] == g[
                                        pj2
                                    ].id);
                                    assert(g[ix as int].parents.take(pk as int).contains(
                                        g[pj2].id,
                                    ));
                                } else {
                                    assert(g[pj2].id == parents@[pk as int]@);
                                    assert(g[pj as int].id == g[pj2].id);
                                    if (pj as int) < pj2 {
                                        assert(g[pj as int].id != g[pj2].id);
                                    } else if pj2 < pj as int {
                                        assert(g[pj2].id != g[pj as int].id);
                                    }
                                    assert(pj as int == pj2);
                                }
                            }
                        }
                    },
                    None => {
                        proof {
                            assert forall|pj2: int|
                                0 <= pj2 < n && g[ix as int].parents.take(pk as int + 1).contains(
                                    (#[trigger] g[pj2]).id,
                                ) implies visited@[pj2] || queue_has(to_visit@, pj2) by {
                                let m = choose|m: int|
                                    0 <= m < pk + 1 && (#[trigger] g[ix as int].parents.take(
                                        pk as int + 1,
                                    )[m]) == g[pj2].id;
                                if m < pk {
                                    assert(g[ix as int].parents.take(pk as int)[m] == g[
                                        pj2
                                    ].id);
                                    assert(g[ix as int].parents.take(pk as int).contains(
                                        g[pj2].id,
                                    ));
                                } else {
                                    assert(g[pj2].id == parents@[pk as int]@);
                                    assert(has_commit(g, parents@[pk as int]@)) by {
                                        assert(0 <= pj2 < g.len() && g[pj2].id == parents@[
                                            pk as int
                                        ]@);
                                    }
                                }
                            }
                        }
                    },
                }
                pk = pk + 1;
            }
            proof {
                assert(g[ix as int].parents.take(np as int) =~= g[ix as int].parents);
                assert forall|jx: int, pj: int|
                    0 <= jx < n && visited@[jx] && 0 <= pj < n && (#[trigger] g[jx].parents.contains(
                        (#[trigger] g[pj]).id,
                    )) implies visited@[pj] || queue_has(to_visit@, pj) by {
                    if jx == ix as int {
                        assert(g[ix as int].parents.contains(g[pj].id));
                    }
                }
            }
        } else {
            proof {
                assert forall|h: int| 0 <= h < nh && has_commit(g, #[trigger] hs[h]) implies
                    visited@[index_of(g, hs[h])] || queue_has(to_visit@, index_of(g, hs[h])) by {
                    let idx = index_of(g, hs[h]);
                    if visited@[idx] || idx == ix as int {
                    } else {
                        assert(queue_has(tv_with, idx));
                        assert(queue_has(tv_after, idx));
                    }
                }
                assert forall|jx: int, pj: int|
                    0 <= jx < n && visited@[jx] && 0 <= pj < n && (#[trigger] g[jx].parents.contains(
                        (#[trigger] g[pj]).id,
                    )) implies visited@[pj] || queue_has(to_visit@, pj) by {
                    if visited@[pj] || pj == ix as int {
                    } else {
                        assert(queue_has(tv_with, pj));
                        assert(queue_has(tv_after, pj));
                    }
                }
            }
        }
    }
    proof {
        lemma_resolution_outcome(g, hs, ql, visited@, matches@);
    }
    if matches.len() == 1 {
        let ix = matches[0];
        let id = graph.commits[ix].id.clone();
        proof {
            let j = ix as int;
            assert(g[j] == graph.commits@[j]@);
            assert(matched(g, hs, ql, g[j].id));
            assert forall|id2: Seq<u8>| matched(g, hs, ql, id2) implies id2 == id@ by {
                let k = choose|k: int|
                    0 <= k < matches@.len() && g[((#[trigger] matches@[k]) as int)].id == id2;
                assert(k == 0);
            }
            let c = choose|cid: Seq<u8>|
                matched(g, hs, ql, cid) && (forall|id2: Seq<u8>|
                    matched(g, hs, ql, id2) ==> id2 == cid);
            assert(c == id@);
        }
        Ok(id)
    } else if matches.len() == 0 {
        proof {
            assert forall|id: Seq<u8>| !matched(g, hs, ql, id) by {
                if matched(g, hs, ql, id) {
                    let k = choose|k: int|
                        0 <= k < matches@.len() && g[((#[trigger] matches@[k]) as int)].id == id;
                }
            }
        }
        Err(ResolutionError::NotFound)
    } else {
        proof {
            let j0 = matches@[0] as int;
            let j1 = matches@[1] as int;
            assert(matches@[0] != matches@[1]);
            assert(g[j0].id != g[j1].id) by {
                if j0 < j1 {
                } else {
                }
            }
            assert(matched(g, hs, ql, g[j0].id));
            assert(matched(g, hs, ql, g[j1].id));
            if exists|id: Seq<u8>|
                matched(g, hs, ql, id) && (forall|id2: Seq<u8>|
                    matched(g, hs, ql, id2) ==> id2 == id) {
                let c = choose|cid: Seq<u8>|
                    matched(g, hs, ql, cid) && (forall|id2: Seq<u8>|
                        matched(g, hs, ql, id2) ==> id2 == cid);
                assert(g[j0].id == c);
                assert(g[j1].id == c);
            }
        }
        Err(ResolutionError::Ambiguous)
    }
}

/// After the search: the visited marks cover exactly the reachable
/// commits, so the collected positions stand for exactly the matched ids.
proof fn lemma_resolution_outcome(
    g: Seq<CommitView>,
    hs: Seq<Seq<u8>>,
    ql: Seq<char>,
    visited: Seq<bool>,
    matches: Seq<usize>,
)
    requires
        graph_wf(g),
        visited.len() == g.len(),
        forall|j: int| 0 <= j < g.len() && #[trigger] visited[j] ==> reachable_ix(g, hs, j),
        forall|h: int|
            0 <= h < hs.len() && has_commit(g, #[trigger] hs[h]) ==> visited[index_of(g, hs[h])],
        forall|jx: int, pj: int|
            0 <= jx < g.len() && visited[jx] && 0 <= pj < g.len() && (
            #[trigger] g[jx].parents.contains((#[trigger] g[pj]).id)) ==> visited[pj],
        forall|k: int|
            0 <= k < matches.len() ==> 0 <= ((#[trigger] matches[k]) as int) < g.len()
                && visited[matches[k] as int] && query_matches_commit(g[matches[k] as int], ql),
        forall|j: int|
            0 <= j < g.len() && #[trigger] visited[j] && query_matches_commit(g[j], ql)
                ==> queue_has(matches, j),
    ensures
        forall|id: Seq<u8>|
            #[trigger] matched(g, hs, ql, id) ==> exists|k: int|
                0 <= k < matches.len() && g[((#[trigger] matches[k]) as int)].id == id,
        forall|k: int|
            0 <= k < matches.len() ==> matched(g, hs, ql, g[((#[trigger] matches[k]) as int)].id),
{
    assert forall|j: int| 0 <= j < g.len() && reachable_ix(g, hs, j) implies #[trigger] visited[
        j
    ] by {
        let p = choose|p: Seq<int>| is_index_path(g, hs, p) && p.last() == j;
        lemma_closed_covers_paths(g, hs, visited, p);
    }
    assert forall|id: Seq<u8>| #[trigger] matched(g, hs, ql, id) implies exists|k: int|
        0 <= k < matches.len() && g[((#[trigger] matches[k]) as int)].id == id by {
        let j = index_of(g, id);
        assert(0 <= j < g.len() && g[j].id == id);
        lemma_reachable_correspondence(g, hs, j);
        assert(visited[j]);
        assert(queue_has(matches, j));
        let k = choose|k: int| 0 <= k < matches.len() && ((#[trigger] matches[k]) as int) == j;
        assert(g[matches[k] as int].id == id);
    }
    assert forall|k: int| 0 <= k < matches.len() implies matched(
        g,
        hs,
        ql,
        g[((#[trigger] matches[k]) as int)].id,
    ) by {
        let j = matches[k] as int;
        lemma_index_of_unique(g, j);
        lemma_reachable_correspondence(g, hs, j);
    }
}

/// The position of the commit with the given id, or `None` when the graph
/// holds no such commit.
pub fn find_index(commits: &Vec<Commit>, id: &CommitId) -> (r: Option<usize>)
    ensures
        match r {
            Some(ix) => ix < commits@.len() && commits_of(commits@)[ix as int].id == id@,
            None => !has_commit(commits_of(commits@), id@),
        },
{
    let ghost g = commits_of(commits@);
    let n = commits.len();
    let mut i: usize = 0;
    while i < n
        invariant
            i <= n,
            n == commits@.len(),
            n == g.len(),
            g == commits_of(commits@),
            forall|k: int| 0 <= k < i ==> (#[trigger] g[k]).id != id@,
        decreases n - i,
    {
        proof {
            assert(g[i as int] == commits@[i as int]@);
        }
        if bytes_eq(&commits[i].id.bytes, &id.bytes) {
            return Some(i);
        }
        i = i + 1;
    }
    None
}

} // verus!
