//! Laws of the resolver and the diff engine, stated and proved over the
//! same spec functions that the executable functions' contracts use.

use vstd::prelude::*;
use crate::diff::diff_rows_ok;
use crate::diff::has_path;
use crate::errors::ResolutionError;
use crate::format::hunk_header;
use crate::format::mismatch_at;
use crate::format::run_end;
use crate::format::scan_len;
use crate::format::signed_lines;
use crate::format::addition_text;
use crate::format::deletion_text;
use crate::graph::CommitView;
use crate::graph::lower_of;
use crate::graph::matched;
use crate::graph::spec_resolve;
use crate::graph::valid_query;
use crate::ids::bytes_of_hex;
use crate::ids::is_full_hex;
use crate::lines::spec_lines;
use crate::textutil::lemma_char_lt_transitive;
use crate::textutil::lemma_char_lt_trichotomy;
use crate::textutil::seq_char_lt;
use crate::tree::TreeValueView;
use crate::tree::tree_lookup;

verus! {

/// Resolution is deterministic: two resolutions of one query against one
/// graph return the same result, success value and error kind alike.
pub proof fn lemma_resolver_deterministic(
    g: Seq<CommitView>,
    heads: Seq<Seq<u8>>,
    q: Seq<char>,
    r1: Result<Seq<u8>, ResolutionError>,
    r2: Result<Seq<u8>, ResolutionError>,
)
    requires
        r1 == spec_resolve(g, heads, q),
        r2 == spec_resolve(g, heads, q),
    ensures
        r1 == r2,
{
}

/// A valid query that is a full-length well-formed hex literal resolves to
/// its own bytes at once, whether or not any such commit is reachable.
pub proof fn lemma_full_hex_fast_path(g: Seq<CommitView>, heads: Seq<Seq<u8>>, q: Seq<char>)
    requires
        valid_query(q),
        is_full_hex(q),
    ensures
        spec_resolve(g, heads, q) == Ok::<Seq<u8>, ResolutionError>(bytes_of_hex(q)),
{
}

/// A prefix query that matches two distinct reachable commits resolves to
/// `Ambiguous`; the resolver never guesses.
pub proof fn lemma_prefix_ambiguous(
    g: Seq<CommitView>,
    heads: Seq<Seq<u8>>,
    q: Seq<char>,
    id1: Seq<u8>,
    id2: Seq<u8>,
)
    requires
        valid_query(q),
        !is_full_hex(q),
        matched(g, heads, lower_of(q), id1),
        matched(g, heads, lower_of(q), id2),
        id1 != id2,
    ensures
        spec_resolve(g, heads, q) == Err::<Seq<u8>, ResolutionError>(ResolutionError::Ambiguous),
{
    if exists|id: Seq<u8>|
        matched(g, heads, lower_of(q), id) && (forall|other: Seq<u8>|
            matched(g, heads, lower_of(q), other) ==> other == id) {
        let c = choose|c: Seq<u8>|
            matched(g, heads, lower_of(q), c) && (forall|other: Seq<u8>|
                matched(g, heads, lower_of(q), other) ==> other == c);
        assert(id1 == c);
        assert(id2 == c);
    }
}

/// A prefix query whose only reachable match is one commit resolves to
/// exactly that commit.
pub proof fn lemma_prefix_unique(
    g: Seq<CommitView>,
    heads: Seq<Seq<u8>>,
    q: Seq<char>,
    id: Seq<u8>,
)
    requires
        valid_query(q),
        !is_full_hex(q),
        matched(g, heads, lower_of(q), id),
        forall|other: Seq<u8>| matched(g, heads, lower_of(q), other) ==> other == id,
    ensures
        spec_resolve(g, heads, q) == Ok::<Seq<u8>, ResolutionError>(id),
{
    let c = choose|c: Seq<u8>|
        matched(g, heads, lower_of(q), c) && (forall|other: Seq<u8>|
            matched(g, heads, lower_of(q), other) ==> other == c);
    assert(id == c);
}

/// Diffing a tree against itself yields no rows at all.
pub proof fn lemma_diff_self_empty(
    t: Seq<(Seq<char>, TreeValueView)>,
    filter: Option<Seq<Seq<char>>>,
    rows: Seq<(Seq<char>, TreeValueView, TreeValueView)>,
)
    requires
        diff_rows_ok(t, t, filter, rows),
    ensures
        rows.len() == 0,
{
    if rows.len() > 0 {
        assert(tree_lookup(t, rows[0].0) == rows[0].1);
        assert(tree_lookup(t, rows[0].0) == rows[0].2);
        assert(rows[0].1 != rows[0].2);
    }
}

/// In a path-sorted row sequence, any earlier path is less than any later
/// one.
proof fn lemma_rows_pairwise(
    rows: Seq<(Seq<char>, TreeValueView, TreeValueView)>,
    i: int,
    j: int,
)
    requires
        forall|m: int|
            0 <= m < rows.len() - 1 ==> seq_char_lt(#[trigger] rows[m].0, rows[m + 1].0),
        0 <= i < j < rows.len(),
    ensures
        seq_char_lt(rows[i].0, rows[j].0),
    decreases j - i,
{
    if j == i + 1 {
    } else {
        lemma_rows_pairwise(rows, i, j - 1);
        lemma_char_lt_transitive(rows[i].0, rows[j - 1].0, rows[j].0);
    }
}

/// The diff of two trees is one sequence of rows and no other: any two row
/// sequences that satisfy the diff relation are equal, so the rendered diff
/// text is deterministic.
pub proof fn lemma_diff_rows_unique(
    b: Seq<(Seq<char>, TreeValueView)>,
    a: Seq<(Seq<char>, TreeValueView)>,
    filter: Option<Seq<Seq<char>>>,
    r1: Seq<(Seq<char>, TreeValueView, TreeValueView)>,
    r2: Seq<(Seq<char>, TreeValueView, TreeValueView)>,
)
    requires
        diff_rows_ok(b, a, filter, r1),
        diff_rows_ok(b, a, filter, r2),
    ensures
        r1 == r2,
{
    assert forall|m: int| 0 <= m < r1.len() && m < r2.len() implies r1[m] == r2[m] by {
        lemma_diff_rows_agree_at(b, a, filter, r1, r2, m);
    }
    if r1.len() < r2.len() {
        let i = r1.len() as int;
        assert(tree_lookup(b, r2[i].0) != tree_lookup(a, r2[i].0));
        assert(has_path(r1, r2[i].0));
        let j = choose|j: int| 0 <= j < r1.len() && (#[trigger] r1[j]).0 == r2[i].0;
        assert(r1[j] == r2[j]);
        lemma_rows_pairwise(r2, j, i);
        lemma_char_lt_trichotomy(r2[j].0, r2[i].0);
    } else if r2.len() < r1.len() {
        let i = r2.len() as int;
        assert(tree_lookup(b, r1[i].0) != tree_lookup(a, r1[i].0));
        assert(has_path(r2, r1[i].0));
        let j = choose|j: int| 0 <= j < r2.len() && (#[trigger] r2[j]).0 == r1[i].0;
        assert(r2[j] == r1[j]);
        lemma_rows_pairwise(r1, j, i);
        lemma_char_lt_trichotomy(r1[j].0, r1[i].0);
    }
    assert(r1 =~= r2);
}

/// Two diffs of the same trees agree at every shared index: their paths up
/// to the index agree, and each side's path at the index is the least one
/// not yet listed.
proof fn lemma_diff_rows_agree_at(
    b: Seq<(Seq<char>, TreeValueView)>,
    a: Seq<(Seq<char>, TreeValueView)>,
    filter: Option<Seq<Seq<char>>>,
    r1: Seq<(Seq<char>, TreeValueView, TreeValueView)>,
    r2: Seq<(Seq<char>, TreeValueView, TreeValueView)>,
    i: int,
)
    requires
        diff_rows_ok(b, a, filter, r1),
        diff_rows_ok(b, a, filter, r2),
        0 <= i < r1.len(),
        i < r2.len(),
    ensures
        r1[i] == r2[i],
    decreases i,
{
    assert forall|m: int| 0 <= m < i implies r1[m] == r2[m] by {
        lemma_diff_rows_agree_at(b, a, filter, r1, r2, m);
    }
    // r1's path at i occurs in r2, and not before index i
    assert(tree_lookup(b, r1[i].0) != tree_lookup(a, r1[i].0));
    assert(has_path(r2, r1[i].0));
    let k = choose|k: int| 0 <= k < r2.len() && (#[trigger] r2[k]).0 == r1[i].0;
    if k < i {
        assert(r1[k] == r2[k]);
        lemma_rows_pairwise(r1, k, i);
        lemma_char_lt_trichotomy(r1[k].0, r1[i].0);
    }
    if k > i {
        // then r2's path at i is strictly below r1's, yet it too occurs in
        // r1 at or above index i - a contradiction with sortedness
        lemma_rows_pairwise(r2, i, k);
        assert(seq_char_lt(r2[i].0, r1[i].0));
        assert(tree_lookup(b, r2[i].0) != tree_lookup(a, r2[i].0));
        assert(has_path(r1, r2[i].0));
        let j = choose|j: int| 0 <= j < r1.len() && (#[trigger] r1[j]).0 == r2[i].0;
        if j < i {
            assert(r1[j] == r2[j]);
            lemma_rows_pairwise(r2, j, i);
            lemma_char_lt_trichotomy(r2[j].0, r2[i].0);
        } else if j > i {
            lemma_rows_pairwise(r1, i, j);
            lemma_char_lt_transitive(r1[i].0, r1[j].0, r1[i].0);
            lemma_char_lt_trichotomy(r1[i].0, r1[i].0);
        } else {
            lemma_char_lt_trichotomy(r1[i].0, r2[i].0);
        }
    }
    assert(r2[i].0 == r1[i].0);
}

/// Whole-file additions and deletions are mirror images: the two renderings
/// are one hunk shape with the before/after ranges swapped and the line
/// sign inverted.
pub proof fn lemma_addition_deletion_symmetry(content: Seq<u8>)
    ensures
        addition_text(content) == hunk_header(0, 0, 1, spec_lines(content).len()) + signed_lines(
            "+"@,
            spec_lines(content),
        ),
        deletion_text(content) == hunk_header(1, spec_lines(content).len(), 0, 0) + signed_lines(
            "-"@,
            spec_lines(content),
        ),
{
}

/// The two directions of a line diff disagree at exactly the same indices,
/// and each mismatch run ends at the same place, so the hunks of the two
/// directions cover identical line ranges and carry identical headers.
pub proof fn lemma_line_diff_symmetric(a: Seq<Seq<u8>>, b: Seq<Seq<u8>>, i: int)
    requires
        0 <= i <= scan_len(a, b),
    ensures
        mismatch_at(a, b, i) == mismatch_at(b, a, i),
        run_end(a, b, i) == run_end(b, a, i),
    decreases scan_len(a, b) - i,
{
    assert(scan_len(a, b) == scan_len(b, a));
    if i >= scan_len(a, b) || !mismatch_at(a, b, i) {
    } else {
        lemma_line_diff_symmetric(a, b, i + 1);
    }
}

} // verus!
