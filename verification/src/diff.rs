//! The tree-diff engine: the symmetric difference of two path-sorted tree
//! snapshots, as a path-sorted list of rows, each holding the path's value
//! before and after. An optional path filter drops rows outside a chosen
//! file subset.

use vstd::prelude::*;
use vstd::string::StringExecFns;
use crate::textutil::CharOrder;
use crate::textutil::lemma_char_lt_transitive;
use crate::textutil::lemma_char_lt_trichotomy;
use crate::textutil::seq_char_lt;
use crate::textutil::str_cmp;
use crate::textutil::str_eq_str;
use crate::tree::Tree;
use crate::tree::TreeValue;
use crate::tree::TreeValueView;
use crate::tree::lemma_lookup_absent;
use crate::tree::lemma_lookup_at;
use crate::tree::lemma_lookup_present;
use crate::tree::lemma_sorted_pairwise;
use crate::tree::tree_lookup;
use crate::tree::tree_sorted;
use crate::tree::tree_value_eq;

verus! {

/// One row of a computed tree diff.
pub struct DiffEntry {
    pub path: String,
    pub before: TreeValue,
    pub after: TreeValue,
}

impl View for DiffEntry {
    type V = (Seq<char>, TreeValueView, TreeValueView);

    open spec fn view(&self) -> (Seq<char>, TreeValueView, TreeValueView) {
        (self.path@, self.before@, self.after@)
    }
}

/// The mathematical rows of a diff-entry vector.
pub open spec fn diff_view(s: Seq<DiffEntry>) -> Seq<(Seq<char>, TreeValueView, TreeValueView)> {
    s.map(|i: int, e: DiffEntry| (e.path@, e.before@, e.after@))
}

/// The mathematical value of an optional path filter.
pub open spec fn filter_view(filter: Option<&Vec<String>>) -> Option<Seq<Seq<char>>> {
    match filter {
        None => None,
        Some(f) => Some(f@.map(|i: int, s: String| s@)),
    }
}

/// Whether `p` passes the filter; a missing filter admits every path.
pub open spec fn in_filter(filter: Option<Seq<Seq<char>>>, p: Seq<char>) -> bool {
    match filter {
        None => true,
        Some(f) => f.contains(p),
    }
}

/// Some row of `s` has path `p`.
pub open spec fn has_path(
    s: Seq<(Seq<char>, TreeValueView, TreeValueView)>,
    p: Seq<char>,
) -> bool {
    exists|m: int| 0 <= m < s.len() && (#[trigger] s[m]).0 == p
}

/// `rows` is exactly the diff of `b` and `a` under `filter`: path-sorted,
/// each row reporting the two lookups with differing values, and one row for
/// every differing path that passes the filter.
pub open spec fn diff_rows_ok(
    b: Seq<(Seq<char>, TreeValueView)>,
    a: Seq<(Seq<char>, TreeValueView)>,
    filter: Option<Seq<Seq<char>>>,
    rows: Seq<(Seq<char>, TreeValueView, TreeValueView)>,
) -> bool {
    &&& (forall|m: int|
        0 <= m < rows.len() - 1 ==> seq_char_lt(#[trigger] rows[m].0, rows[m + 1].0))
    &&& (forall|m: int|
        0 <= m < rows.len() ==> {
            &&& tree_lookup(b, (#[trigger] rows[m]).0) == rows[m].1
            &&& tree_lookup(a, rows[m].0) == rows[m].2
            &&& rows[m].1 != rows[m].2
            &&& in_filter(filter, rows[m].0)
        })
    &&& (forall|p: Seq<char>|
        #![trigger tree_lookup(b, p), tree_lookup(a, p)]
        tree_lookup(b, p) != tree_lookup(a, p) && in_filter(filter, p) ==> has_path(rows, p))
}

/// Does the vector hold a string whose characters equal `s`?
pub fn contains_string(v: &Vec<String>, s: &str) -> (r: bool)
    ensures
        r == v@.map(|i: int, t: String| t@).contains(s@),
{
    let ghost mapped = v@.map(|i: int, t: String| t@);
    let n = v.len();
    let mut i: usize = 0;
    while i < n
        invariant
            i <= n,
            n == v@.len(),
            mapped == v@.map(|k: int, t: String| t@),
            forall|k: int| 0 <= k < i ==> (#[trigger] mapped[k]) != s@,
        decreases n - i,
    {
        proof {
            assert(mapped[i as int] == v@[i as int]@);
        }
        if str_eq_str(v[i].as_str(), s) {
            return true;
        }
        i = i + 1;
    }
    false
}

/// Computes the diff of two path-sorted tree snapshots: every path whose
/// value differs between the two yields one row, in path order; rows outside
/// the filter (when one is given) are dropped. No row has equal before and
/// after values.
#[verifier::rlimit(100)]
pub fn diff_trees(before: &Tree, after: &Tree, filter: Option<&Vec<String>>) -> (r: Vec<
    DiffEntry,
>)
    requires
        tree_sorted(before@),
        tree_sorted(after@),
    ensures
        diff_rows_ok(before@, after@, filter_view(filter), diff_view(r@)),
{
    let ghost bb = before@;
    let ghost aa = after@;
    let ghost fv = filter_view(filter);
    let nb = before.entries.len();
    let na = after.entries.len();
    let mut i: usize = 0;
    let mut j: usize = 0;
    let mut out: Vec<DiffEntry> = Vec::new();
    let ghost mut rows: Seq<(Seq<char>, TreeValueView, TreeValueView)> = Seq::empty();
    proof {
        assert(forall|k: int|
            0 <= k < bb.len() ==> (#[trigger] bb[k]) == (before.entries@[k].path@, before.entries@[
                k
            ].value@));
        assert(forall|k: int|
            0 <= k < aa.len() ==> (#[trigger] aa[k]) == (after.entries@[k].path@, after.entries@[
                k
            ].value@));
    }
    while i < nb || j < na
        invariant
            i <= nb,
            j <= na,
            nb == bb.len(),
            na == aa.len(),
            bb == before@,
            aa == after@,
            tree_sorted(bb),
            tree_sorted(aa),
            fv == filter_view(filter),
            out@.len() == rows.len(),
            forall|m: int|
                0 <= m < rows.len() ==> (#[trigger] out@[m])@ == rows[m],
            forall|m: int|
                0 <= m < rows.len() - 1 ==> seq_char_lt(#[trigger] rows[m].0, rows[m + 1].0),
            forall|m: int|
                0 <= m < rows.len() ==> {
                    &&& tree_lookup(bb, (#[trigger] rows[m]).0) == rows[m].1
                    &&& tree_lookup(aa, rows[m].0) == rows[m].2
                    &&& rows[m].1 != rows[m].2
                    &&& in_filter(fv, rows[m].0)
                },
            forall|k: int|
                0 <= k < i && tree_lookup(bb, (#[trigger] bb[k]).0) != tree_lookup(aa, bb[k].0)
                    && in_filter(fv, bb[k].0) ==> has_path(rows, bb[k].0),
            forall|k: int|
                0 <= k < j && tree_lookup(bb, (#[trigger] aa[k]).0) != tree_lookup(aa, aa[k].0)
                    && in_filter(fv, aa[k].0) ==> has_path(rows, aa[k].0),
            forall|m: int, k: int|
                0 <= m < rows.len() && i <= k < nb ==> seq_char_lt(
                    (#[trigger] rows[m]).0,
                    (#[trigger] bb[k]).0,
                ),
            forall|m: int, k: int|
                0 <= m < rows.len() && j <= k < na ==> seq_char_lt(
                    (#[trigger] rows[m]).0,
                    (#[trigger] aa[k]).0,
                ),
            forall|k: int, k2: int|
                0 <= k < i && j <= k2 < na ==> seq_char_lt(
                    (#[trigger] bb[k]).0,
                    (#[trigger] aa[k2]).0,
                ),
            forall|k: int, k2: int|
                0 <= k < j && i <= k2 < nb ==> seq_char_lt(
                    (#[trigger] aa[k]).0,
                    (#[trigger] bb[k2]).0,
                ),
        decreases (nb - i) + (na - j),
    {
        let take_b: bool;
        let take_a: bool;
        if i < nb && j < na {
            match str_cmp(before.entries[i].path.as_str(), after.entries[j].path.as_str()) {
                CharOrder::Less => {
                    take_b = true;
                    take_a = false;
                },
                CharOrder::Equal => {
                    take_b = true;
                    take_a = true;
                },
                CharOrder::Greater => {
                    take_b = false;
                    take_a = true;
                },
            }
        } else if i < nb {
            take_b = true;
            take_a = false;
        } else {
            take_b = false;
            take_a = true;
        }
        let path_ref: &String = if take_b {
            &before.entries[i].path
        } else {
            &after.entries[j].path
        };
        let ghost p = path_ref@;
        let bv: TreeValue = if take_b {
            before.entries[i].value.clone()
        } else {
            TreeValue::Absent
        };
        let av: TreeValue = if take_a {
            after.entries[j].value.clone()
        } else {
            TreeValue::Absent
        };
        proof {
            // The chosen path is strictly above everything already processed
            // and strictly below everything not yet processed on each side.
            if take_b {
                assert(p == bb[i as int].0);
            } else {
                assert(p == aa[j as int].0);
                if i < nb {
                    assert(seq_char_lt(p, bb[i as int].0));
                }
            }
            if take_a {
                assert(p == aa[j as int].0);
            } else if j < na {
                assert(seq_char_lt(p, aa[j as int].0));
            }
            // lookup(bb, p) == bv@
            if take_b {
                assert forall|m: int| 0 <= m < i implies (#[trigger] bb[m].0) != p by {
                    lemma_sorted_pairwise(bb, m, i as int);
                    lemma_char_lt_trichotomy(bb[m].0, p);
                }
                lemma_lookup_at(bb, i as int);
                assert(tree_lookup(bb, p) == bv@);
            } else {
                assert forall|m: int| 0 <= m < nb implies (#[trigger] bb[m].0) != p by {
                    if m < i {
                        assert(seq_char_lt(bb[m].0, aa[j as int].0));
                        lemma_char_lt_trichotomy(bb[m].0, p);
                    } else {
                        if m > i {
                            lemma_sorted_pairwise(bb, i as int, m);
                            lemma_char_lt_transitive(p, bb[i as int].0, bb[m].0);
                        }
                        lemma_char_lt_trichotomy(p, bb[m].0);
                    }
                }
                lemma_lookup_absent(bb, p);
                assert(tree_lookup(bb, p) == bv@);
            }
            // lookup(aa, p) == av@
            if take_a {
                assert forall|m: int| 0 <= m < j implies (#[trigger] aa[m].0) != p by {
                    lemma_sorted_pairwise(aa, m, j as int);
                    lemma_char_lt_trichotomy(aa[m].0, p);
                }
                lemma_lookup_at(aa, j as int);
                assert(tree_lookup(aa, p) == av@);
            } else {
                assert forall|m: int| 0 <= m < na implies (#[trigger] aa[m].0) != p by {
                    if m < j {
                        assert(seq_char_lt(aa[m].0, bb[i as int].0));
                        lemma_char_lt_trichotomy(aa[m].0, p);
                    } else {
                        if m > j {
                            lemma_sorted_pairwise(aa, j as int, m);
                            lemma_char_lt_transitive(p, aa[j as int].0, aa[m].0);
                        }
                        lemma_char_lt_trichotomy(p, aa[m].0);
                    }
                }
                lemma_lookup_absent(aa, p);
                assert(tree_lookup(aa, p) == av@);
            }
            // p is strictly below every entry that remains unprocessed.
            assert forall|k: int| i + if take_b { 1int } else { 0int } <= k < nb implies
                seq_char_lt(p, (#[trigger] bb[k]).0) by {
                if take_b {
                    lemma_sorted_pairwise(bb, i as int, k);
                } else {
                    if k > i {
                        lemma_sorted_pairwise(bb, i as int, k);
                        lemma_char_lt_transitive(p, bb[i as int].0, bb[k].0);
                    }
                }
            }
            assert forall|k: int| j + if take_a { 1int } else { 0int } <= k < na implies
                seq_char_lt(p, (#[trigger] aa[k]).0) by {
                if take_a {
                    lemma_sorted_pairwise(aa, j as int, k);
                } else {
                    if k > j {
                        lemma_sorted_pairwise(aa, j as int, k);
                        lemma_char_lt_transitive(p, aa[j as int].0, aa[k].0);
                    }
                }
            }
        }
        let differs = !tree_value_eq(&bv, &av);
        let filter_ok = match filter {
            None => true,
            Some(f) => contains_string(f, path_ref.as_str()),
        };
        proof {
            assert(filter_ok == in_filter(fv, p));
        }
        if differs && filter_ok {
            let entry = DiffEntry { path: path_ref.clone(), before: bv, after: av };
            proof {
                // The new row is above every row already emitted.
                assert forall|m: int| 0 <= m < rows.len() implies seq_char_lt(
                    (#[trigger] rows[m]).0,
                    p,
                ) by {
                    if take_b {
                        assert(seq_char_lt(rows[m].0, bb[i as int].0));
                    } else {
                        assert(seq_char_lt(rows[m].0, aa[j as int].0));
                    }
                }
            }
            out.push(entry);
            proof {
                let rows_before = rows;
                rows = rows.push((p, bv@, av@));
                assert forall|q: Seq<char>| has_path(rows_before, q) implies has_path(
                    rows,
                    q,
                ) by {
                    let m = choose|m: int|
                        0 <= m < rows_before.len() && (#[trigger] rows_before[m]).0 == q;
                    assert((rows[m]).0 == q);
                }
                assert((rows[rows.len() - 1]).0 == p);
                assert(has_path(rows, p));
            }
        }
        if take_b {
            i = i + 1;
        }
        if take_a {
            j = j + 1;
        }
    }
    proof {
        // Every differing path that passes the filter is some entry's path,
        // so the per-index completeness facts close the global one.
        assert forall|p: Seq<char>|
            #![trigger tree_lookup(bb, p), tree_lookup(aa, p)]
            tree_lookup(bb, p) != tree_lookup(aa, p) && in_filter(fv, p) implies has_path(
            rows,
            p,
        ) by {
            if tree_lookup(bb, p) != TreeValueView::Absent {
                lemma_lookup_present(bb, p);
                let k = choose|k: int| 0 <= k < bb.len() && (#[trigger] bb[k].0) == p;
                assert(tree_lookup(bb, bb[k].0) != tree_lookup(aa, bb[k].0));
            } else {
                assert(tree_lookup(aa, p) != TreeValueView::Absent);
                lemma_lookup_present(aa, p);
                let k = choose|k: int| 0 <= k < aa.len() && (#[trigger] aa[k].0) == p;
                assert(tree_lookup(bb, aa[k].0) != tree_lookup(aa, aa[k].0));
            }
        }
        assert(diff_view(out@) =~= rows);
    }
    out
}

/// Lists, in path order, every path whose value differs between the two
/// snapshots.
pub fn list_changed_paths(before: &Tree, after: &Tree) -> (r: Vec<String>)
    requires
        tree_sorted(before@),
        tree_sorted(after@),
    ensures
        forall|m: int|
            0 <= m < r@.len() - 1 ==> seq_char_lt(#[trigger] r@[m]@, r@[m + 1]@),
        forall|m: int|
            0 <= m < r@.len() ==> tree_lookup(before@, (#[trigger] r@[m])@) != tree_lookup(
                after@,
                r@[m]@,
            ),
        forall|p: Seq<char>|
            #![trigger tree_lookup(before@, p), tree_lookup(after@, p)]
            tree_lookup(before@, p) != tree_lookup(after@, p) ==> exists|m: int|
                0 <= m < r@.len() && (#[trigger] r@[m])@ == p,
{
    let entries = diff_trees(before, after, None);
    let ghost rows = diff_view(entries@);
    let mut r: Vec<String> = Vec::new();
    let n = entries.len();
    let mut i: usize = 0;
    while i < n
        invariant
            i <= n,
            n == entries@.len(),
            rows == diff_view(entries@),
            r@.len() == i,
            forall|m: int| 0 <= m < i ==> (#[trigger] r@[m])@ == rows[m].0,
        decreases n - i,
    {
        proof {
            assert(rows[i as int] == entries@[i as int]@);
        }
        r.push(entries[i].path.clone());
        i = i + 1;
    }
    proof {
        assert forall|p: Seq<char>|
            #![trigger tree_lookup(before@, p), tree_lookup(after@, p)]
            tree_lookup(before@, p) != tree_lookup(after@, p) implies exists|m: int|
            0 <= m < r@.len() && (#[trigger] r@[m])@ == p by {
            assert(has_path(rows, p));
            let m = choose|m: int| 0 <= m < rows.len() && (#[trigger] rows[m]).0 == p;
            assert(r@[m]@ == p);
        }
    }
    r
}

} // verus!
