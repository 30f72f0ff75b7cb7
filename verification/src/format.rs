//! Hunk-level unified-diff rendering: whole-file additions and deletions,
//! and the contiguous-mismatch line diff between two file contents. The
//! rendered text is pinned character by character by the spec functions
//! here.

use vstd::prelude::*;
use vstd::string::StringExecFns;
use crate::ids::bytes_eq;
use crate::lines::spec_lines;
use crate::lines::split_lines;
use crate::lines::bytes_to_text;
use crate::lines::utf8_lossy_chars;
use crate::textutil::dec_digits;
use crate::textutil::usize_to_string;

verus! {

/// A hunk header line `@@ -<start_b>,<count_b> +<start_a>,<count_a> @@`.
pub open spec fn hunk_header(start_b: nat, count_b: nat, start_a: nat, count_a: nat) -> Seq<
    char,
> {
    "@@ -"@ + dec_digits(start_b) + ","@ + dec_digits(count_b) + " +"@ + dec_digits(start_a)
        + ","@ + dec_digits(count_a) + " @@\n"@
}

/// Each line prefixed with `sign` and terminated with a newline.
pub open spec fn signed_lines(sign: Seq<char>, ls: Seq<Seq<u8>>) -> Seq<char>
    decreases ls.len(),
{
    if ls.len() == 0 {
        Seq::empty()
    } else {
        sign + utf8_lossy_chars(ls[0]) + "\n"@ + signed_lines(sign, ls.drop_first())
    }
}

/// The hunk text for a whole-file addition: every line added.
pub open spec fn addition_text(content: Seq<u8>) -> Seq<char> {
    hunk_header(0, 0, 1, spec_lines(content).len()) + signed_lines("+"@, spec_lines(content))
}

/// The hunk text for a whole-file deletion: every line removed.
pub open spec fn deletion_text(content: Seq<u8>) -> Seq<char> {
    hunk_header(1, spec_lines(content).len(), 0, 0) + signed_lines("-"@, spec_lines(content))
}

/// Appends `sign` and then each line of `ls` prefixed by `sign`.
fn push_signed_lines(out: &mut String, sign: &str, ls: &Vec<Vec<u8>>)
    ensures
        final(out)@ == old(out)@ + signed_lines(sign@, ls@.map(|i: int, v: Vec<u8>| v@)),
{
    let ghost mapped = ls@.map(|i: int, v: Vec<u8>| v@);
    let ghost start = out@;
    let n = ls.len();
    let mut i: usize = 0;
    proof {
        assert(mapped.skip(0) =~= mapped);
        assert(start + signed_lines(sign@, mapped) == start + signed_lines(
            sign@,
            mapped.skip(0),
        ));
    }
    while i < n
        invariant
            i <= n,
            n == ls@.len(),
            n == mapped.len(),
            mapped == ls@.map(|k: int, v: Vec<u8>| v@),
            start + signed_lines(sign@, mapped) == out@ + signed_lines(
                sign@,
                mapped.skip(i as int),
            ),
        decreases n - i,
    {
        let ghost rest = mapped.skip(i as int);
        proof {
            assert(rest[0] == mapped[i as int]);
            assert(mapped[i as int] == ls@[i as int]@);
            assert(rest.drop_first() =~= mapped.skip(i as int + 1));
        }
        let line_text = bytes_to_text(ls[i].as_slice());
        out.append(sign);
        out.append(line_text.as_str());
        out.append("\n");
        proof {
            assert(signed_lines(sign@, rest) == sign@ + utf8_lossy_chars(rest[0]) + "\n"@
                + signed_lines(sign@, rest.drop_first()));
            assert(out@ + signed_lines(sign@, mapped.skip(i as int + 1)) =~= start
                + signed_lines(sign@, mapped));
        }
        i = i + 1;
    }
    proof {
        assert(mapped.skip(n as int) =~= Seq::<Seq<u8>>::empty());
        assert(out@ =~= start + signed_lines(sign@, mapped));
    }
}

/// Appends a hunk header line.
fn push_hunk_header(out: &mut String, start_b: usize, count_b: usize, start_a: usize,
    count_a: usize)
    ensures
        final(out)@ == old(out)@ + hunk_header(
            start_b as nat,
            count_b as nat,
            start_a as nat,
            count_a as nat,
        ),
{
    let ghost start = out@;
    out.append("@@ -");
    let sb = usize_to_string(start_b);
    out.append(sb.as_str());
    out.append(",");
    let cb = usize_to_string(count_b);
    out.append(cb.as_str());
    out.append(" +");
    let sa = usize_to_string(start_a);
    out.append(sa.as_str());
    out.append(",");
    let ca = usize_to_string(count_a);
    out.append(ca.as_str());
    out.append(" @@\n");
    proof {
        assert(out@ =~= start + hunk_header(
            start_b as nat,
            count_b as nat,
            start_a as nat,
            count_a as nat,
        ));
    }
}

/// Renders a whole-file addition: hunk header `@@ -0,0 +1,<n> @@` and one
/// `+` line per line of `content`.
pub fn format_addition(content: &[u8]) -> (r: String)
    ensures
        r@ == addition_text(content@),
{
    let lines = split_lines(content);
    let mut out = String::new();
    push_hunk_header(&mut out, 0, 0, 1, lines.len());
    proof {
        assert(lines@.map(|i: int, v: Vec<u8>| v@) =~= spec_lines(content@));
    }
    push_signed_lines(&mut out, "+", &lines);
    proof {
        assert(out@ =~= addition_text(content@));
    }
    out
}

/// Renders a whole-file deletion: hunk header `@@ -1,<n> +0,0 @@` and one
/// `-` line per line of `content`.
pub fn format_deletion(content: &[u8]) -> (r: String)
    ensures
        r@ == deletion_text(content@),
{
    let lines = split_lines(content);
    let mut out = String::new();
    push_hunk_header(&mut out, 1, lines.len(), 0, 0);
    proof {
        assert(lines@.map(|i: int, v: Vec<u8>| v@) =~= spec_lines(content@));
    }
    push_signed_lines(&mut out, "-", &lines);
    proof {
        assert(out@ =~= deletion_text(content@));
    }
    out
}

/// The line at index `i`, or the empty line when `i` is out of range.
pub open spec fn line_at(ls: Seq<Seq<u8>>, i: int) -> Seq<u8> {
    if 0 <= i < ls.len() {
        ls[i]
    } else {
        Seq::empty()
    }
}

/// The two sides disagree at index `i` (out-of-range reads as empty).
pub open spec fn mismatch_at(a: Seq<Seq<u8>>, b: Seq<Seq<u8>>, i: int) -> bool {
    line_at(a, i) != line_at(b, i)
}

/// The scan length: the longer of the two line counts.
pub open spec fn scan_len(a: Seq<Seq<u8>>, b: Seq<Seq<u8>>) -> int {
    if a.len() >= b.len() {
        a.len() as int
    } else {
        b.len() as int
    }
}

/// The end of the contiguous mismatch run starting at `i`: the first index
/// at or after `i` where the sides agree again, capped at the scan length.
pub open spec fn run_end(a: Seq<Seq<u8>>, b: Seq<Seq<u8>>, i: int) -> int
    decreases scan_len(a, b) - i,
{
    if i >= scan_len(a, b) || !mismatch_at(a, b, i) {
        i
    } else {
        run_end(a, b, i + 1)
    }
}

/// A mismatch run's end lies at or after its start, and strictly after when
/// the run is non-empty; every index inside the run mismatches.
pub proof fn lemma_run_end(a: Seq<Seq<u8>>, b: Seq<Seq<u8>>, i: int)
    requires
        i <= scan_len(a, b),
    ensures
        i <= run_end(a, b, i) <= scan_len(a, b),
        i < scan_len(a, b) && mismatch_at(a, b, i) ==> i < run_end(a, b, i),
        forall|j: int| i <= j < run_end(a, b, i) ==> mismatch_at(a, b, j),
        run_end(a, b, i) < scan_len(a, b) ==> !mismatch_at(a, b, run_end(a, b, i)),
    decreases scan_len(a, b) - i,
{
    if i >= scan_len(a, b) || !mismatch_at(a, b, i) {
    } else {
        lemma_run_end(a, b, i + 1);
    }
}

/// The `-`/`+` body lines of the hunk covering indices `[i, e)`: for each
/// index, the before-line when non-empty, then the after-line when
/// non-empty.
pub open spec fn hunk_body(a: Seq<Seq<u8>>, b: Seq<Seq<u8>>, i: int, e: int) -> Seq<char>
    decreases e - i,
{
    if i >= e {
        Seq::empty()
    } else {
        (if line_at(a, i).len() > 0 {
            "-"@ + utf8_lossy_chars(line_at(a, i)) + "\n"@
        } else {
            Seq::empty()
        }) + (if line_at(b, i).len() > 0 {
            "+"@ + utf8_lossy_chars(line_at(b, i)) + "\n"@
        } else {
            Seq::empty()
        }) + hunk_body(a, b, i + 1, e)
    }
}

/// The line sequences that a vector of line buffers denotes.
pub open spec fn vec_lines_view(v: Seq<Vec<u8>>) -> Seq<Seq<u8>> {
    v.map(|i: int, l: Vec<u8>| l@)
}

/// Do the two sides agree at index `i` (out-of-range reads as empty)?
fn lines_equal_at(x: &Vec<Vec<u8>>, y: &Vec<Vec<u8>>, i: usize) -> (r: bool)
    ensures
        r == !mismatch_at(vec_lines_view(x@), vec_lines_view(y@), i as int),
{
    proof {
        if (i as int) < x@.len() {
            assert(vec_lines_view(x@)[i as int] == x@[i as int]@);
        }
        if (i as int) < y@.len() {
            assert(vec_lines_view(y@)[i as int] == y@[i as int]@);
        }
    }
    if i < x.len() {
        if i < y.len() {
            bytes_eq(&x[i], &y[i])
        } else {
            let r = x[i].len() == 0;
            proof {
                if x@[i as int]@.len() == 0 {
                    assert(x@[i as int]@ =~= Seq::<u8>::empty());
                }
            }
            r
        }
    } else {
        if i < y.len() {
            let r = y[i].len() == 0;
            proof {
                if y@[i as int]@.len() == 0 {
                    assert(y@[i as int]@ =~= Seq::<u8>::empty());
                }
            }
            r
        } else {
            true
        }
    }
}

/// Scans forward from `start` to the end of the contiguous mismatch run.
fn find_run_end(x: &Vec<Vec<u8>>, y: &Vec<Vec<u8>>, start: usize) -> (r: usize)
    requires
        start as int <= scan_len(vec_lines_view(x@), vec_lines_view(y@)),
    ensures
        r as int == run_end(vec_lines_view(x@), vec_lines_view(y@), start as int),
        start <= r,
        r as int <= scan_len(vec_lines_view(x@), vec_lines_view(y@)),
{
    let ghost a = vec_lines_view(x@);
    let ghost b = vec_lines_view(y@);
    let max = if x.len() >= y.len() {
        x.len()
    } else {
        y.len()
    };
    let mut i = start;
    let mut done = false;
    proof {
        lemma_run_end(a, b, start as int);
    }
    while !done
        invariant
            start <= i,
            i as int <= scan_len(a, b),
            max as int == scan_len(a, b),
            a == vec_lines_view(x@),
            b == vec_lines_view(y@),
            run_end(a, b, start as int) == run_end(a, b, i as int),
            done ==> i as int == run_end(a, b, i as int),
        decreases scan_len(a, b) - i + if done {
            0int
        } else {
            1int
        },
    {
        if i >= max {
            done = true;
        } else if lines_equal_at(x, y, i) {
            proof {
                assert(run_end(a, b, i as int) == i);
            }
            done = true;
        } else {
            proof {
                assert(run_end(a, b, i as int) == run_end(a, b, i as int + 1));
            }
            i = i + 1;
        }
    }
    i
}

#[via_fn]
proof fn unified_from_decreases(a: Seq<Seq<u8>>, b: Seq<Seq<u8>>, i: int) {
    if 0 <= i < scan_len(a, b) && mismatch_at(a, b, i) {
        lemma_run_end(a, b, i);
    }
}

/// The unified-diff text from index `i` on: each maximal contiguous
/// mismatch run becomes one hunk with equal ranges on both sides.
pub open spec fn unified_from(a: Seq<Seq<u8>>, b: Seq<Seq<u8>>, i: int) -> Seq<char>
    decreases scan_len(a, b) - i,
    when 0 <= i
    via unified_from_decreases
{
    if i >= scan_len(a, b) {
        Seq::empty()
    } else if !mismatch_at(a, b, i) {
        unified_from(a, b, i + 1)
    } else {
        let e = run_end(a, b, i);
        hunk_header((i + 1) as nat, (e - i) as nat, (i + 1) as nat, (e - i) as nat) + hunk_body(
            a,
            b,
            i,
            e,
        ) + unified_from(a, b, e)
    }
}

/// The full unified-diff text between two file contents.
pub open spec fn unified_text(source: Seq<u8>, target: Seq<u8>) -> Seq<char> {
    unified_from(spec_lines(source), spec_lines(target), 0)
}

/// Renders the contiguous-mismatch line diff between `source` and `target`:
/// indices are scanned in step; each maximal run of disagreeing indices
/// yields one hunk whose header carries the same start and length for both
/// sides, followed by the run's `-` and `+` lines. Equal regions produce no
/// output at all, so identical contents yield the empty string.
#[verifier::rlimit(100)]
#[verifier::loop_isolation(false)]
pub fn format_unified_diff(source: &[u8], target: &[u8]) -> (r: String)
    ensures
        r@ == unified_text(source@, target@),
{
    let src_lines = split_lines(source);
    let tgt_lines = split_lines(target);
    let ghost a = spec_lines(source@);
    let ghost b = spec_lines(target@);
    proof {
        assert(vec_lines_view(src_lines@) =~= a);
        assert(vec_lines_view(tgt_lines@) =~= b);
    }
    let na = src_lines.len();
    let nb = tgt_lines.len();
    let max = if na >= nb {
        na
    } else {
        nb
    };
    let empty_line: Vec<u8> = Vec::new();
    let mut out = String::new();
    let mut i: usize = 0;
    proof {
        assert(forall|k: int| 0 <= k < na ==> (#[trigger] src_lines@[k])@ == a[k]);
        assert(forall|k: int| 0 <= k < nb ==> (#[trigger] tgt_lines@[k])@ == b[k]);
    }
    while i < max
        invariant
            i <= max,
            unified_text(source@, target@) == out@ + unified_from(a, b, i as int),
        decreases max - i,
    {
        if !lines_equal_at(&src_lines, &tgt_lines, i) {
            let hunk_start = i;
            proof {
                assert(a == vec_lines_view(src_lines@));
                assert(b == vec_lines_view(tgt_lines@));
                lemma_run_end(a, b, i as int);
            }
            i = find_run_end(&src_lines, &tgt_lines, hunk_start);
            let hunk_len = i - hunk_start;
            let ghost e = run_end(a, b, hunk_start as int);
            push_hunk_header(&mut out, hunk_start + 1, hunk_len, hunk_start + 1, hunk_len);
            let mut j = hunk_start;
            let ghost mid = out@;
            while j < i
                invariant
                    hunk_start <= j <= i,
                    i as int == e,
                    mid + hunk_body(a, b, hunk_start as int, e) == out@ + hunk_body(
                        a,
                        b,
                        j as int,
                        e,
                    ),
                decreases i - j,
            {
                let ja: &Vec<u8> = if j < na {
                    &src_lines[j]
                } else {
                    &empty_line
                };
                let jb: &Vec<u8> = if j < nb {
                    &tgt_lines[j]
                } else {
                    &empty_line
                };
                proof {
                    assert(ja@ == line_at(a, j as int));
                    assert(jb@ == line_at(b, j as int));
                }
                let ghost before = out@;
                if ja.len() > 0 {
                    let t = bytes_to_text(ja.as_slice());
                    out.append("-");
                    out.append(t.as_str());
                    out.append("\n");
                }
                if jb.len() > 0 {
                    let t = bytes_to_text(jb.as_slice());
                    out.append("+");
                    out.append(t.as_str());
                    out.append("\n");
                }
                proof {
                    assert(line_at(a, j as int).len() > 0 ==> ja@.len() > 0);
                    assert(out@ + hunk_body(a, b, j as int + 1, e) =~= before + hunk_body(
                        a,
                        b,
                        j as int,
                        e,
                    ));
                }
                j = j + 1;
            }
            proof {
                assert(hunk_body(a, b, e, e) =~= Seq::<char>::empty());
                assert(out@ =~= mid + hunk_body(a, b, hunk_start as int, e));
                assert(unified_from(a, b, hunk_start as int) == hunk_header(
                    (hunk_start + 1) as nat,
                    (e - hunk_start) as nat,
                    (hunk_start + 1) as nat,
                    (e - hunk_start) as nat,
                ) + hunk_body(a, b, hunk_start as int, e) + unified_from(a, b, e));
                assert(unified_text(source@, target@) == out@ + unified_from(a, b, i as int));
            }
        } else {
            proof {
                assert(unified_from(a, b, i as int) == unified_from(a, b, i as int + 1));
            }
            i = i + 1;
        }
    }
    proof {
        assert(unified_from(a, b, max as int) =~= Seq::<char>::empty());
        assert(out@ =~= unified_text(source@, target@));
    }
    out
}

} // verus!
