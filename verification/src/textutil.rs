//! Character-level string utilities: equality, lexicographic comparison,
//! prefix tests, and decimal rendering of numbers.

use vstd::prelude::*;
use vstd::string::StrSliceExecFns;

verus! {

/// Lexicographic "strictly less than" on character sequences, ordering
/// characters by their scalar values.
pub open spec fn seq_char_lt(a: Seq<char>, b: Seq<char>) -> bool
    decreases a.len(),
{
    if b.len() == 0 {
        false
    } else if a.len() == 0 {
        true
    } else if a[0] != b[0] {
        a[0] < b[0]
    } else {
        seq_char_lt(a.drop_first(), b.drop_first())
    }
}

/// `p` is a prefix of `s`.
pub open spec fn seq_char_prefix(s: Seq<char>, p: Seq<char>) -> bool {
    p.len() <= s.len() && s.subrange(0, p.len() as int) == p
}

/// Of `seq_char_lt(a, b)`, `a == b`, and `seq_char_lt(b, a)`, exactly one holds.
pub proof fn lemma_char_lt_trichotomy(a: Seq<char>, b: Seq<char>)
    ensures
        seq_char_lt(a, b) || a == b || seq_char_lt(b, a),
        seq_char_lt(a, b) ==> a != b && !seq_char_lt(b, a),
        a == b ==> !seq_char_lt(a, b) && !seq_char_lt(b, a),
    decreases a.len(),
{
    if b.len() == 0 || a.len() == 0 {
        if a.len() == 0 && b.len() == 0 {
            assert(a =~= b);
        }
    } else if a[0] != b[0] {
    } else {
        lemma_char_lt_trichotomy(a.drop_first(), b.drop_first());
        if a.drop_first() == b.drop_first() {
            assert forall|i: int| 0 <= i < a.len() implies a[i] == b[i] by {
                if i > 0 {
                    assert(a[i] == a.drop_first()[i - 1]);
                    assert(b[i] == b.drop_first()[i - 1]);
                }
            }
            assert(a =~= b);
        }
        if a == b {
            assert(a.drop_first() =~= b.drop_first());
        }
    }
}

/// Lexicographic order is transitive.
pub proof fn lemma_char_lt_transitive(a: Seq<char>, b: Seq<char>, c: Seq<char>)
    requires
        seq_char_lt(a, b),
        seq_char_lt(b, c),
    ensures
        seq_char_lt(a, c),
    decreases a.len(),
{
    if c.len() == 0 {
    } else if a.len() == 0 {
    } else {
        if b.len() == 0 {
        } else {
            if a[0] != b[0] {
                if b[0] != c[0] {
                } else {
                }
            } else if b[0] != c[0] {
            } else {
                lemma_char_lt_transitive(a.drop_first(), b.drop_first(), c.drop_first());
            }
        }
    }
}

/// Result of a three-way string comparison.
#[derive(Clone, Copy, PartialEq, Eq, Structural, Debug)]
pub enum CharOrder {
    Less,
    Equal,
    Greater,
}

/// Character-by-character equality of two string slices.
pub fn str_eq_str(a: &str, b: &str) -> (r: bool)
    ensures
        r == (a@ == b@),
{
    let a_len = a.unicode_len();
    let b_len = b.unicode_len();
    if a_len != b_len {
        return false;
    }
    let mut i: usize = 0;
    while i < a_len
        invariant
            a_len == a@.len(),
            b_len == b@.len(),
            a_len == b_len,
            i <= a_len,
            forall|j: int| 0 <= j < i ==> a@[j] == b@[j],
        decreases a_len - i,
    {
        if a.get_char(i) != b.get_char(i) {
            return false;
        }
        i = i + 1;
    }
    proof {
        assert(a@ =~= b@);
    }
    true
}

/// Three-way lexicographic comparison of two string slices.
pub fn str_cmp(a: &str, b: &str) -> (r: CharOrder)
    ensures
        (r == CharOrder::Less) == seq_char_lt(a@, b@),
        (r == CharOrder::Equal) == (a@ == b@),
        (r == CharOrder::Greater) == seq_char_lt(b@, a@),
{
    proof {
        lemma_char_lt_trichotomy(a@, b@);
        assert(a@.skip(0) =~= a@);
        assert(b@.skip(0) =~= b@);
    }
    let a_len = a.unicode_len();
    let b_len = b.unicode_len();
    let min_len = if a_len < b_len { a_len } else { b_len };
    let mut i: usize = 0;
    while i < min_len
        invariant
            a_len == a@.len(),
            b_len == b@.len(),
            min_len == if a_len < b_len { a_len } else { b_len },
            i <= min_len,
            forall|j: int| 0 <= j < i ==> a@[j] == b@[j],
            seq_char_lt(a@, b@) == seq_char_lt(a@.skip(i as int), b@.skip(i as int)),
            seq_char_lt(b@, a@) == seq_char_lt(b@.skip(i as int), a@.skip(i as int)),
            (a@ == b@) == (a@.skip(i as int) == b@.skip(i as int)),
        decreases min_len - i,
    {
        let ca = a.get_char(i);
        let cb = b.get_char(i);
        if ca < cb {
            proof {
                assert(a@.skip(i as int)[0] == a@[i as int]);
                assert(b@.skip(i as int)[0] == b@[i as int]);
                lemma_char_lt_trichotomy(a@.skip(i as int), b@.skip(i as int));
            }
            return CharOrder::Less;
        } else if ca > cb {
            proof {
                assert(a@.skip(i as int)[0] == a@[i as int]);
                assert(b@.skip(i as int)[0] == b@[i as int]);
                lemma_char_lt_trichotomy(a@.skip(i as int), b@.skip(i as int));
            }
            return CharOrder::Greater;
        }
        proof {
            lemma_char_lt_skip_step(a@, b@, i as int);
            lemma_char_lt_skip_step(b@, a@, i as int);
            lemma_seq_eq_skip_step(a@, b@, i as int);
        }
        i = i + 1;
    }
    proof {
        lemma_char_lt_trichotomy(a@.skip(i as int), b@.skip(i as int));
    }
    if a_len < b_len {
        CharOrder::Less
    } else if a_len > b_len {
        CharOrder::Greater
    } else {
        proof {
            assert(a@.skip(i as int) =~= b@.skip(i as int));
        }
        CharOrder::Equal
    }
}

proof fn lemma_char_lt_skip_step(a: Seq<char>, b: Seq<char>, i: int)
    requires
        0 <= i < a.len(),
        0 <= i < b.len(),
        a[i] == b[i],
    ensures
        seq_char_lt(a.skip(i), b.skip(i)) == seq_char_lt(a.skip(i + 1), b.skip(i + 1)),
{
    assert(a.skip(i).len() > 0);
    assert(b.skip(i).len() > 0);
    assert(a.skip(i)[0] == a[i]);
    assert(b.skip(i)[0] == b[i]);
    assert(a.skip(i).drop_first() =~= a.skip(i + 1));
    assert(b.skip(i).drop_first() =~= b.skip(i + 1));
}

proof fn lemma_seq_eq_skip_step(a: Seq<char>, b: Seq<char>, i: int)
    requires
        0 <= i < a.len(),
        0 <= i < b.len(),
        a[i] == b[i],
    ensures
        (a.skip(i) == b.skip(i)) == (a.skip(i + 1) == b.skip(i + 1)),
{
    if a.skip(i) == b.skip(i) {
        assert(a.skip(i).len() == b.skip(i).len());
        assert(a.len() == b.len());
        assert forall|j: int| 0 <= j < a.skip(i + 1).len() implies #[trigger] a.skip(i + 1)[j]
            == b.skip(i + 1)[j] by {
            assert(a.skip(i + 1)[j] == a.skip(i)[j + 1]);
            assert(b.skip(i + 1)[j] == b.skip(i)[j + 1]);
        }
        assert(a.skip(i + 1) =~= b.skip(i + 1));
    }
    if a.skip(i + 1) == b.skip(i + 1) {
        assert(a.skip(i + 1).len() == b.skip(i + 1).len());
        assert(a.len() == b.len());
        assert forall|j: int| 0 <= j < a.skip(i).len() implies a.skip(i)[j] == b.skip(i)[j] by {
            if j == 0 {
                assert(a.skip(i)[0] == a[i]);
                assert(b.skip(i)[0] == b[i]);
            } else {
                assert(a.skip(i)[j] == a[i + j]);
                assert(a.skip(i + 1)[j - 1] == a[i + j]);
                assert(b.skip(i)[j] == b[i + j]);
                assert(b.skip(i + 1)[j - 1] == b[i + j]);
            }
        }
        assert(a.skip(i) =~= b.skip(i));
    }
}

/// Does `s` start with the prefix `p`, character by character?
pub fn str_starts_with(s: &str, p: &str) -> (r: bool)
    ensures
        r == seq_char_prefix(s@, p@),
{
    let s_len = s.unicode_len();
    let p_len = p.unicode_len();
    if p_len > s_len {
        return false;
    }
    let mut i: usize = 0;
    while i < p_len
        invariant
            s_len == s@.len(),
            p_len == p@.len(),
            p_len <= s_len,
            i <= p_len,
            forall|j: int| 0 <= j < i ==> s@[j] == p@[j],
        decreases p_len - i,
    {
        if s.get_char(i) != p.get_char(i) {
            proof {
                assert(s@.subrange(0, p@.len() as int)[i as int] == s@[i as int]);
            }
            return false;
        }
        i = i + 1;
    }
    proof {
        assert(s@.subrange(0, p@.len() as int) =~= p@);
    }
    true
}

/// The Unicode white-space character property.
pub uninterp spec fn is_unicode_whitespace(c: char) -> bool;

/// Relies on `char::is_whitespace`: a pure property of the character; the
/// ASCII white-space characters are space and the controls `\t` through
/// `\r`.
#[verifier::external_body]
fn char_is_whitespace(c: char) -> (r: bool)
    ensures
        r == is_unicode_whitespace(c),
        ((c as int) < 128) ==> r == (c == ' ' || (9 <= (c as int) && (c as int) <= 13)),
{
    c.is_whitespace()
}

/// `s` with leading white space removed.
pub open spec fn trim_front_spec(s: Seq<char>) -> Seq<char>
    decreases s.len(),
{
    if s.len() > 0 && is_unicode_whitespace(s[0]) {
        trim_front_spec(s.drop_first())
    } else {
        s
    }
}

/// `s` with trailing white space removed.
pub open spec fn trim_back_spec(s: Seq<char>) -> Seq<char>
    decreases s.len(),
{
    if s.len() > 0 && is_unicode_whitespace(s.last()) {
        trim_back_spec(s.drop_last())
    } else {
        s
    }
}

/// `s` with white space removed from both ends, as `str::trim` leaves it.
pub open spec fn trim_spec(s: Seq<char>) -> Seq<char> {
    trim_back_spec(trim_front_spec(s))
}

/// Removes leading and trailing white space.
pub fn trim_str(s: &str) -> (r: String)
    ensures
        r@ == trim_spec(s@),
{
    let len = s.unicode_len();
    let mut start: usize = 0;
    proof {
        assert(s@.skip(0) =~= s@);
    }
    while start < len && char_is_whitespace(s.get_char(start))
        invariant
            start <= len,
            len == s@.len(),
            trim_front_spec(s@) == trim_front_spec(s@.skip(start as int)),
        decreases len - start,
    {
        proof {
            assert(s@.skip(start as int)[0] == s@[start as int]);
            assert(s@.skip(start as int).drop_first() =~= s@.skip(start as int + 1));
        }
        start = start + 1;
    }
    proof {
        if start < len {
            assert(s@.skip(start as int)[0] == s@[start as int]);
        }
        assert(trim_front_spec(s@) == s@.skip(start as int));
    }
    let mut end: usize = len;
    while end > start && char_is_whitespace(s.get_char(end - 1))
        invariant
            start <= end <= len,
            len == s@.len(),
            trim_front_spec(s@) == s@.skip(start as int),
            trim_back_spec(s@.skip(start as int)) == trim_back_spec(
                s@.subrange(start as int, end as int),
            ),
        decreases end,
    {
        proof {
            let cur = s@.subrange(start as int, end as int);
            assert(cur.last() == s@[end as int - 1]);
            assert(cur.drop_last() =~= s@.subrange(start as int, end as int - 1));
        }
        end = end - 1;
    }
    proof {
        let cur = s@.subrange(start as int, end as int);
        if end > start {
            assert(cur.last() == s@[end as int - 1]);
        }
        assert(trim_back_spec(cur) == cur);
        assert(trim_spec(s@) == s@.subrange(start as int, end as int));
    }
    s.substring_char(start, end).to_owned()
}

/// `pat` occurs in `s` starting at position `i`.
pub open spec fn match_at(s: Seq<char>, pat: Seq<char>, i: int) -> bool {
    0 <= i && i + pat.len() <= s.len() && s.subrange(i, i + pat.len()) == pat
}

/// Finds the first occurrence of `pat` in `s`, by character position.
pub fn find_str(s: &str, pat: &str) -> (r: Option<usize>)
    ensures
        match r {
            Some(i) => match_at(s@, pat@, i as int) && forall|j: int|
                0 <= j < i ==> !match_at(s@, pat@, j),
            None => forall|j: int| !match_at(s@, pat@, j),
        },
{
    let n = s.unicode_len();
    let m = pat.unicode_len();
    if m > n {
        return None;
    }
    if m == 0 {
        proof {
            assert(s@.subrange(0, 0) =~= pat@);
        }
        return Some(0);
    }
    let mut i: usize = 0;
    while i <= n - m
        invariant
            0 < m <= n,
            n == s@.len(),
            m == pat@.len(),
            i <= n - m + 1,
            forall|j: int| 0 <= j < i ==> !match_at(s@, pat@, j),
        decreases n - i,
    {
        let mut k: usize = 0;
        let mut matched = true;
        while k < m
            invariant
                m <= n,
                n == s@.len(),
                m == pat@.len(),
                i + m <= n,
                k <= m,
                matched ==> forall|t: int| 0 <= t < k ==> s@[i + t] == pat@[t],
                !matched ==> !match_at(s@, pat@, i as int),
            decreases m - k,
        {
            if s.get_char(i + k) != pat.get_char(k) {
                proof {
                    if match_at(s@, pat@, i as int) {
                        assert(s@.subrange(i as int, i + pat@.len())[k as int] == pat@[k as int]);
                    }
                }
                matched = false;
                k = m;
            } else {
                k = k + 1;
            }
        }
        if matched {
            proof {
                assert(s@.subrange(i as int, i + pat@.len()) =~= pat@);
            }
            return Some(i);
        }
        i = i + 1;
    }
    None
}

/// The character for a single decimal digit.
pub open spec fn digit_char(d: nat) -> char {
    if d == 0 { '0' }
    else if d == 1 { '1' }
    else if d == 2 { '2' }
    else if d == 3 { '3' }
    else if d == 4 { '4' }
    else if d == 5 { '5' }
    else if d == 6 { '6' }
    else if d == 7 { '7' }
    else if d == 8 { '8' }
    else { '9' }
}

/// The decimal rendering of a natural number, most significant digit first.
pub open spec fn dec_digits(n: nat) -> Seq<char>
    decreases n,
{
    if n < 10 {
        seq![digit_char(n)]
    } else {
        dec_digits(n / 10).push(digit_char(n % 10))
    }
}

/// A static string slice holding one decimal digit.
fn digit_str(d: usize) -> (r: &'static str)
    requires
        d < 10,
    ensures
        r@ == seq![digit_char(d as nat)],
{
    proof {
        reveal_strlit("0");
        reveal_strlit("1");
        reveal_strlit("2");
        reveal_strlit("3");
        reveal_strlit("4");
        reveal_strlit("5");
        reveal_strlit("6");
        reveal_strlit("7");
        reveal_strlit("8");
        reveal_strlit("9");
    }
    let r = match d {
        0 => "0",
        1 => "1",
        2 => "2",
        3 => "3",
        4 => "4",
        5 => "5",
        6 => "6",
        7 => "7",
        8 => "8",
        _ => "9",
    };
    proof {
        assert(r@ =~= seq![digit_char(d as nat)]);
    }
    r
}

/// Renders `n` in decimal.
pub fn usize_to_string(n: usize) -> (r: String)
    ensures
        r@ == dec_digits(n as nat),
    decreases n,
{
    if n < 10 {
        digit_str(n).to_owned()
    } else {
        proof {
            assert(n / 10 < n) by (nonlinear_arith)
                requires n >= 10;
            assert(n % 10 < 10) by (nonlinear_arith);
        }
        let mut s = usize_to_string(n / 10);
        s.append(digit_str(n % 10));
        proof {
            assert(dec_digits((n / 10) as nat).push(digit_char((n % 10) as nat)) =~= dec_digits(
                (n / 10) as nat,
            ) + seq![digit_char((n % 10) as nat)]);
        }
        s
    }
}

} // verus!
