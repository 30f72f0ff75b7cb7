//! Small pure helpers around the tool: wrapped line counting over grapheme
//! clusters, token-count display, and the decision whether a diff needs a
//! file selection pass.

use vstd::prelude::*;
use vstd::string::StrSliceExecFns;
use vstd::string::StringExecFns;
use unicode_segmentation::UnicodeSegmentation;
use crate::textutil::dec_digits;
use crate::textutil::digit_char;
use crate::textutil::str_eq_str;
use crate::textutil::usize_to_string;

verus! {

/// The extended grapheme clusters of a character sequence.
pub uninterp spec fn grapheme_clusters(s: Seq<char>) -> Seq<Seq<char>>;

/// Relies on unicode-segmentation's `graphemes` (extended clusters): the
/// clusters are a pure function of the text; they are non-empty and
/// concatenate back to the text.
#[verifier::external_body]
fn graphemes_of(s: &str) -> (r: Vec<String>)
    ensures
        r.deep_view() == grapheme_clusters(s@),
        forall|i: int|
            0 <= i < r.deep_view().len() ==> (#[trigger] r.deep_view()[i]).len() > 0,
        r.deep_view().flatten() == s@,
{
    s.graphemes(true).map(|g| g.to_string()).collect()
}

/// One step of the wrapped line count: carriage returns and byte-order
/// marks are ignored, a newline opens a new line, and any other cluster
/// adds one column, wrapping when the width passes `max_width`.
pub open spec fn wrap_step(state: (int, int), cluster: Seq<char>, max_width: int) -> (int, int) {
    if cluster == "\r"@ || cluster == "\u{FEFF}"@ {
        state
    } else if cluster == "\n"@ {
        (state.0 + 1, 0)
    } else {
        if state.1 + 1 > max_width {
            (state.0 + 1, cluster.len() as int)
        } else {
            (state.0, state.1 + 1)
        }
    }
}

/// The fold of `wrap_step` over a cluster sequence.
pub open spec fn wrap_fold(clusters: Seq<Seq<char>>, max_width: int, state: (int, int)) -> (
    int,
    int,
)
    decreases clusters.len(),
{
    if clusters.len() == 0 {
        state
    } else {
        wrap_fold(clusters.drop_first(), max_width, wrap_step(state, clusters[0], max_width))
    }
}

/// The number of display lines `s` occupies at the given width: zero for
/// empty text, else one more than the wraps and newlines counted over its
/// grapheme clusters.
pub open spec fn spec_count_lines(s: Seq<char>, max_width: int) -> int {
    if s.len() == 0 {
        0
    } else {
        wrap_fold(grapheme_clusters(s), max_width, (0, 0)).0 + 1
    }
}

/// Each cluster is no longer than the concatenation of all of them.
proof fn lemma_flatten_elem_len(clusters: Seq<Seq<char>>, i: int)
    requires
        0 <= i < clusters.len(),
    ensures
        clusters[i].len() <= clusters.flatten().len(),
    decreases i,
{
    assert(clusters.flatten() == clusters[0] + clusters.drop_first().flatten());
    if i == 0 {
    } else {
        assert(clusters.drop_first()[i - 1] == clusters[i]);
        lemma_flatten_elem_len(clusters.drop_first(), i - 1);
    }
}

/// Non-empty clusters that concatenate to `s` number at most `s.len()`.
proof fn lemma_cluster_count(clusters: Seq<Seq<char>>)
    requires
        forall|i: int| 0 <= i < clusters.len() ==> (#[trigger] clusters[i]).len() > 0,
    ensures
        clusters.len() <= clusters.flatten().len(),
    decreases clusters.len(),
{
    if clusters.len() == 0 {
    } else {
        lemma_cluster_count(clusters.drop_first());
        assert(clusters.flatten() == clusters[0] + clusters.drop_first().flatten());
    }
}

/// The line count never exceeds the cluster count.
proof fn lemma_wrap_fold_bound(clusters: Seq<Seq<char>>, max_width: int, state: (int, int))
    ensures
        wrap_fold(clusters, max_width, state).0 <= state.0 + clusters.len(),
    decreases clusters.len(),
{
    if clusters.len() == 0 {
    } else {
        let next = wrap_step(state, clusters[0], max_width);
        lemma_wrap_fold_bound(clusters.drop_first(), max_width, next);
    }
}

/// Counts the display lines of `text` when wrapped at `max_width` columns,
/// walking the text by grapheme clusters.
#[verifier::loop_isolation(false)]
pub fn count_lines(text: &str, max_width: usize) -> (r: u16)
    requires
        text@.len() < 65535,
        max_width < 65536,
    ensures
        r as int == spec_count_lines(text@, max_width as int),
{
    if text.unicode_len() == 0 {
        return 0;
    }
    let clusters = graphemes_of(text);
    let ghost cs = grapheme_clusters(text@);
    proof {
        lemma_cluster_count(cs);
        assert(cs.len() <= text@.len());
        assert(cs.skip(0) =~= cs);
    }
    let n = clusters.len();
    let mut line_count: usize = 0;
    let mut current_line_width: usize = 0;
    let mut i: usize = 0;
    while i < n
        invariant
            i <= n,
            line_count <= i,
            current_line_width <= text@.len() + i,
            wrap_fold(cs, max_width as int, (0, 0)) == wrap_fold(
                cs.skip(i as int),
                max_width as int,
                (line_count as int, current_line_width as int),
            ),
        decreases n - i,
    {
        let ghost rest = cs.skip(i as int);
        proof {
            assert(rest[0] == cs[i as int]);
            assert(rest.drop_first() =~= cs.skip(i as int + 1));
            assert(clusters@[i as int]@ == cs[i as int]);
        }
        let cluster = &clusters[i];
        if str_eq_str(cluster.as_str(), "\r") || str_eq_str(cluster.as_str(), "\u{FEFF}") {
        } else if str_eq_str(cluster.as_str(), "\n") {
            line_count = line_count + 1;
            current_line_width = 0;
        } else {
            current_line_width = current_line_width + 1;
            if current_line_width > max_width {
                line_count = line_count + 1;
                current_line_width = cluster.as_str().unicode_len();
                proof {
                    lemma_flatten_elem_len(cs, i as int);
                }
            }
        }
        i = i + 1;
    }
    proof {
        assert(cs.skip(n as int) =~= Seq::<Seq<char>>::empty());
        lemma_wrap_fold_bound(cs, max_width as int, (0, 0));
    }
    line_count as u16 + 1
}

/// The display text of a token count: the count in units of one thousand,
/// with two decimal places (rounded half away from zero) and a trailing
/// `k`.
pub open spec fn spec_token_count_text(tokens: nat) -> Seq<char> {
    let hundredths = (tokens + 5) / 10;
    dec_digits(hundredths / 100) + "."@ + seq![
        digit_char((hundredths / 10) % 10),
        digit_char(hundredths % 10),
    ] + "k"@
}

/// Formats a token count in thousands with two decimal places.
pub fn format_token_count(tokens: usize) -> (r: String)
    ensures
        r@ == spec_token_count_text(tokens as nat),
{
    let hundredths = tokens / 10 + (tokens % 10 + 5) / 10;
    proof {
        assert(tokens / 10 + (tokens % 10 + 5) / 10 == (tokens + 5) / 10) by (nonlinear_arith);
    }
    let mut out = usize_to_string(hundredths / 100);
    out.append(".");
    let tens: u8 = ((hundredths / 10) % 10) as u8;
    let ones: u8 = (hundredths % 10) as u8;
    out.append(decimal_digit_str(tens));
    out.append(decimal_digit_str(ones));
    out.append("k");
    proof {
        assert(out@ =~= spec_token_count_text(tokens as nat));
    }
    out
}

/// A static string slice holding one decimal digit.
fn decimal_digit_str(d: u8) -> (r: &'static str)
    requires
        d < 10,
    ensures
        r@ == seq![digit_char(d as nat)],
{
    proof {
        reveal_strlit("0");
        reveal_strlit("1");
        reveal_strlit("2");
        reveal_strlit("3");
        reveal_strlit("4");
        reveal_strlit("5");
        reveal_strlit("6");
        reveal_strlit("7");
        reveal_strlit("8");
        reveal_strlit("9");
    }
    let r = match d {
        0 => "0",
        1 => "1",
        2 => "2",
        3 => "3",
        4 => "4",
        5 => "5",
        6 => "6",
        7 => "7",
        8 => "8",
        _ => "9",
    };
    proof {
        assert(r@ =~= seq![digit_char(d as nat)]);
    }
    r
}

/// Whether the diff must go through file selection: always when asked for,
/// and whenever the request would not fit the model's context window.
pub fn needs_file_selection(
    used_tokens: usize,
    diff_tokens: usize,
    context: usize,
    always_select_files: bool,
) -> (r: bool)
    requires
        used_tokens + diff_tokens <= usize::MAX,
    ensures
        r == (always_select_files || used_tokens + diff_tokens > context),
{
    always_select_files || used_tokens + diff_tokens > context
}

} // verus!
