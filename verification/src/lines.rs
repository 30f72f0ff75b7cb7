//! Splitting file content into lines, byte-for-byte compatible with
//! `str::lines` applied to the decoded text: lines end at `\n`, a carriage
//! return immediately before the `\n` is stripped, and a final line without a
//! terminator is kept as-is.

use vstd::prelude::*;

verus! {

/// All bytes of `bytes` are ASCII.
pub open spec fn all_ascii(bytes: Seq<u8>) -> bool {
    forall|i: int| 0 <= i < bytes.len() ==> bytes[i] < 0x80
}

/// The characters that a purely ASCII byte sequence denotes.
pub open spec fn bytes_as_chars(bytes: Seq<u8>) -> Seq<char> {
    bytes.map(|i: int, b: u8| b as char)
}

/// The text that lossy UTF-8 decoding assigns to a byte sequence; invalid
/// sequences become replacement characters.
pub uninterp spec fn utf8_lossy_chars(bytes: Seq<u8>) -> Seq<char>;

/// Relies on `String::from_utf8_lossy`: the result is a pure function of the
/// bytes, and ASCII bytes decode to their own characters.
#[verifier::external_body]
pub(crate) fn bytes_to_text(bytes: &[u8]) -> (r: String)
    ensures
        r@ == utf8_lossy_chars(bytes@),
        all_ascii(bytes@) ==> r@ == bytes_as_chars(bytes@),
{
    String::from_utf8_lossy(bytes).into_owned()
}

/// Drops a single trailing carriage return, as `str::lines` does for a line
/// that ended in `\r\n`.
pub open spec fn strip_cr(line: Seq<u8>) -> Seq<u8> {
    if line.len() > 0 && line.last() == 13 {
        line.drop_last()
    } else {
        line
    }
}

/// The lines of `rest`, given that `cur` holds the bytes of the current
/// (unterminated) line read so far.
pub open spec fn lines_rec(rest: Seq<u8>, cur: Seq<u8>) -> Seq<Seq<u8>>
    decreases rest.len(),
{
    if rest.len() == 0 {
        if cur.len() == 0 {
            Seq::empty()
        } else {
            seq![cur]
        }
    } else if rest[0] == 10 {
        seq![strip_cr(cur)] + lines_rec(rest.drop_first(), Seq::empty())
    } else {
        lines_rec(rest.drop_first(), cur.push(rest[0]))
    }
}

/// The line sequence of a byte buffer, with `str::lines` semantics.
pub open spec fn spec_lines(content: Seq<u8>) -> Seq<Seq<u8>> {
    lines_rec(content, Seq::empty())
}

/// Splits `content` into its lines.
pub fn split_lines(content: &[u8]) -> (r: Vec<Vec<u8>>)
    ensures
        r@.len() == spec_lines(content@).len(),
        forall|j: int| 0 <= j < r@.len() ==> r@[j]@ == spec_lines(content@)[j],
{
    let ghost full: Seq<Seq<u8>> = spec_lines(content@);
    let mut lines: Vec<Vec<u8>> = Vec::new();
    let ghost mut done: Seq<Seq<u8>> = Seq::empty();
    let mut cur: Vec<u8> = Vec::new();
    let n = content.len();
    let mut i: usize = 0;
    proof {
        assert(content@.skip(0) =~= content@);
        assert(full =~= done + lines_rec(content@, Seq::<u8>::empty()));
    }
    while i < n
        invariant
            i <= n,
            n == content@.len(),
            full == spec_lines(content@),
            lines@.len() == done.len(),
            forall|j: int| 0 <= j < done.len() ==> lines@[j]@ == done[j],
            full == done + lines_rec(content@.skip(i as int), cur@),
        decreases n - i,
    {
        let ghost rest_before = content@.skip(i as int);
        let ghost cur_before = cur@;
        let b = content[i];
        proof {
            assert(rest_before.len() > 0);
            assert(rest_before[0] == content@[i as int]);
            assert(rest_before.drop_first() =~= content@.skip(i as int + 1));
        }
        if b == 10 {
            if cur.len() > 0 && cur[cur.len() - 1] == 13 {
                cur.pop();
            }
            proof {
                assert(cur@ == strip_cr(cur_before));
            }
            lines.push(cur);
            cur = Vec::new();
            proof {
                done = done.push(strip_cr(cur_before));
                assert(lines_rec(rest_before, cur_before) == seq![strip_cr(cur_before)]
                    + lines_rec(content@.skip(i as int + 1), Seq::<u8>::empty()));
                assert(full =~= done + lines_rec(content@.skip(i as int + 1), cur@));
            }
        } else {
            cur.push(b);
            proof {
                assert(cur@ == cur_before.push(b));
                assert(lines_rec(rest_before, cur_before) == lines_rec(
                    content@.skip(i as int + 1),
                    cur@,
                ));
            }
        }
        i = i + 1;
    }
    proof {
        assert(content@.skip(n as int) =~= Seq::<u8>::empty());
    }
    if cur.len() > 0 {
        lines.push(cur);
        proof {
            done = done.push(cur@);
            assert(full =~= done);
        }
    } else {
        proof {
            assert(lines_rec(Seq::<u8>::empty(), cur@) =~= Seq::<Seq<u8>>::empty());
            assert(full =~= done);
        }
    }
    lines
}

} // verus!
