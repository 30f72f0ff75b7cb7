//! Commit and change identifiers: opaque byte strings with two display
//! encodings, plain lowercase hex for commit ids and the reversed `z`-`k`
//! hex alphabet for change ids.

use vstd::prelude::*;
use vstd::string::StrSliceExecFns;
use vstd::string::StringExecFns;

verus! {

/// Length in characters of a full commit-id hex literal.
pub const COMMIT_ID_HEX_LEN: usize = 40;

/// The lowercase hex character for a nibble.
pub open spec fn hex_digit_char(d: nat) -> char {
    if d == 0 { '0' }
    else if d == 1 { '1' }
    else if d == 2 { '2' }
    else if d == 3 { '3' }
    else if d == 4 { '4' }
    else if d == 5 { '5' }
    else if d == 6 { '6' }
    else if d == 7 { '7' }
    else if d == 8 { '8' }
    else if d == 9 { '9' }
    else if d == 10 { 'a' }
    else if d == 11 { 'b' }
    else if d == 12 { 'c' }
    else if d == 13 { 'd' }
    else if d == 14 { 'e' }
    else { 'f' }
}

/// The reversed-alphabet character for a nibble: 0 maps to 'z', 15 to 'k'.
pub open spec fn reverse_hex_digit_char(d: nat) -> char {
    if d == 0 { 'z' }
    else if d == 1 { 'y' }
    else if d == 2 { 'x' }
    else if d == 3 { 'w' }
    else if d == 4 { 'v' }
    else if d == 5 { 'u' }
    else if d == 6 { 't' }
    else if d == 7 { 's' }
    else if d == 8 { 'r' }
    else if d == 9 { 'q' }
    else if d == 10 { 'p' }
    else if d == 11 { 'o' }
    else if d == 12 { 'n' }
    else if d == 13 { 'm' }
    else if d == 14 { 'l' }
    else { 'k' }
}

/// The lowercase hex rendering of a byte sequence, two characters per byte.
pub open spec fn hex_of_bytes(bytes: Seq<u8>) -> Seq<char>
    decreases bytes.len(),
{
    if bytes.len() == 0 {
        Seq::empty()
    } else {
        seq![
            hex_digit_char((bytes[0] / 16) as nat),
            hex_digit_char((bytes[0] % 16) as nat),
        ] + hex_of_bytes(bytes.drop_first())
    }
}

/// The reversed-alphabet rendering of a byte sequence.
pub open spec fn reverse_hex_of_bytes(bytes: Seq<u8>) -> Seq<char>
    decreases bytes.len(),
{
    if bytes.len() == 0 {
        Seq::empty()
    } else {
        seq![
            reverse_hex_digit_char((bytes[0] / 16) as nat),
            reverse_hex_digit_char((bytes[0] % 16) as nat),
        ] + reverse_hex_of_bytes(bytes.drop_first())
    }
}

/// `c` is a hex digit, in either case.
pub open spec fn is_hex_digit(c: char) -> bool {
    ('0' <= c && c <= '9') || ('a' <= c && c <= 'f') || ('A' <= c && c <= 'F')
}

/// The nibble value of a hex digit.
pub open spec fn hex_digit_val(c: char) -> nat {
    if '0' <= c && c <= '9' {
        (c as int - '0' as int) as nat
    } else if 'a' <= c && c <= 'f' {
        (c as int - 'a' as int + 10) as nat
    } else {
        (c as int - 'A' as int + 10) as nat
    }
}

/// `s` is a full-length, well-formed commit-id hex literal.
pub open spec fn is_full_hex(s: Seq<char>) -> bool {
    s.len() == COMMIT_ID_HEX_LEN && forall|i: int| 0 <= i < s.len() ==> is_hex_digit(s[i])
}

/// The bytes denoted by an even-length hex digit sequence.
pub open spec fn bytes_of_hex(s: Seq<char>) -> Seq<u8>
    decreases s.len(),
{
    if s.len() < 2 {
        Seq::empty()
    } else {
        seq![(hex_digit_val(s[0]) * 16 + hex_digit_val(s[1])) as u8] + bytes_of_hex(s.skip(2))
    }
}

/// A content-hash identifier for stored content (file bytes or a symlink
/// target); equality is byte-exact.
pub struct ContentId {
    pub bytes: Vec<u8>,
}

impl View for ContentId {
    type V = Seq<u8>;

    open spec fn view(&self) -> Seq<u8> {
        self.bytes@
    }
}

impl Clone for ContentId {
    fn clone(&self) -> (r: Self)
        ensures
            r@ == self@,
    {
        ContentId { bytes: clone_bytes(&self.bytes) }
    }
}

impl ContentId {
    /// Wraps raw identifier bytes.
    pub fn from_bytes(bytes: Vec<u8>) -> (r: ContentId)
        ensures
            r@ == bytes@,
    {
        ContentId { bytes }
    }

    /// The identifier's raw bytes.
    pub fn as_bytes(&self) -> (r: &Vec<u8>)
        ensures
            r@ == self@,
    {
        &self.bytes
    }

    /// Byte-exact equality with another identifier.
    pub fn same_as(&self, other: &ContentId) -> (r: bool)
        ensures
            r == (self@ == other@),
    {
        bytes_eq(&self.bytes, &other.bytes)
    }
}

/// A content-hash identifier for a commit; equality is byte-exact.
pub struct CommitId {
    pub bytes: Vec<u8>,
}

/// A stable identifier for a logical change, carried by each commit.
pub struct ChangeId {
    pub bytes: Vec<u8>,
}

impl View for CommitId {
    type V = Seq<u8>;

    open spec fn view(&self) -> Seq<u8> {
        self.bytes@
    }
}

impl View for ChangeId {
    type V = Seq<u8>;

    open spec fn view(&self) -> Seq<u8> {
        self.bytes@
    }
}

impl Clone for CommitId {
    fn clone(&self) -> (r: Self)
        ensures
            r@ == self@,
    {
        CommitId { bytes: clone_bytes(&self.bytes) }
    }
}

impl Clone for ChangeId {
    fn clone(&self) -> (r: Self)
        ensures
            r@ == self@,
    {
        ChangeId { bytes: clone_bytes(&self.bytes) }
    }
}

/// Copies a byte vector element by element.
pub fn clone_bytes(v: &Vec<u8>) -> (r: Vec<u8>)
    ensures
        r@ == v@,
{
    let mut r: Vec<u8> = Vec::new();
    let n = v.len();
    let mut i: usize = 0;
    while i < n
        invariant
            i <= n,
            n == v@.len(),
            r@ == v@.take(i as int),
        decreases n - i,
    {
        r.push(v[i]);
        proof {
            assert(v@.take(i as int).push(v@[i as int]) =~= v@.take(i as int + 1));
        }
        i = i + 1;
    }
    proof {
        assert(v@.take(n as int) =~= v@);
    }
    r
}

/// Element-wise equality of two byte vectors.
pub fn bytes_eq(a: &Vec<u8>, b: &Vec<u8>) -> (r: bool)
    ensures
        r == (a@ == b@),
{
    if a.len() != b.len() {
        return false;
    }
    let n = a.len();
    let mut i: usize = 0;
    while i < n
        invariant
            i <= n,
            n == a@.len(),
            n == b@.len(),
            forall|j: int| 0 <= j < i ==> a@[j] == b@[j],
        decreases n - i,
    {
        if a[i] != b[i] {
            return false;
        }
        i = i + 1;
    }
    proof {
        assert(a@ =~= b@);
    }
    true
}

/// A static string slice holding one lowercase hex digit.
fn hex_digit_str(d: u8) -> (r: &'static str)
    requires
        d < 16,
    ensures
        r@ == seq![hex_digit_char(d as nat)],
{
    proof {
        reveal_strlit("0");
        reveal_strlit("1");
        reveal_strlit("2");
        reveal_strlit("3");
        reveal_strlit("4");
        reveal_strlit("5");
        reveal_strlit("6");
        reveal_strlit("7");
        reveal_strlit("8");
        reveal_strlit("9");
        reveal_strlit("a");
        reveal_strlit("b");
        reveal_strlit("c");
        reveal_strlit("d");
        reveal_strlit("e");
        reveal_strlit("f");
    }
    let r = match d {
        0 => "0",
        1 => "1",
        2 => "2",
        3 => "3",
        4 => "4",
        5 => "5",
        6 => "6",
        7 => "7",
        8 => "8",
        9 => "9",
        10 => "a",
        11 => "b",
        12 => "c",
        13 => "d",
        14 => "e",
        _ => "f",
    };
    proof {
        assert(r@ =~= seq![hex_digit_char(d as nat)]);
    }
    r
}

/// A static string slice holding one reversed-alphabet digit.
fn reverse_hex_digit_str(d: u8) -> (r: &'static str)
    requires
        d < 16,
    ensures
        r@ == seq![reverse_hex_digit_char(d as nat)],
{
    proof {
        reveal_strlit("z");
        reveal_strlit("y");
        reveal_strlit("x");
        reveal_strlit("w");
        reveal_strlit("v");
        reveal_strlit("u");
        reveal_strlit("t");
        reveal_strlit("s");
        reveal_strlit("r");
        reveal_strlit("q");
        reveal_strlit("p");
        reveal_strlit("o");
        reveal_strlit("n");
        reveal_strlit("m");
        reveal_strlit("l");
        reveal_strlit("k");
    }
    let r = match d {
        0 => "z",
        1 => "y",
        2 => "x",
        3 => "w",
        4 => "v",
        5 => "u",
        6 => "t",
        7 => "s",
        8 => "r",
        9 => "q",
        10 => "p",
        11 => "o",
        12 => "n",
        13 => "m",
        14 => "l",
        _ => "k",
    };
    proof {
        assert(r@ =~= seq![reverse_hex_digit_char(d as nat)]);
    }
    r
}

impl CommitId {
    /// Wraps raw identifier bytes.
    pub fn from_bytes(bytes: Vec<u8>) -> (r: CommitId)
        ensures
            r@ == bytes@,
    {
        CommitId { bytes }
    }

    /// The identifier's raw bytes.
    pub fn as_bytes(&self) -> (r: &Vec<u8>)
        ensures
            r@ == self@,
    {
        &self.bytes
    }

    /// Byte-exact equality with another identifier.
    pub fn same_as(&self, other: &CommitId) -> (r: bool)
        ensures
            r == (self@ == other@),
    {
        bytes_eq(&self.bytes, &other.bytes)
    }

    /// The lowercase hex rendering of this identifier.
    pub fn hex(&self) -> (r: String)
        ensures
            r@ == hex_of_bytes(self@),
    {
        let mut r = String::new();
        let n = self.bytes.len();
        let mut i: usize = 0;
        proof {
            assert(self@.skip(0) =~= self@);
        }
        while i < n
            invariant
                i <= n,
                n == self@.len(),
                hex_of_bytes(self@) == r@ + hex_of_bytes(self@.skip(i as int)),
            decreases n - i,
        {
            let ghost rest = self@.skip(i as int);
            let b = self.bytes[i];
            proof {
                assert(rest[0] == self@[i as int]);
                assert(rest.drop_first() =~= self@.skip(i as int + 1));
            }
            r.append(hex_digit_str(b / 16));
            r.append(hex_digit_str(b % 16));
            i = i + 1;
        }
        proof {
            assert(self@.skip(n as int) =~= Seq::<u8>::empty());
            assert(hex_of_bytes(self@) =~= r@);
        }
        r
    }

    /// Parses a full-length hex literal, accepting either letter case;
    /// returns `None` for any other string.
    pub fn try_from_hex(s: &str) -> (r: Option<CommitId>)
        ensures
            r is Some <==> is_full_hex(s@),
            r matches Some(id) ==> id@ == bytes_of_hex(s@),
    {
        let len = s.unicode_len();
        if len != COMMIT_ID_HEX_LEN {
            return None;
        }
        let mut bytes: Vec<u8> = Vec::new();
        let mut i: usize = 0;
        proof {
            assert(s@.skip(0) =~= s@);
        }
        while i < len
            invariant
                i <= len,
                i % 2 == 0,
                len == s@.len(),
                len == COMMIT_ID_HEX_LEN,
                forall|j: int| 0 <= j < i ==> is_hex_digit(s@[j]),
                bytes_of_hex(s@) == bytes@ + bytes_of_hex(s@.skip(i as int)),
            decreases len - i,
        {
            let ghost rest = s@.skip(i as int);
            let hi = match hex_digit_value(s.get_char(i)) {
                Some(v) => v,
                None => {
                    return None;
                },
            };
            let lo = match hex_digit_value(s.get_char(i + 1)) {
                Some(v) => v,
                None => {
                    return None;
                },
            };
            proof {
                assert(rest[0] == s@[i as int]);
                assert(rest[1] == s@[i as int + 1]);
                assert(rest.skip(2) =~= s@.skip(i as int + 2));
            }
            bytes.push(hi * 16 + lo);
            proof {
                assert(bytes@ =~= (bytes@.drop_last()).push((hex_digit_val(rest[0]) * 16
                    + hex_digit_val(rest[1])) as u8));
                assert(bytes@.drop_last() + bytes_of_hex(rest) =~= bytes@ + bytes_of_hex(
                    s@.skip(i as int + 2),
                ));
            }
            i = i + 2;
        }
        proof {
            assert(s@.skip(len as int) =~= Seq::<char>::empty());
            assert(bytes_of_hex(s@) =~= bytes@);
        }
        Some(CommitId { bytes })
    }
}

impl ChangeId {
    /// Wraps raw identifier bytes.
    pub fn from_bytes(bytes: Vec<u8>) -> (r: ChangeId)
        ensures
            r@ == bytes@,
    {
        ChangeId { bytes }
    }

    /// The identifier's raw bytes.
    pub fn as_bytes(&self) -> (r: &Vec<u8>)
        ensures
            r@ == self@,
    {
        &self.bytes
    }

    /// The reversed-alphabet rendering of this identifier, the display form
    /// used for change ids.
    pub fn reverse_hex(&self) -> (r: String)
        ensures
            r@ == reverse_hex_of_bytes(self@),
    {
        let mut r = String::new();
        let n = self.bytes.len();
        let mut i: usize = 0;
        proof {
            assert(self@.skip(0) =~= self@);
        }
        while i < n
            invariant
                i <= n,
                n == self@.len(),
                reverse_hex_of_bytes(self@) == r@ + reverse_hex_of_bytes(self@.skip(i as int)),
            decreases n - i,
        {
            let ghost rest = self@.skip(i as int);
            let b = self.bytes[i];
            proof {
                assert(rest[0] == self@[i as int]);
                assert(rest.drop_first() =~= self@.skip(i as int + 1));
            }
            r.append(reverse_hex_digit_str(b / 16));
            r.append(reverse_hex_digit_str(b % 16));
            i = i + 1;
        }
        proof {
            assert(self@.skip(n as int) =~= Seq::<u8>::empty());
            assert(reverse_hex_of_bytes(self@) =~= r@);
        }
        r
    }
}

/// The nibble value of a hex digit character, `None` for any other character.
pub fn hex_digit_value(c: char) -> (r: Option<u8>)
    ensures
        (r is Some) == is_hex_digit(c),
        r matches Some(v) ==> v == hex_digit_val(c) && v < 16,
{
    if c >= '0' && c <= '9' {
        Some((c as u32 - '0' as u32) as u8)
    } else if c >= 'a' && c <= 'f' {
        Some((c as u32 - 'a' as u32 + 10) as u8)
    } else if c >= 'A' && c <= 'F' {
        Some((c as u32 - 'A' as u32 + 10) as u8)
    } else {
        None
    }
}

} // verus!
