//! Binary-content detection: a buffer counts as binary when a zero byte
//! occurs within its first `BINARY_CHECK_BYTES` bytes.

use vstd::prelude::*;

verus! {

/// Maximum number of leading bytes inspected for binary detection; the same
/// heuristic and cap that common VCS tooling uses.
pub const BINARY_CHECK_BYTES: usize = 8000;

/// A buffer is binary when a zero byte occurs within its inspected prefix.
pub open spec fn spec_is_binary(content: Seq<u8>) -> bool {
    exists|i: int| 0 <= i < content.len() && i < BINARY_CHECK_BYTES && content[i] == 0
}

/// Classifies `content` as binary by scanning its first `BINARY_CHECK_BYTES`
/// bytes for a zero byte. Empty input is never binary.
pub fn is_binary_content(content: &[u8]) -> (r: bool)
    ensures
        r == spec_is_binary(content@),
{
    let len = content.len();
    let check_len = if len < BINARY_CHECK_BYTES {
        len
    } else {
        BINARY_CHECK_BYTES
    };
    let mut i: usize = 0;
    while i < check_len
        invariant
            check_len <= content@.len(),
            check_len == if content@.len() < BINARY_CHECK_BYTES {
                content@.len() as usize
            } else {
                BINARY_CHECK_BYTES
            },
            i <= check_len,
            forall|j: int| 0 <= j < i ==> content@[j] != 0,
        decreases check_len - i,
    {
        if content[i] == 0 {
            return true;
        }
        i = i + 1;
    }
    false
}

} // verus!
