//! Comparing runs of bytes.

use vstd::prelude::*;

verus! {

/// `bytes` holds `pattern` from position `at` on.
pub open spec fn holds_at(bytes: Seq<u8>, at: int, pattern: Seq<u8>) -> bool {
    &&& 0 <= at
    &&& at + pattern.len() <= bytes.len()
    &&& bytes.subrange(at, at + pattern.len()) == pattern
}

/// Whether `bytes` holds `pattern` from position `at` on.
pub fn has_at(bytes: &[u8], at: usize, pattern: &[u8]) -> (found: bool)
    ensures
        found == holds_at(bytes@, at as int, pattern@),
{
    if at > bytes.len() || pattern.len() > bytes.len() - at {
        return false;
    }
    let mut i: usize = 0;
    while i < pattern.len()
        invariant
            i <= pattern.len(),
            at + pattern.len() <= bytes.len(),
            forall|k: int| 0 <= k < i ==> bytes@[at + k] == pattern@[k],
        decreases pattern.len() - i,
    {
        if bytes[at + i] != pattern[i] {
            proof {
                let window = bytes@.subrange(at as int, at + pattern@.len());
                assert(window[i as int] == bytes@[at + i]);
            }
            return false;
        }
        i += 1;
    }
    assert(bytes@.subrange(at as int, at + pattern@.len()) =~= pattern@);
    true
}

/// Whether two runs of bytes are the same.
pub fn same_bytes(a: &[u8], b: &[u8]) -> (same: bool)
    ensures
        same == (a@ == b@),
{
    if a.len() != b.len() {
        return false;
    }
    let same = has_at(a, 0, b);
    assert(a@.subrange(0, a@.len() as int) =~= a@);
    same
}

} // verus!
