//! Small helpers on byte strings.

use vstd::prelude::*;

verus! {

/// Appends `bytes` to `out`.
pub fn append(out: &mut Vec<u8>, bytes: &[u8])
    ensures
        final(out)@ == old(out)@ + bytes@,
{
    let mut i: usize = 0;
    while i < bytes.len()
        invariant
            i <= bytes@.len(),
            out@ == old(out)@ + bytes@.take(i as int),
        decreases bytes@.len() - i,
    {
        out.push(bytes[i]);
        i = i + 1;
        assert(bytes@.take(i as int) == bytes@.take(i - 1).push(bytes@[i - 1]));
    }
    assert(bytes@.take(bytes@.len() as int) == bytes@);
}

/// `part` stands in `s` at position `at`.
pub open spec fn occurs_at(s: Seq<u8>, at: int, part: Seq<u8>) -> bool {
    &&& 0 <= at
    &&& at + part.len() <= s.len()
    &&& s.subrange(at, at + part.len()) == part
}

/// Tells whether `part` stands in `bytes` at position `at`.
pub fn starts_with_at(bytes: &[u8], at: usize, part: &[u8]) -> (found: bool)
    ensures
        found == occurs_at(bytes@, at as int, part@),
{
    if at > bytes.len() || part.len() > bytes.len() - at {
        return false;
    }
    let mut i: usize = 0;
    while i < part.len()
        invariant
            at + part@.len() <= bytes.len(),
            i <= part@.len(),
            bytes@.subrange(at as int, at + i) == part@.take(i as int),
        decreases part@.len() - i,
    {
        if bytes[at + i] != part[i] {
            proof {
                let whole = bytes@.subrange(at as int, at + part@.len());
                assert(whole[i as int] == bytes@[at + i]);
            }
            return false;
        }
        proof {
            let n = i as int;
            assert(bytes@.subrange(at as int, at + n + 1) == bytes@.subrange(at as int, at + n).push(
                bytes@[at + n],
            ));
            assert(part@.take(n + 1) == part@.take(n).push(part@[n]));
        }
        i = i + 1;
    }
    assert(part@.take(part@.len() as int) == part@);
    true
}

} // verus!
