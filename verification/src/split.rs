//! Splitting a byte string at a separator.

use vstd::prelude::*;

verus! {

/// The pieces of `s` between the occurrences of `sep`: one piece more than
/// there are separators, empty pieces included.
pub open spec fn split(s: Seq<u8>, sep: u8) -> Seq<Seq<u8>>
    decreases s.len(),
{
    if s.len() == 0 {
        seq![Seq::<u8>::empty()]
    } else {
        let rest = split(s.drop_first(), sep);
        if s[0] == sep {
            seq![Seq::<u8>::empty()] + rest
        } else {
            rest.update(0, seq![s[0]] + rest[0])
        }
    }
}

/// No byte of `s` is `b`.
pub open spec fn free_of(s: Seq<u8>, b: u8) -> bool {
    forall|i: int| 0 <= i < s.len() ==> #[trigger] s[i] != b
}

/// Three pieces joined by the separator.
pub open spec fn join3(a: Seq<u8>, b: Seq<u8>, c: Seq<u8>, sep: u8) -> Seq<u8> {
    a + seq![sep] + b + seq![sep] + c
}

/// There is always at least one piece.
pub proof fn lemma_split_not_empty(s: Seq<u8>, sep: u8)
    ensures
        split(s, sep).len() >= 1,
    decreases s.len(),
{
    if s.len() > 0 {
        lemma_split_not_empty(s.drop_first(), sep);
    }
}

/// A text without the separator is its own single piece.
pub proof fn lemma_split_single(a: Seq<u8>, sep: u8)
    requires
        free_of(a, sep),
    ensures
        split(a, sep) == seq![a],
    decreases a.len(),
{
    if a.len() == 0 {
        assert(a == Seq::<u8>::empty());
    } else {
        let tail = a.drop_first();
        assert(free_of(tail, sep)) by {
            assert forall|i: int| 0 <= i < tail.len() implies #[trigger] tail[i] != sep by {
                assert(tail[i] == a[i + 1]);
            }
        }
        lemma_split_single(tail, sep);
        assert(seq![a[0]] + tail == a);
        assert(seq![tail].update(0, a) == seq![a]);
    }
}

/// The first piece ends at the first separator.
pub proof fn lemma_split_first(a: Seq<u8>, rest: Seq<u8>, sep: u8)
    requires
        free_of(a, sep),
    ensures
        split(a + seq![sep] + rest, sep) == seq![a] + split(rest, sep),
    decreases a.len(),
{
    let s = a + seq![sep] + rest;
    lemma_split_not_empty(rest, sep);
    if a.len() == 0 {
        assert(s.drop_first() == rest);
        assert(a == Seq::<u8>::empty());
    } else {
        let tail = a.drop_first();
        assert(free_of(tail, sep)) by {
            assert forall|i: int| 0 <= i < tail.len() implies #[trigger] tail[i] != sep by {
                assert(tail[i] == a[i + 1]);
            }
        }
        lemma_split_first(tail, rest, sep);
        assert(s.drop_first() == tail + seq![sep] + rest);
        assert(s[0] == a[0]);
        assert(seq![a[0]] + tail == a);
        let parts = seq![tail] + split(rest, sep);
        assert(parts.update(0, a) == seq![a] + split(rest, sep));
    }
}

/// Three pieces without the separator, joined, split into those three.
pub proof fn lemma_split_join3(a: Seq<u8>, b: Seq<u8>, c: Seq<u8>, sep: u8)
    requires
        free_of(a, sep),
        free_of(b, sep),
        free_of(c, sep),
    ensures
        split(join3(a, b, c, sep), sep) == seq![a, b, c],
{
    let bc = b + seq![sep] + c;
    assert(join3(a, b, c, sep) == a + seq![sep] + bc);
    lemma_split_first(a, bc, sep);
    lemma_split_first(b, c, sep);
    lemma_split_single(c, sep);
    assert(seq![a] + (seq![b] + seq![c]) == seq![a, b, c]);
}

/// The position of the first `b` at or behind `from`.
pub fn find_byte(bytes: &[u8], from: usize, b: u8) -> (r: Option<usize>)
    requires
        from <= bytes@.len(),
    ensures
        match r {
            Some(i) => from <= i < bytes@.len() && bytes@[i as int] == b && free_of(
                bytes@.subrange(from as int, i as int),
                b,
            ),
            None => free_of(bytes@.subrange(from as int, bytes@.len() as int), b),
        },
{
    let mut i: usize = from;
    while i < bytes.len()
        invariant
            from <= i <= bytes@.len(),
            free_of(bytes@.subrange(from as int, i as int), b),
        decreases bytes@.len() - i,
    {
        if bytes[i] == b {
            return Some(i);
        }
        proof {
            let next = bytes@.subrange(from as int, i + 1);
            assert forall|j: int| 0 <= j < next.len() implies #[trigger] next[j] != b by {
                if j < i - from {
                    assert(next[j] == bytes@.subrange(from as int, i as int)[j]);
                }
            }
        }
        i = i + 1;
    }
    None
}

/// Where the two separators of a text of exactly three pieces stand.
///
/// Returns the two positions exactly where the text splits into three
/// pieces; the pieces are then what stands before, between and behind them.
pub fn three_pieces(bytes: &[u8], sep: u8) -> (r: Option<(usize, usize)>)
    ensures
        match r {
            Some((first, second)) => {
                &&& first < second < bytes@.len()
                &&& bytes@[first as int] == sep
                &&& bytes@[second as int] == sep
                &&& split(bytes@, sep) == seq![
                    bytes@.subrange(0, first as int),
                    bytes@.subrange(first + 1, second as int),
                    bytes@.subrange(second + 1, bytes@.len() as int),
                ]
            },
            None => split(bytes@, sep).len() != 3,
        },
{
    let ghost s = bytes@;
    let n: usize = bytes.len();
    let first = match find_byte(bytes, 0, sep) {
        Some(i) => i,
        None => {
            proof {
                assert(s.subrange(0, n as int) == s);
                lemma_split_single(s, sep);
            }
            return None;
        },
    };
    let ghost a = s.subrange(0, first as int);
    let ghost after_a = s.subrange(first + 1, n as int);
    proof {
        assert(s == a + seq![sep] + after_a);
        lemma_split_first(a, after_a, sep);
    }
    let second = match find_byte(bytes, first + 1, sep) {
        Some(i) => i,
        None => {
            proof {
                lemma_split_single(after_a, sep);
            }
            return None;
        },
    };
    let ghost b = s.subrange(first + 1, second as int);
    let ghost after_b = s.subrange(second + 1, n as int);
    proof {
        assert(after_a == b + seq![sep] + after_b);
        lemma_split_first(b, after_b, sep);
    }
    match find_byte(bytes, second + 1, sep) {
        Some(third) => {
            proof {
                let c = s.subrange(second + 1, third as int);
                let after_c = s.subrange(third + 1, n as int);
                assert(after_b == c + seq![sep] + after_c);
                lemma_split_first(c, after_c, sep);
                lemma_split_not_empty(after_c, sep);
            }
            None
        },
        None => {
            proof {
                lemma_split_single(after_b, sep);
                assert(seq![a] + (seq![b] + seq![after_b]) == seq![a, b, after_b]);
            }
            Some((first, second))
        },
    }
}

} // verus!
