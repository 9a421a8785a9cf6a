//! Integers in decimal notation, as they stand in the claims of a token.

use vstd::prelude::*;

verus! {

/// The byte `-`.
pub const MINUS: u8 = 0x2d;

/// The byte `0`.
pub const ZERO: u8 = 0x30;

/// A decimal digit `0`-`9`.
pub open spec fn is_digit(b: u8) -> bool {
    0x30 <= b <= 0x39
}

/// The digits of `n`, most significant first, with no leading zero.
pub open spec fn digits(n: nat) -> Seq<u8>
    decreases n,
{
    if n < 10 {
        seq![(0x30 + n) as u8]
    } else {
        digits(n / 10).push((0x30 + n % 10) as u8)
    }
}

/// The decimal notation of `v`: a minus sign for a negative number, then the
/// digits of its magnitude.
pub open spec fn decimal(v: int) -> Seq<u8> {
    if v < 0 {
        seq![MINUS] + digits((-v) as nat)
    } else {
        digits(v as nat)
    }
}

/// Reads digits from position `at` on, folding them into `acc`; gives the
/// value read and the position of the first byte that is no digit.
pub open spec fn scan_digits(s: Seq<u8>, at: int, acc: nat) -> (nat, int)
    decreases s.len() - at,
{
    if 0 <= at < s.len() && is_digit(s[at]) {
        scan_digits(s, at + 1, acc * 10 + (s[at] - 0x30) as nat)
    } else {
        (acc, at)
    }
}

/// Reads an optional minus sign and a run of digits at position `at`; gives
/// the number and the position behind it, or `None` where there is no digit
/// or the number does not fit in 64 bits.
pub open spec fn scan_decimal(s: Seq<u8>, at: int) -> Option<(i64, int)> {
    let negative = 0 <= at < s.len() && s[at] == MINUS;
    let start = if negative { at + 1 } else { at };
    let (magnitude, end) = scan_digits(s, start, 0);
    if end == start {
        None
    } else if negative {
        if magnitude <= 0x8000_0000_0000_0000 {
            Some(((-(magnitude as int)) as i64, end))
        } else {
            None
        }
    } else {
        if magnitude < 0x8000_0000_0000_0000 {
            Some((magnitude as i64, end))
        } else {
            None
        }
    }
}

/// Every byte of `digits(n)` is a digit.
pub proof fn lemma_digits_are_digits(n: nat)
    ensures
        digits(n).len() >= 1,
        forall|i: int| 0 <= i < digits(n).len() ==> is_digit(#[trigger] digits(n)[i]),
    decreases n,
{
    if n >= 10 {
        lemma_digits_are_digits(n / 10);
    }
}

/// Where `digits(n)` stands at `at`, reading from `at` with nothing read so
/// far arrives behind it with `n` read.
pub proof fn lemma_scan_digits_of(s: Seq<u8>, at: int, n: nat)
    requires
        0 <= at,
        at + digits(n).len() <= s.len(),
        s.subrange(at, at + digits(n).len()) == digits(n),
    ensures
        scan_digits(s, at, 0) == scan_digits(s, at + digits(n).len(), n),
    decreases n,
{
    lemma_digits_are_digits(n);
    let k = digits(n).len() as int;
    let last = at + k - 1;
    assert(s[last] == s.subrange(at, at + k)[k - 1]);
    if n < 10 {
        assert(s[at] == (0x30 + n) as u8);
        assert(scan_digits(s, at, 0) == scan_digits(s, at + 1, (0 * 10 + (s[at] - 0x30)) as nat));
    } else {
        let m = n / 10;
        lemma_digits_are_digits(m);
        assert(digits(n).drop_last() == digits(m));
        assert(s.subrange(at, at + k - 1) == s.subrange(at, at + k).drop_last());
        lemma_scan_digits_of(s, at, m);
        assert(s[last] == (0x30 + n % 10) as u8);
        assert(is_digit(s[last]));
        assert(scan_digits(s, last, m) == scan_digits(
            s,
            last + 1,
            m * 10 + (s[last] - 0x30) as nat,
        ));
        assert(m * 10 + (s[last] - 0x30) as nat == n);
    }
}

/// Where the decimal notation of `v` stands at `at` and no digit follows it,
/// `scan_decimal` reads `v` and stops behind the notation.
pub proof fn lemma_scan_decimal_of(s: Seq<u8>, at: int, v: i64)
    requires
        0 <= at,
        at + decimal(v as int).len() <= s.len(),
        s.subrange(at, at + decimal(v as int).len()) == decimal(v as int),
        at + decimal(v as int).len() == s.len() || !is_digit(s[at + decimal(v as int).len()]),
    ensures
        scan_decimal(s, at) == Some((v, at + decimal(v as int).len())),
{
    let text = decimal(v as int);
    let k = text.len() as int;
    assert(s[at] == s.subrange(at, at + k)[0]);
    if v < 0 {
        let n = (-(v as int)) as nat;
        lemma_digits_are_digits(n);
        assert(text[0] == MINUS);
        assert(s.subrange(at + 1, at + k) == s.subrange(at, at + k).subrange(1, k));
        assert(text.subrange(1, k) == digits(n));
        lemma_scan_digits_of(s, at + 1, n);
        assert(scan_digits(s, at + k, n) == (n, at + k));
    } else {
        let n = v as nat;
        lemma_digits_are_digits(n);
        assert(is_digit(text[0]));
        assert(s[at] != MINUS);
        lemma_scan_digits_of(s, at, n);
        assert(scan_digits(s, at + k, n) == (n, at + k));
    }
}

/// Appends the digits of `n` to `out`.
fn push_digits(out: &mut Vec<u8>, n: u64)
    ensures
        final(out)@ == old(out)@ + digits(n as nat),
    decreases n,
{
    if n >= 10 {
        push_digits(out, n / 10);
    }
    let digit: u8 = (n % 10) as u8;
    out.push(ZERO + digit);
    proof {
        if n >= 10 {
            assert(final(out)@ == old(out)@ + digits(n as nat));
        } else {
            assert(final(out)@ == old(out)@ + digits(n as nat));
        }
    }
}

/// Appends the decimal notation of `v` to `out`.
pub fn push_decimal(out: &mut Vec<u8>, v: i64)
    ensures
        final(out)@ == old(out)@ + decimal(v as int),
{
    if v < 0 {
        out.push(MINUS);
        let magnitude: u64 = (0 - (v as i128)) as u64;
        push_digits(out, magnitude);
        assert(final(out)@ == old(out)@ + (seq![MINUS] + digits((-v) as nat)));
    } else {
        push_digits(out, v as u64);
    }
}

/// Reads a decimal number at position `at` of `bytes`.
pub fn read_decimal(bytes: &[u8], at: usize) -> (r: Option<(i64, usize)>)
    ensures
        match r {
            Some((v, end)) => scan_decimal(bytes@, at as int) == Some((v, end as int)) && end
                <= bytes@.len(),
            None => scan_decimal(bytes@, at as int) is None,
        },
{
    let negative = at < bytes.len() && bytes[at] == MINUS;
    let start: usize = if negative { at + 1 } else { at };
    let mut at_digit: usize = start;
    let mut magnitude: u128 = 0;
    let ghost mut read: nat = 0;
    while at_digit < bytes.len() && bytes[at_digit] >= 0x30 && bytes[at_digit] <= 0x39
        invariant
            start <= at_digit,
            at_digit <= bytes@.len() || at_digit == start,
            scan_digits(bytes@, at_digit as int, read) == scan_digits(bytes@, start as int, 0),
            read <= 0x8000_0000_0000_0000 ==> magnitude == read,
            read > 0x8000_0000_0000_0000 ==> magnitude == 0x8000_0000_0000_0001,
            at_digit == start ==> read == 0,
        decreases bytes@.len() - at_digit,
    {
        let digit: u128 = (bytes[at_digit] - 0x30) as u128;
        proof {
            read = read * 10 + (bytes@[at_digit as int] - 0x30) as nat;
        }
        if magnitude <= 0x8000_0000_0000_0000 {
            magnitude = magnitude * 10 + digit;
            if magnitude > 0x8000_0000_0000_0000 {
                magnitude = 0x8000_0000_0000_0001;
            }
        }
        at_digit = at_digit + 1;
    }
    if at_digit == start {
        None
    } else if negative {
        if magnitude <= 0x8000_0000_0000_0000 {
            Some(((0 - (magnitude as i128)) as i64, at_digit))
        } else {
            None
        }
    } else {
        if magnitude < 0x8000_0000_0000_0000 {
            Some((magnitude as i64, at_digit))
        } else {
            None
        }
    }
}

} // verus!
