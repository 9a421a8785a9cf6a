//! String contents between the quotes of a JSON string, in the one form this
//! library writes: a quote, a backslash and the control bytes are escaped,
//! every other byte stands for itself.

use vstd::prelude::*;

verus! {

/// The byte `"`.
pub const QUOTE: u8 = 0x22;

/// The byte `\`.
pub const BACKSLASH: u8 = 0x5c;

/// The lower-case hexadecimal digit for `n < 16`.
pub open spec fn hex_digit(n: u8) -> u8 {
    if n < 10 {
        (0x30 + n) as u8
    } else {
        (0x57 + n) as u8
    }
}

/// The value of a hexadecimal digit, upper or lower case.
pub open spec fn hex_value(b: u8) -> Option<u8> {
    if 0x30 <= b <= 0x39 {
        Some((b - 0x30) as u8)
    } else if 0x61 <= b <= 0x66 {
        Some((b - 0x57) as u8)
    } else if 0x41 <= b <= 0x46 {
        Some((b - 0x37) as u8)
    } else {
        None
    }
}

/// The letter that stands behind the backslash in the two-byte escape of
/// `b`, for the bytes that have one.
pub open spec fn short_escape(b: u8) -> Option<u8> {
    if b == QUOTE {
        Some(QUOTE)
    } else if b == BACKSLASH {
        Some(BACKSLASH)
    } else if b == 0x08 {
        Some(0x62u8)
    } else if b == 0x09 {
        Some(0x74u8)
    } else if b == 0x0a {
        Some(0x6eu8)
    } else if b == 0x0c {
        Some(0x66u8)
    } else if b == 0x0d {
        Some(0x72u8)
    } else {
        None
    }
}

/// The byte that a two-byte escape with `letter` behind the backslash
/// stands for.
pub open spec fn short_unescape(letter: u8) -> Option<u8> {
    if letter == QUOTE {
        Some(QUOTE)
    } else if letter == BACKSLASH {
        Some(BACKSLASH)
    } else if letter == 0x62 {
        Some(0x08u8)
    } else if letter == 0x74 {
        Some(0x09u8)
    } else if letter == 0x6e {
        Some(0x0au8)
    } else if letter == 0x66 {
        Some(0x0cu8)
    } else if letter == 0x72 {
        Some(0x0du8)
    } else {
        None
    }
}

/// How one byte is written inside a JSON string: `\"`, `\\`, `\b`, `\t`,
/// `\n`, `\f`, `\r`, `\u00XX` for the other bytes below 0x20, and the byte
/// itself otherwise.
pub open spec fn escape_byte(b: u8) -> Seq<u8> {
    match short_escape(b) {
        Some(letter) => seq![BACKSLASH, letter],
        None => if b < 0x20 {
            seq![BACKSLASH, 0x75u8, 0x30u8, 0x30u8, hex_digit(b / 16), hex_digit(b % 16)]
        } else {
            seq![b]
        },
    }
}

/// How a byte string is written inside a JSON string.
pub open spec fn escaped(raw: Seq<u8>) -> Seq<u8>
    decreases raw.len(),
{
    if raw.len() == 0 {
        Seq::<u8>::empty()
    } else {
        escape_byte(raw[0]) + escaped(raw.drop_first())
    }
}

/// Reads string contents from position `at` up to the closing quote,
/// undoing escapes and adding the bytes to `acc`; gives the bytes and the
/// position of the closing quote, or `None` where the text ends first or an
/// escape is unknown.
pub open spec fn scan_string(s: Seq<u8>, at: int, acc: Seq<u8>) -> Option<(Seq<u8>, int)>
    decreases s.len() - at,
{
    if !(0 <= at < s.len()) {
        None
    } else if s[at] == QUOTE {
        Some((acc, at))
    } else if s[at] != BACKSLASH {
        scan_string(s, at + 1, acc.push(s[at]))
    } else if at + 1 >= s.len() {
        None
    } else {
        match short_unescape(s[at + 1]) {
            Some(b) => scan_string(s, at + 2, acc.push(b)),
            None => if s[at + 1] == 0x75 && at + 5 < s.len() && s[at + 2] == 0x30 && s[at + 3]
                == 0x30 {
                match (hex_value(s[at + 4]), hex_value(s[at + 5])) {
                    (Some(high), Some(low)) => scan_string(
                        s,
                        at + 6,
                        acc.push((high * 16 + low) as u8),
                    ),
                    _ => None,
                }
            } else {
                None
            },
        }
    }
}

/// Escaping distributes over adding a byte at the end.
pub proof fn lemma_escaped_push(raw: Seq<u8>, b: u8)
    ensures
        escaped(raw.push(b)) == escaped(raw) + escape_byte(b),
    decreases raw.len(),
{
    if raw.len() == 0 {
        assert(raw.push(b).drop_first() == Seq::<u8>::empty());
        assert(escaped(Seq::<u8>::empty()) == Seq::<u8>::empty());
        assert(escaped(raw) == Seq::<u8>::empty());
        assert(escaped(raw.push(b)) == escape_byte(b) + Seq::<u8>::empty());
    } else {
        assert(raw.push(b).drop_first() == raw.drop_first().push(b));
        lemma_escaped_push(raw.drop_first(), b);
        assert(escaped(raw.push(b)) == escape_byte(raw[0]) + (escaped(raw.drop_first())
            + escape_byte(b)));
    }
}

/// Where the escaped form of `raw` stands at `at` with a quote behind it,
/// `scan_string` reads `raw` back and stops at that quote.
pub proof fn lemma_scan_string_of(s: Seq<u8>, at: int, acc: Seq<u8>, raw: Seq<u8>)
    requires
        0 <= at,
        at + escaped(raw).len() < s.len(),
        s.subrange(at, at + escaped(raw).len()) == escaped(raw),
        s[at + escaped(raw).len()] == QUOTE,
    ensures
        scan_string(s, at, acc) == Some((acc + raw, at + escaped(raw).len())),
    decreases raw.len(),
{
    let text = escaped(raw);
    let k = text.len() as int;
    if raw.len() == 0 {
        assert(acc + raw == acc);
    } else {
        let first = raw[0];
        let head = escape_byte(first);
        let rest = raw.drop_first();
        let h = head.len() as int;
        assert(text == head + escaped(rest));
        assert forall|i: int| 0 <= i < h implies s[at + i] == head[i] by {
            assert(s[at + i] == s.subrange(at, at + k)[i]);
        }
        assert(s.subrange(at + h, at + h + escaped(rest).len()) == escaped(rest)) by {
            assert(s.subrange(at + h, at + k) == s.subrange(at, at + k).subrange(h, k));
            assert(text.subrange(h, k) == escaped(rest));
        }
        lemma_scan_string_of(s, at + h, acc.push(first), rest);
        assert(acc.push(first) + rest == acc + raw);
        match short_escape(first) {
            Some(letter) => {
                assert(s[at] == head[0]);
                assert(s[at + 1] == head[1]);
                assert(short_unescape(letter) == Some(first));
            },
            None => {
                if first < 0x20 {
                    assert(s[at] == head[0]);
                    assert(s[at + 1] == head[1]);
                    assert(s[at + 2] == head[2]);
                    assert(s[at + 3] == head[3]);
                    assert(s[at + 4] == head[4]);
                    assert(s[at + 5] == head[5]);
                    assert(hex_value(hex_digit(first / 16)) == Some((first / 16) as u8));
                    assert(hex_value(hex_digit(first % 16)) == Some((first % 16) as u8));
                    assert(((first / 16) * 16 + first % 16) as u8 == first);
                } else {
                    assert(s[at] == head[0]);
                }
            },
        }
    }
}

/// Appends the escaped form of `raw` to `out`.
pub fn push_escaped(out: &mut Vec<u8>, raw: &[u8])
    ensures
        final(out)@ == old(out)@ + escaped(raw@),
{
    let mut i: usize = 0;
    assert(raw@.take(0) == Seq::<u8>::empty());
    while i < raw.len()
        invariant
            i <= raw@.len(),
            out@ == old(out)@ + escaped(raw@.take(i as int)),
        decreases raw@.len() - i,
    {
        let b: u8 = raw[i];
        proof {
            lemma_escaped_push(raw@.take(i as int), b);
            assert(raw@.take(i + 1) == raw@.take(i as int).push(b));
        }
        let ghost before = out@;
        if b == QUOTE || b == BACKSLASH {
            out.push(BACKSLASH);
            out.push(b);
        } else if b == 0x08 {
            out.push(BACKSLASH);
            out.push(0x62);
        } else if b == 0x09 {
            out.push(BACKSLASH);
            out.push(0x74);
        } else if b == 0x0a {
            out.push(BACKSLASH);
            out.push(0x6e);
        } else if b == 0x0c {
            out.push(BACKSLASH);
            out.push(0x66);
        } else if b == 0x0d {
            out.push(BACKSLASH);
            out.push(0x72);
        } else if b < 0x20 {
            out.push(BACKSLASH);
            out.push(0x75);
            out.push(0x30);
            out.push(0x30);
            out.push(lower_hex(b / 16));
            out.push(lower_hex(b % 16));
        } else {
            out.push(b);
        }
        assert(out@ == before + escape_byte(b));
        i = i + 1;
    }
    assert(raw@.take(raw@.len() as int) == raw@);
}

/// The lower-case hexadecimal digit for `n`.
fn lower_hex(n: u8) -> (digit: u8)
    requires
        n < 16,
    ensures
        digit == hex_digit(n),
{
    if n < 10 {
        0x30 + n
    } else {
        0x57 + n
    }
}

/// The value of the hexadecimal digit `b`.
fn hex_digit_value(b: u8) -> (value: Option<u8>)
    ensures
        value == hex_value(b),
{
    if 0x30 <= b && b <= 0x39 {
        Some(b - 0x30)
    } else if 0x61 <= b && b <= 0x66 {
        Some(b - 0x57)
    } else if 0x41 <= b && b <= 0x46 {
        Some(b - 0x37)
    } else {
        None
    }
}

/// The byte behind a two-byte escape with `letter` after the backslash.
fn unescape_letter(letter: u8) -> (value: Option<u8>)
    ensures
        value == short_unescape(letter),
{
    if letter == QUOTE {
        Some(QUOTE)
    } else if letter == BACKSLASH {
        Some(BACKSLASH)
    } else if letter == 0x62 {
        Some(0x08)
    } else if letter == 0x74 {
        Some(0x09)
    } else if letter == 0x6e {
        Some(0x0a)
    } else if letter == 0x66 {
        Some(0x0c)
    } else if letter == 0x72 {
        Some(0x0d)
    } else {
        None
    }
}

/// Reads string contents at position `at` of `bytes` up to the closing
/// quote.
pub fn read_string(bytes: &[u8], at: usize) -> (r: Option<(Vec<u8>, usize)>)
    ensures
        match r {
            Some((raw, end)) => scan_string(bytes@, at as int, Seq::<u8>::empty()) == Some(
                (raw@, end as int),
            ) && end < bytes@.len(),
            None => scan_string(bytes@, at as int, Seq::<u8>::empty()) is None,
        },
{
    let mut raw: Vec<u8> = Vec::new();
    let mut i: usize = at;
    let n: usize = bytes.len();
    loop
        invariant
            n == bytes@.len(),
            at <= i,
            scan_string(bytes@, i as int, raw@) == scan_string(
                bytes@,
                at as int,
                Seq::<u8>::empty(),
            ),
        decreases n - i,
    {
        if i >= n {
            return None;
        }
        let b: u8 = bytes[i];
        if b == QUOTE {
            return Some((raw, i));
        }
        if b != BACKSLASH {
            raw.push(b);
            i = i + 1;
        } else {
            if n - i < 2 {
                return None;
            }
            let letter: u8 = bytes[i + 1];
            match unescape_letter(letter) {
                Some(value) => {
                    raw.push(value);
                    i = i + 2;
                },
                None => {
                    if letter != 0x75 || n - i < 6 || bytes[i + 2] != 0x30 || bytes[i + 3]
                        != 0x30 {
                        return None;
                    }
                    let high = hex_digit_value(bytes[i + 4]);
                    let low = hex_digit_value(bytes[i + 5]);
                    match (high, low) {
                        (Some(h), Some(l)) => {
                            raw.push(h * 16 + l);
                            i = i + 6;
                        },
                        _ => {
                            return None;
                        },
                    }
                },
            }
        }
    }
}

} // verus!
