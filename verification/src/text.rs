//! Strings and the bytes that encode them.

use crate::signer::constant_time_eq;
use vstd::prelude::*;
use vstd::string::StrSliceExecFns;
use vstd::string::StringSliceAdditionalSpecFns;
use vstd::utf8::*;

verus! {

/// Every byte is below 0x80.
pub open spec fn is_ascii_bytes(bytes: Seq<u8>) -> bool {
    forall|i: int| 0 <= i < bytes.len() ==> #[trigger] bytes[i] < 0x80
}

/// Calls `String::from_utf8`.
///
/// Trusted: std returns an error exactly where the bytes are no valid UTF-8,
/// and otherwise the string whose UTF-8 encoding is those bytes.
#[verifier::external_body]
pub(crate) fn string_from_utf8(bytes: Vec<u8>) -> (r: Option<String>)
    ensures
        match r {
            Some(s) => encode_utf8(s@) == bytes@,
            None => !valid_utf8(bytes@),
        },
{
    String::from_utf8(bytes).ok()
}

/// The characters that ASCII bytes stand for.
pub open spec fn ascii_chars(bytes: Seq<u8>) -> Seq<char> {
    Seq::new(bytes.len(), |i: int| bytes[i] as char)
}

/// ASCII bytes are the UTF-8 encoding of the characters they stand for.
pub proof fn lemma_ascii_is_utf8(bytes: Seq<u8>)
    requires
        is_ascii_bytes(bytes),
    ensures
        valid_utf8(bytes),
        encode_utf8(ascii_chars(bytes)) == bytes,
{
    let chars = ascii_chars(bytes);
    assert(is_ascii_chars(chars)) by {
        assert forall|i: int| 0 <= i < chars.len() implies '\0' <= #[trigger] chars[i]
            <= '\u{7f}' by {
            assert(bytes[i] < 0x80);
        }
    }
    is_ascii_chars_encode_utf8(chars);
    assert(encode_utf8(chars) =~= bytes) by {
        assert forall|i: int| 0 <= i < bytes.len() implies encode_utf8(chars)[i] == bytes[i] by {
            assert(chars[i] as u8 == encode_utf8(chars)[i]);
            assert(bytes[i] < 0x80);
        }
    }
    encode_utf8_valid_utf8(chars);
}

/// Two strings with the same UTF-8 encoding are the same string.
pub proof fn lemma_utf8_injective(a: Seq<char>, b: Seq<char>)
    requires
        encode_utf8(a) == encode_utf8(b),
    ensures
        a == b,
{
    encode_utf8_decode_utf8(a);
    encode_utf8_decode_utf8(b);
}

/// The string made of the given ASCII bytes.
pub fn ascii_string(bytes: Vec<u8>) -> (s: String)
    requires
        is_ascii_bytes(bytes@),
    ensures
        encode_utf8(s@) == bytes@,
        s@ == ascii_chars(bytes@),
{
    let ghost given = bytes@;
    proof {
        lemma_ascii_is_utf8(given);
    }
    match string_from_utf8(bytes) {
        Some(s) => {
            proof {
                lemma_utf8_injective(s@, ascii_chars(given));
            }
            s
        },
        // Not reached: ASCII bytes are valid UTF-8.
        None => String::new(),
    }
}

/// Tells whether two strings are the same, visiting every byte once the
/// lengths agree.
pub fn same_text(a: &str, b: &str) -> (same: bool)
    ensures
        same == (a@ == b@),
{
    let same = constant_time_eq(a.as_bytes(), b.as_bytes());
    proof {
        if same {
            lemma_utf8_injective(a@, b@);
        }
    }
    same
}

/// A white-space character, as Unicode defines it by the property
/// `White_Space`.
pub open spec fn is_white_space(c: char) -> bool {
    let u = c as u32;
    ||| 0x09 <= u <= 0x0d
    ||| u == 0x20
    ||| u == 0x85
    ||| u == 0xa0
    ||| u == 0x1680
    ||| 0x2000 <= u <= 0x200a
    ||| u == 0x2028
    ||| u == 0x2029
    ||| u == 0x202f
    ||| u == 0x205f
    ||| u == 0x3000
}

/// `s` without the white space at its two ends.
pub open spec fn trimmed(s: Seq<char>) -> Seq<char>
    decreases s.len(),
{
    if s.len() > 0 && is_white_space(s[0]) {
        trimmed(s.drop_first())
    } else if s.len() > 0 && is_white_space(s.last()) {
        trimmed(s.drop_last())
    } else {
        s
    }
}

/// `s` holds nothing but white space.
pub open spec fn blank(s: Seq<char>) -> bool {
    forall|i: int| 0 <= i < s.len() ==> is_white_space(#[trigger] s[i])
}

/// Tells whether `c` is a white-space character.
pub fn is_whitespace(c: char) -> (space: bool)
    ensures
        space == is_white_space(c),
{
    let u: u32 = c as u32;
    (0x09 <= u && u <= 0x0d) || u == 0x20 || u == 0x85 || u == 0xa0 || u == 0x1680 || (0x2000 <= u
        && u <= 0x200a) || u == 0x2028 || u == 0x2029 || u == 0x202f || u == 0x205f || u == 0x3000
}

/// The characters of `s`.
pub fn chars_of(s: &str) -> (chars: Vec<char>)
    ensures
        chars@ == s@,
{
    let mut chars: Vec<char> = Vec::new();
    for c in it: s.chars()
        invariant
            chars@ == it.seq().take(it.index() as int),
            it.seq() == s@,
    {
        chars.push(c);
        assert(it.seq().take(it.index() + 1) == it.seq().take(it.index() as int).push(c));
    }
    chars
}

/// Where in `chars`, from `from` on, the text without the white space
/// around it stands.
fn trim_from(chars: &Vec<char>, from: usize) -> (range: (usize, usize))
    requires
        from <= chars@.len(),
    ensures
        from <= range.0 <= range.1 <= chars@.len(),
        chars@.subrange(range.0 as int, range.1 as int) == trimmed(chars@.skip(from as int)),
{
    let n: usize = chars.len();
    let ghost s = chars@;
    let mut start: usize = from;
    assert(s.skip(from as int) == s.subrange(from as int, n as int));
    while start < n && is_whitespace(chars[start])
        invariant
            n == s.len(),
            s == chars@,
            from <= start <= n,
            trimmed(s.subrange(from as int, n as int)) == trimmed(s.subrange(start as int, n as int)),
        decreases n - start,
    {
        assert(s.subrange(start as int, n as int).drop_first() == s.subrange(start + 1, n as int));
        start = start + 1;
    }
    let mut end: usize = n;
    while end > start && is_whitespace(chars[end - 1])
        invariant
            n == s.len(),
            s == chars@,
            start <= end <= n,
            start == n || !is_white_space(s[start as int]),
            trimmed(s.subrange(from as int, n as int)) == trimmed(s.subrange(start as int, end as int)),
        decreases end - start,
    {
        assert(s.subrange(start as int, end as int).drop_last() == s.subrange(
            start as int,
            end - 1,
        ));
        end = end - 1;
    }
    (start, end)
}

/// What is left of `s` behind position `from` once the white space around
/// it is taken away.
pub fn trimmed_tail(s: &str, from: usize) -> (rest: &str)
    requires
        from <= s@.len(),
    ensures
        rest@ == trimmed(s@.skip(from as int)),
{
    let chars = chars_of(s);
    let (start, end) = trim_from(&chars, from);
    s.substring_char(start, end)
}

/// Tells whether `s` holds nothing but white space.
pub fn is_blank(s: &str) -> (empty: bool)
    ensures
        empty == blank(s@),
        empty == (trimmed(s@).len() == 0),
{
    let chars = chars_of(s);
    proof {
        lemma_trimmed_blank(s@);
    }
    let mut i: usize = 0;
    while i < chars.len()
        invariant
            chars@ == s@,
            i <= chars@.len(),
            blank(s@) == (trimmed(s@).len() == 0),
            forall|j: int| 0 <= j < i ==> is_white_space(#[trigger] s@[j]),
        decreases chars@.len() - i,
    {
        if !is_whitespace(chars[i]) {
            assert(!is_white_space(s@[i as int]));
            return false;
        }
        i = i + 1;
    }
    true
}

/// Trimming leaves nothing exactly of the texts that are blank.
pub proof fn lemma_trimmed_blank(s: Seq<char>)
    ensures
        blank(s) == (trimmed(s).len() == 0),
    decreases s.len(),
{
    if s.len() > 0 && is_white_space(s[0]) {
        let tail = s.drop_first();
        lemma_trimmed_blank(tail);
        if blank(tail) {
            assert forall|i: int| 0 <= i < s.len() implies is_white_space(#[trigger] s[i]) by {
                if i > 0 {
                    assert(s[i] == tail[i - 1]);
                }
            }
        } else {
            let j = choose|j: int| 0 <= j < tail.len() && !is_white_space(#[trigger] tail[j]);
            assert(s[j + 1] == tail[j]);
        }
    } else if s.len() > 0 && is_white_space(s.last()) {
        let front = s.drop_last();
        lemma_trimmed_blank(front);
        assert(!is_white_space(s[0]));
        assert(front[0] == s[0]);
    } else if s.len() > 0 {
        assert(!is_white_space(s[0]));
    }
}

} // verus!
