//! Base64 in the URL-safe alphabet without padding, as computed by the
//! `base64` crate.

use base64::Engine;
use vstd::prelude::*;

verus! {

/// The text that `base64::engine::general_purpose::URL_SAFE_NO_PAD.encode`
/// returns for `data`, as ASCII bytes.
pub uninterp spec fn base64url(data: Seq<u8>) -> Seq<u8>;

/// What `base64::engine::general_purpose::URL_SAFE_NO_PAD.decode` returns for
/// `text`: the decoded bytes, or `None` where it reports an error.
pub uninterp spec fn base64url_decoded(text: Seq<u8>) -> Option<Seq<u8>>;

/// A byte of the URL-safe alphabet: `A`-`Z`, `a`-`z`, `0`-`9`, `-` or `_`.
pub open spec fn is_alphabet_byte(b: u8) -> bool {
    ||| 0x41 <= b <= 0x5a
    ||| 0x61 <= b <= 0x7a
    ||| 0x30 <= b <= 0x39
    ||| b == 0x2d
    ||| b == 0x5f
}

/// Every byte of `text` belongs to the URL-safe alphabet.
pub open spec fn is_alphabet_text(text: Seq<u8>) -> bool {
    forall|i: int| 0 <= i < text.len() ==> is_alphabet_byte(#[trigger] text[i])
}

/// The length of the text for `n` bytes: four symbols for every three
/// bytes, and two or three symbols for the one or two bytes left over.
pub open spec fn encoded_len(n: nat) -> nat {
    (4 * n + 2) / 3
}

/// Calls `URL_SAFE_NO_PAD.encode`.
///
/// Trusted: the result is the crate's encoding of `data`; it is made of
/// alphabet symbols only (the engine writes no padding); its length is
/// what the crate's `encoded_len` gives without padding; and the crate's
/// decoder maps it back to `data`. The crate panics only where the encoded
/// length overflows `usize`, which no slice can reach: a slice holds at most
/// `isize::MAX` bytes.
#[verifier::external_body]
pub(crate) fn encode(data: &[u8]) -> (text: Vec<u8>)
    ensures
        text@ == base64url(data@),
        is_alphabet_text(text@),
        text@.len() == encoded_len(data@.len()),
        base64url_decoded(text@) == Some(data@),
{
    base64::engine::general_purpose::URL_SAFE_NO_PAD.encode(data).into_bytes()
}

/// Calls `URL_SAFE_NO_PAD.decode`.
///
/// Trusted: the result is the crate's decoding of `text`, and the decoder is
/// canonical: it accepts a text only if that text is the encoding of the
/// bytes it returns (padding, symbols outside the alphabet, a dangling symbol
/// and set trailing bits are all errors).
#[verifier::external_body]
pub(crate) fn decode(text: &[u8]) -> (data: Option<Vec<u8>>)
    ensures
        match data {
            Some(bytes) => base64url_decoded(text@) == Some(bytes@) && base64url(bytes@) == text@,
            None => base64url_decoded(text@) is None,
        },
{
    base64::engine::general_purpose::URL_SAFE_NO_PAD.decode(text).ok()
}

} // verus!
