//! The claims that a token carries, how they are written and how they are
//! read.
//!
//! Claims are written as a JSON object with the members `id`, `iat`, `exp`
//! and `jti`, in that order, with no white space. That text is what gets
//! signed, so there is exactly one written form for each value.
//!
//! Reading is wider than writing. A text that is the written form of some
//! claims is read by the code of this module, which is proved to give
//! those claims back. Any other text is handed to `serde_json`: every JSON
//! object with integer members `id`, `iat`, `exp` and a string member
//! `jti` holds claims, whatever its white space, the order of its members,
//! its escapes and its further members.

use crate::bytes::{append, occurs_at, starts_with_at};
use crate::decimal::{
    decimal, is_digit, lemma_digits_are_digits, lemma_scan_decimal_of, push_decimal,
    read_decimal, scan_decimal,
};
use crate::json::{json_integer, json_integer_member, json_string, json_string_member};
use crate::escape::{
    escaped, lemma_scan_string_of, push_escaped, read_string, scan_string, QUOTE,
};
use crate::signer::constant_time_eq;
use crate::text::{lemma_utf8_injective, string_from_utf8};
use vstd::prelude::*;
use vstd::utf8::*;

verus! {

/// The payload of a token.
#[derive(Debug, Clone, PartialEq, Eq)]
pub struct Claims {
    /// The identity the token was issued for.
    pub subject_id: i64,
    /// When the token was issued, in seconds since the Unix epoch.
    pub issued_at: i64,
    /// The last second at which the token is accepted.
    pub expires_at: i64,
    /// A random string that makes each issued token unique.
    pub token_id: String,
}

/// The mathematical value of a [`Claims`].
pub struct ClaimsView {
    pub subject_id: i64,
    pub issued_at: i64,
    pub expires_at: i64,
    pub token_id: Seq<char>,
}

impl View for Claims {
    type V = ClaimsView;

    open spec fn view(&self) -> ClaimsView {
        ClaimsView {
            subject_id: self.subject_id,
            issued_at: self.issued_at,
            expires_at: self.expires_at,
            token_id: self.token_id@,
        }
    }
}

impl ClaimsView {
    /// A token expires after it was issued.
    pub open spec fn well_formed(self) -> bool {
        self.expires_at > self.issued_at
    }
}

/// The text `{"id":`.
pub open spec fn member_id() -> Seq<u8> {
    seq!['{' as u8, '"' as u8, 'i' as u8, 'd' as u8, '"' as u8, ':' as u8]
}

/// The text `,"iat":`.
pub open spec fn member_iat() -> Seq<u8> {
    seq![',' as u8, '"' as u8, 'i' as u8, 'a' as u8, 't' as u8, '"' as u8, ':' as u8]
}

/// The text `,"exp":`.
pub open spec fn member_exp() -> Seq<u8> {
    seq![',' as u8, '"' as u8, 'e' as u8, 'x' as u8, 'p' as u8, '"' as u8, ':' as u8]
}

/// The text `,"jti":"`.
pub open spec fn member_jti() -> Seq<u8> {
    seq![',' as u8, '"' as u8, 'j' as u8, 't' as u8, 'i' as u8, '"' as u8, ':' as u8, '"' as u8]
}

/// The text `"}`.
pub open spec fn closing() -> Seq<u8> {
    seq!['"' as u8, '}' as u8]
}

/// The written form of claims:
/// `{"id":<subject_id>,"iat":<issued_at>,"exp":<expires_at>,"jti":"<token_id>"}`.
pub open spec fn claims_json(c: ClaimsView) -> Seq<u8> {
    member_id() + decimal(c.subject_id as int) + member_iat() + decimal(c.issued_at as int)
        + member_exp() + decimal(c.expires_at as int) + member_jti() + escaped(
        encode_utf8(c.token_id),
    ) + closing()
}

/// The claims that `text` is the written form of, if there are any.
pub open spec fn written_claims(text: Seq<u8>) -> Option<ClaimsView> {
    if exists|c: ClaimsView| claims_json(c) == text {
        Some(choose|c: ClaimsView| claims_json(c) == text)
    } else {
        None
    }
}

/// The claims made of four members of an object, where all four are
/// there.
pub open spec fn claims_of_members(
    subject_id: Option<i64>,
    issued_at: Option<i64>,
    expires_at: Option<i64>,
    token_id: Option<Seq<char>>,
) -> Option<ClaimsView> {
    match (subject_id, issued_at, expires_at, token_id) {
        (Some(subject_id), Some(issued_at), Some(expires_at), Some(token_id)) => Some(
            ClaimsView { subject_id, issued_at, expires_at, token_id },
        ),
        _ => None,
    }
}

/// The claims that the JSON text `text` holds as `serde_json` reads it:
/// the integer members `id`, `iat` and `exp` and the string member `jti`
/// of an object.
pub open spec fn json_claims(text: Seq<u8>) -> Option<ClaimsView> {
    claims_of_members(
        json_integer_member(text, "id"@),
        json_integer_member(text, "iat"@),
        json_integer_member(text, "exp"@),
        json_string_member(text, "jti"@),
    )
}

/// The claims that `text` holds: those it is the written form of, and for
/// any other text those that `serde_json` reads from it.
pub open spec fn claims_of_json(text: Seq<u8>) -> Option<ClaimsView> {
    match written_claims(text) {
        Some(c) => Some(c),
        None => json_claims(text),
    }
}

/// Reads the four members of a claims object in their fixed order; the
/// token id comes back as the bytes between its quotes, unescaped.
pub open spec fn scan_claims(s: Seq<u8>) -> Option<(i64, i64, i64, Seq<u8>)> {
    if !occurs_at(s, 0, member_id()) {
        None
    } else {
        match scan_decimal(s, 6) {
            None => None,
            Some((subject_id, iat_at)) => if !occurs_at(s, iat_at, member_iat()) {
                None
            } else {
                match scan_decimal(s, iat_at + 7) {
                    None => None,
                    Some((issued_at, exp_at)) => if !occurs_at(s, exp_at, member_exp()) {
                        None
                    } else {
                        match scan_decimal(s, exp_at + 7) {
                            None => None,
                            Some((expires_at, jti_at)) => if !occurs_at(s, jti_at, member_jti()) {
                                None
                            } else {
                                match scan_string(s, jti_at + 8, Seq::<u8>::empty()) {
                                    None => None,
                                    Some((raw, end_at)) => if occurs_at(s, end_at, closing()) && end_at + 2
                                        == s.len() {
                                        Some((subject_id, issued_at, expires_at, raw))
                                    } else {
                                        None
                                    },
                                }
                            },
                        }
                    },
                }
            },
        }
    }
}

/// The decimal notation of a number is not empty.
proof fn lemma_decimal_not_empty(v: i64)
    ensures
        decimal(v as int).len() >= 1,
{
    if v < 0 {
        lemma_digits_are_digits((-(v as int)) as nat);
    } else {
        lemma_digits_are_digits(v as nat);
    }
}

/// A piece stands in a text behind what was written before it, and what
/// was written after it starts right behind the piece.
proof fn lemma_piece(whole: Seq<u8>, before: Seq<u8>, piece: Seq<u8>, after: Seq<u8>)
    requires
        whole == before + piece + after,
    ensures
        occurs_at(whole, before.len() as int, piece),
        whole.len() == before.len() + piece.len() + after.len(),
        after.len() > 0 ==> whole[(before.len() + piece.len()) as int] == after[0],
{
    assert(whole.subrange(before.len() as int, (before.len() + piece.len()) as int) == piece);
}

/// Where each of nine pieces stands in their concatenation.
proof fn lemma_nine_pieces(
    m0: Seq<u8>,
    d1: Seq<u8>,
    m1: Seq<u8>,
    d2: Seq<u8>,
    m2: Seq<u8>,
    d3: Seq<u8>,
    m3: Seq<u8>,
    e: Seq<u8>,
    m4: Seq<u8>,
)
    requires
        m1.len() > 0,
        m2.len() > 0,
        m3.len() > 0,
        m4.len() > 0,
    ensures
        ({
            let s = m0 + d1 + m1 + d2 + m2 + d3 + m3 + e + m4;
            let a1 = m0.len() as int;
            let a2 = a1 + d1.len();
            let a3 = a2 + m1.len();
            let a4 = a3 + d2.len();
            let a5 = a4 + m2.len();
            let a6 = a5 + d3.len();
            let a7 = a6 + m3.len();
            let a8 = a7 + e.len();
            &&& s.len() == a8 + m4.len()
            &&& occurs_at(s, 0, m0)
            &&& occurs_at(s, a1, d1)
            &&& occurs_at(s, a2, m1)
            &&& occurs_at(s, a3, d2)
            &&& occurs_at(s, a4, m2)
            &&& occurs_at(s, a5, d3)
            &&& occurs_at(s, a6, m3)
            &&& occurs_at(s, a7, e)
            &&& occurs_at(s, a8, m4)
            &&& s[a2] == m1[0]
            &&& s[a4] == m2[0]
            &&& s[a6] == m3[0]
            &&& s[a8] == m4[0]
        }),
{
    let s = m0 + d1 + m1 + d2 + m2 + d3 + m3 + e + m4;
    let t8 = m4;
    let t7 = e + t8;
    let t6 = m3 + t7;
    let t5 = d3 + t6;
    let t4 = m2 + t5;
    let t3 = d2 + t4;
    let t2 = m1 + t3;
    let t1 = d1 + t2;
    let b1 = m0;
    let b2 = b1 + d1;
    let b3 = b2 + m1;
    let b4 = b3 + d2;
    let b5 = b4 + m2;
    let b6 = b5 + d3;
    let b7 = b6 + m3;
    let b8 = b7 + e;
    let none = Seq::<u8>::empty();
    lemma_concat_empty(b8 + m4);
    lemma_piece(s, b8, m4, none);
    lemma_piece(s, b7, e, t8);
    lemma_concat_assoc(b7, e, t8);
    lemma_piece(s, b6, m3, t7);
    lemma_concat_assoc(b6, m3, t7);
    lemma_piece(s, b5, d3, t6);
    lemma_concat_assoc(b5, d3, t6);
    lemma_piece(s, b4, m2, t5);
    lemma_concat_assoc(b4, m2, t5);
    lemma_piece(s, b3, d2, t4);
    lemma_concat_assoc(b3, d2, t4);
    lemma_piece(s, b2, m1, t3);
    lemma_concat_assoc(b2, m1, t3);
    lemma_piece(s, b1, d1, t2);
    lemma_concat_assoc(b1, d1, t2);
    lemma_concat_empty(m0);
    lemma_piece(s, none, m0, t1);
    lemma_first_of_concat(m1, t3);
    lemma_first_of_concat(m2, t5);
    lemma_first_of_concat(m3, t7);
}

/// Concatenation is associative.
proof fn lemma_concat_assoc(a: Seq<u8>, b: Seq<u8>, c: Seq<u8>)
    ensures
        (a + b) + c == a + (b + c),
{
    assert((a + b) + c =~= a + (b + c));
}

/// The empty text is neutral on both sides.
proof fn lemma_concat_empty(a: Seq<u8>)
    ensures
        a + Seq::<u8>::empty() == a,
        Seq::<u8>::empty() + a == a,
{
    assert(a + Seq::<u8>::empty() =~= a);
    assert(Seq::<u8>::empty() + a =~= a);
}

/// A concatenation starts as its first part does.
proof fn lemma_first_of_concat(a: Seq<u8>, b: Seq<u8>)
    requires
        a.len() > 0,
    ensures
        (a + b).len() > 0,
        (a + b)[0] == a[0],
{
}

/// Reading the written form of claims gives the claims back.
pub proof fn lemma_scan_claims_of(c: ClaimsView)
    ensures
        scan_claims(claims_json(c)) == Some(
            (c.subject_id, c.issued_at, c.expires_at, encode_utf8(c.token_id)),
        ),
{
    let s = claims_json(c);
    let d1 = decimal(c.subject_id as int);
    let d2 = decimal(c.issued_at as int);
    let d3 = decimal(c.expires_at as int);
    let raw = encode_utf8(c.token_id);
    let e = escaped(raw);
    let a1 = 6int;
    let a2 = a1 + d1.len();
    let a3 = a2 + 7;
    let a4 = a3 + d2.len();
    let a5 = a4 + 7;
    let a6 = a5 + d3.len();
    let a7 = a6 + 8;
    let a8 = a7 + e.len();
    lemma_nine_pieces(member_id(), d1, member_iat(), d2, member_exp(), d3, member_jti(), e, closing());
    lemma_decimal_not_empty(c.subject_id);
    lemma_decimal_not_empty(c.issued_at);
    lemma_decimal_not_empty(c.expires_at);
    lemma_scan_decimal_of(s, a1, c.subject_id);
    lemma_scan_decimal_of(s, a3, c.issued_at);
    lemma_scan_decimal_of(s, a5, c.expires_at);
    lemma_scan_string_of(s, a7, Seq::<u8>::empty(), raw);
    assert(Seq::<u8>::empty() + raw == raw);
}

/// Different claims have different written forms.
pub proof fn lemma_claims_json_injective(a: ClaimsView, b: ClaimsView)
    requires
        claims_json(a) == claims_json(b),
    ensures
        a == b,
{
    lemma_scan_claims_of(a);
    lemma_scan_claims_of(b);
    lemma_utf8_injective(a.token_id, b.token_id);
}

/// The written form of `c` is the written form of `c` and of nothing else.
pub proof fn lemma_written_claims(c: ClaimsView)
    ensures
        written_claims(claims_json(c)) == Some(c),
{
    let other = choose|x: ClaimsView| claims_json(x) == claims_json(c);
    lemma_claims_json_injective(other, c);
}

/// Reading the written form of claims gives those claims back.
pub proof fn lemma_claims_of_json(c: ClaimsView)
    ensures
        claims_of_json(claims_json(c)) == Some(c),
{
    lemma_written_claims(c);
}

/// Writes claims in their written form.
pub fn write_claims(claims: &Claims) -> (text: Vec<u8>)
    ensures
        text@ == claims_json(claims@),
{
    let mut out: Vec<u8> = Vec::new();
    let open: [u8; 6] = ['{' as u8, '"' as u8, 'i' as u8, 'd' as u8, '"' as u8, ':' as u8];
    let iat: [u8; 7] = [',' as u8, '"' as u8, 'i' as u8, 'a' as u8, 't' as u8, '"' as u8, ':' as u8];
    let exp: [u8; 7] = [',' as u8, '"' as u8, 'e' as u8, 'x' as u8, 'p' as u8, '"' as u8, ':' as u8];
    let jti: [u8; 8] = [
        ',' as u8,
        '"' as u8,
        'j' as u8,
        't' as u8,
        'i' as u8,
        '"' as u8,
        ':' as u8,
        '"' as u8,
    ];
    let close: [u8; 2] = ['"' as u8, '}' as u8];
    assert(open@ == member_id());
    assert(iat@ == member_iat());
    assert(exp@ == member_exp());
    assert(jti@ == member_jti());
    assert(close@ == closing());
    append(&mut out, open.as_slice());
    push_decimal(&mut out, claims.subject_id);
    append(&mut out, iat.as_slice());
    push_decimal(&mut out, claims.issued_at);
    append(&mut out, exp.as_slice());
    push_decimal(&mut out, claims.expires_at);
    append(&mut out, jti.as_slice());
    push_escaped(&mut out, claims.token_id.as_str().as_bytes());
    append(&mut out, close.as_slice());
    assert(out@ == claims_json(claims@));
    out
}

/// Reads the members of a claims object.
fn read_members(bytes: &[u8]) -> (r: Option<(i64, i64, i64, Vec<u8>)>)
    ensures
        match r {
            Some((subject_id, issued_at, expires_at, raw)) => scan_claims(bytes@) == Some(
                (subject_id, issued_at, expires_at, raw@),
            ),
            None => scan_claims(bytes@) is None,
        },
{
    let open: [u8; 6] = ['{' as u8, '"' as u8, 'i' as u8, 'd' as u8, '"' as u8, ':' as u8];
    let iat: [u8; 7] = [',' as u8, '"' as u8, 'i' as u8, 'a' as u8, 't' as u8, '"' as u8, ':' as u8];
    let exp: [u8; 7] = [',' as u8, '"' as u8, 'e' as u8, 'x' as u8, 'p' as u8, '"' as u8, ':' as u8];
    let jti: [u8; 8] = [
        ',' as u8,
        '"' as u8,
        'j' as u8,
        't' as u8,
        'i' as u8,
        '"' as u8,
        ':' as u8,
        '"' as u8,
    ];
    let close: [u8; 2] = ['"' as u8, '}' as u8];
    assert(open@ == member_id());
    assert(iat@ == member_iat());
    assert(exp@ == member_exp());
    assert(jti@ == member_jti());
    assert(close@ == closing());
    let n: usize = bytes.len();
    if !starts_with_at(bytes, 0, open.as_slice()) {
        return None;
    }
    let (subject_id, iat_at) = match read_decimal(bytes, 6) {
        Some(found) => found,
        None => {
            return None;
        },
    };
    if !starts_with_at(bytes, iat_at, iat.as_slice()) {
        return None;
    }
    let (issued_at, exp_at) = match read_decimal(bytes, iat_at + 7) {
        Some(found) => found,
        None => {
            return None;
        },
    };
    if !starts_with_at(bytes, exp_at, exp.as_slice()) {
        return None;
    }
    let (expires_at, jti_at) = match read_decimal(bytes, exp_at + 7) {
        Some(found) => found,
        None => {
            return None;
        },
    };
    if !starts_with_at(bytes, jti_at, jti.as_slice()) {
        return None;
    }
    let (raw, end_at) = match read_string(bytes, jti_at + 8) {
        Some(found) => found,
        None => {
            return None;
        },
    };
    if !starts_with_at(bytes, end_at, close.as_slice()) || bytes.len() - end_at != 2 {
        return None;
    }
    Some((subject_id, issued_at, expires_at, raw))
}

/// Reads claims from their written form.
///
/// Returns the claims exactly where `bytes` is the written form of some
/// claims, and those claims are then the only ones with that form.
pub fn parse_written_claims(bytes: &[u8]) -> (r: Option<Claims>)
    ensures
        match r {
            Some(claims) => claims_json(claims@) == bytes@ && written_claims(bytes@) == Some(
                claims@,
            ),
            None => written_claims(bytes@) is None,
        },
{
    let members = read_members(bytes);
    proof {
        assert forall|c: ClaimsView| claims_json(c) == bytes@ implies scan_claims(bytes@) == Some(
            (c.subject_id, c.issued_at, c.expires_at, encode_utf8(c.token_id)),
        ) by {
            lemma_scan_claims_of(c);
        }
    }
    let (subject_id, issued_at, expires_at, raw) = match members {
        Some(found) => found,
        None => {
            return None;
        },
    };
    let ghost raw_bytes = raw@;
    let token_id = match string_from_utf8(raw) {
        Some(s) => s,
        None => {
            proof {
                assert forall|c: ClaimsView| claims_json(c) != bytes@ by {
                    if claims_json(c) == bytes@ {
                        encode_utf8_valid_utf8(c.token_id);
                    }
                }
            }
            return None;
        },
    };
    let claims = Claims { subject_id, issued_at, expires_at, token_id };
    let again = write_claims(&claims);
    if constant_time_eq(again.as_slice(), bytes) {
        proof {
            lemma_written_claims(claims@);
        }
        Some(claims)
    } else {
        proof {
            assert forall|c: ClaimsView| claims_json(c) != bytes@ by {
                if claims_json(c) == bytes@ {
                    lemma_utf8_injective(c.token_id, claims@.token_id);
                    assert(c == claims@);
                }
            }
        }
        None
    }
}

/// The claims made of four members that were read from an object: there
/// are claims exactly where all four members are there.
pub fn claims_from_members(
    subject_id: Option<i64>,
    issued_at: Option<i64>,
    expires_at: Option<i64>,
    token_id: Option<String>,
) -> (r: Option<Claims>)
    ensures
        match r {
            Some(claims) => Some(claims@),
            None => None,
        } == claims_of_members(
            subject_id,
            issued_at,
            expires_at,
            match token_id {
                Some(text) => Some(text@),
                None => None,
            },
        ),
{
    match (subject_id, issued_at, expires_at, token_id) {
        (Some(subject_id), Some(issued_at), Some(expires_at), Some(token_id)) => Some(
            Claims { subject_id, issued_at, expires_at, token_id },
        ),
        _ => None,
    }
}

/// Reads claims from a JSON text.
///
/// The written form of claims gives those claims. Any other text gives
/// the claims that `serde_json` reads from it, and none where it reads no
/// object with the four members.
pub fn parse_claims(bytes: &[u8]) -> (r: Option<Claims>)
    ensures
        match r {
            Some(claims) => claims_of_json(bytes@) == Some(claims@),
            None => claims_of_json(bytes@) is None,
        },
{
    match parse_written_claims(bytes) {
        Some(claims) => Some(claims),
        None => {
            let subject_id = json_integer(bytes, "id");
            let issued_at = json_integer(bytes, "iat");
            let expires_at = json_integer(bytes, "exp");
            let token_id = json_string(bytes, "jti");
            claims_from_members(subject_id, issued_at, expires_at, token_id)
        },
    }
}

} // verus!
