//! The shareable token of a diagram text: `/v1/` followed by the URL-safe,
//! unpadded base64 of the LZ4-compressed UTF-8 bytes of the text.
use vstd::prelude::*;
use vstd::string::StringExecFns;
use vstd::utf8::{decode_utf8, encode_utf8, valid_utf8};
use crate::parse::text_chars;

verus! {

/// The LZ4 compression of some bytes.
pub uninterp spec fn lz4_of(b: Seq<u8>) -> Seq<u8>;

/// The URL-safe, unpadded base64 text of some bytes.
pub uninterp spec fn b64url_of(b: Seq<u8>) -> Seq<char>;

/// What LZ4 decompression of some bytes gives: `None` for a malformed stream.
pub uninterp spec fn lz4_decompressed(c: Seq<u8>) -> Option<Seq<u8>>;

/// What URL-safe, unpadded base64 decoding of a text gives: `None` on failure.
pub uninterp spec fn b64url_decoded(s: Seq<char>) -> Option<Seq<u8>>;

/// A letter of the URL-safe base64 alphabet.
pub open spec fn is_b64url_char(c: char) -> bool {
    ('A' <= c <= 'Z') || ('a' <= c <= 'z') || ('0' <= c <= '9') || c == '-' || c == '_'
}

/// The text holds a character that is neither a base64 letter nor padding.
pub open spec fn has_foreign_char(s: Seq<char>) -> bool {
    exists|i: int| 0 <= i < s.len() && !is_b64url_char(#[trigger] s[i]) && s[i] != '='
}

pub open spec fn opt_bytes(r: &Option<Vec<u8>>) -> Option<Seq<u8>> {
    match r {
        Some(v) => Some(v@),
        None => None,
    }
}

/// Relies on lz4_compression's `compress` for the compressed form of the bytes.
#[verifier::external_body]
fn lz4_compress(b: &[u8]) -> (r: Vec<u8>)
    ensures
        r@ == lz4_of(b@),
{
    lz4_compression::compress::compress(b)
}

/// Relies on lz4_compression's `decompress`, which gives back the bytes that
/// `compress` was handed; a malformed stream is an error.
#[verifier::external_body]
fn lz4_decompress(c: &[u8]) -> (r: Option<Vec<u8>>)
    ensures
        opt_bytes(&r) == lz4_decompressed(c@),
        forall|b: Seq<u8>| #[trigger] lz4_of(b) == c@ ==> r is Some && r->0@ == b,
{
    lz4_compression::decompress::decompress(c).ok()
}

/// Relies on base64's `encode_config` with the URL-safe alphabet (letters,
/// digits, `-` and `_`) and no padding: no other character is written.
#[verifier::external_body]
fn b64url_encode(b: &[u8]) -> (r: String)
    ensures
        r@ == b64url_of(b@),
        forall|i: int| 0 <= i < r@.len() ==> is_b64url_char(#[trigger] r@[i]),
{
    base64::encode_config(b, base64::Config::new(base64::CharacterSet::UrlSafe, false))
}

/// Relies on base64's `decode_config` with the same configuration, which gives
/// back the bytes that `encode_config` was handed, and fails on any byte that
/// is neither in the alphabet nor `=`.
#[verifier::external_body]
fn b64url_decode(s: &Vec<char>) -> (r: Option<Vec<u8>>)
    ensures
        opt_bytes(&r) == b64url_decoded(s@),
        forall|b: Seq<u8>| #[trigger] b64url_of(b) == s@ ==> r is Some && r->0@ == b,
        has_foreign_char(s@) ==> r is None,
{
    let t: String = s.iter().collect();
    base64::decode_config(t, base64::Config::new(base64::CharacterSet::UrlSafe, false)).ok()
}

/// Relies on `String::from_utf8`: it succeeds exactly on valid UTF-8, with the
/// characters that the bytes encode.
#[verifier::external_body]
fn string_from_utf8(v: Vec<u8>) -> (r: Option<String>)
    ensures
        r is Some <==> valid_utf8(v@),
        r is Some ==> r->0@ == decode_utf8(v@),
{
    String::from_utf8(v).ok()
}

/// Why a token could not be read back.
#[derive(Debug, Clone, Copy, PartialEq, Eq, Structural)]
pub enum TokenError {
    /// The version segment is missing or is not `v1`.
    UnexpectedHash,
    /// The payload is not URL-safe base64.
    Decode,
    /// The decoded bytes are not a compressed stream.
    Decompress,
    /// The decompressed bytes are not UTF-8.
    Encoding,
}

/// The packed form of a text: compressed, then base64.
pub open spec fn packed_of(t: Seq<char>) -> Seq<char> {
    b64url_of(lz4_of(encode_utf8(t)))
}

pub open spec fn token_prefix() -> Seq<char> {
    seq!['/', 'v', '1', '/']
}

/// The token of a text.
pub open spec fn token_of(t: Seq<char>) -> Seq<char> {
    token_prefix() + packed_of(t)
}

/// Position of the first `/` at or after `i`, or the end of `s`.
pub open spec fn next_slash(s: Seq<char>, i: int) -> int
    decreases s.len() - i,
{
    if 0 <= i < s.len() && s[i] != '/' {
        next_slash(s, i + 1)
    } else {
        i
    }
}

/// The payload of a token: its third `/`-separated segment, when the second
/// is `v1`.
pub open spec fn payload_of(h: Seq<char>) -> Option<Seq<char>> {
    let a = next_slash(h, 0);
    if a >= h.len() {
        None
    } else {
        let b = next_slash(h, a + 1);
        if h.subrange(a + 1, b) != seq!['v', '1'] || b >= h.len() {
            None
        } else {
            Some(h.subrange(b + 1, next_slash(h, b + 1)))
        }
    }
}

/// What reading a token back gives.
pub open spec fn decode_of(h: Seq<char>) -> Result<Seq<char>, TokenError> {
    if h.len() == 0 {
        Ok(Seq::<char>::empty())
    } else {
        match payload_of(h) {
            None => Err(TokenError::UnexpectedHash),
            Some(p) => match b64url_decoded(p) {
                None => Err(TokenError::Decode),
                Some(c) => match lz4_decompressed(c) {
                    None => Err(TokenError::Decompress),
                    Some(b) => if valid_utf8(b) {
                        Ok(decode_utf8(b))
                    } else {
                        Err(TokenError::Encoding)
                    },
                },
            },
        }
    }
}

pub open spec fn decode_view(r: &Result<String, TokenError>) -> Result<Seq<char>, TokenError> {
    match r {
        Ok(s) => Ok(s@),
        Err(e) => Err(*e),
    }
}

/// `h` is a token that `decode_text` reads back as `t`.
pub open spec fn decodes_to(h: Seq<char>, t: Seq<char>) -> bool {
    h.len() > 0 && payload_of(h) == Some(packed_of(t))
}

fn next_slash_from(s: &Vec<char>, i: usize) -> (r: usize)
    requires
        i <= s.len(),
    ensures
        r == next_slash(s@, i as int),
        i <= r <= s.len(),
{
    let mut k: usize = i;
    while k < s.len() && s[k] != '/'
        invariant
            i <= k <= s.len(),
            next_slash(s@, k as int) == next_slash(s@, i as int),
        decreases s.len() - k,
    {
        k = k + 1;
    }
    k
}

fn payload(h: &Vec<char>) -> (r: Option<Vec<char>>)
    ensures
        match r {
            Some(p) => payload_of(h@) == Some(p@),
            None => payload_of(h@) is None,
        },
{
    let a = next_slash_from(h, 0);
    if a >= h.len() {
        return None;
    }
    let b = next_slash_from(h, a + 1);
    if !(b - a == 3 && h[a + 1] == 'v' && h[a + 2] == '1') || b >= h.len() {
        proof {
            let sub = h@.subrange(a + 1, b as int);
            if b < h.len() && sub == seq!['v', '1'] {
                assert(sub.len() == 2);
                assert(sub[0] == h@[a + 1]);
                assert(sub[1] == h@[a + 2]);
                assert(seq!['v', '1'][0] == 'v');
                assert(seq!['v', '1'][1] == '1');
            }
        }
        return None;
    }
    assert(h@.subrange(a + 1, b as int) =~= seq!['v', '1']);
    let c = next_slash_from(h, b + 1);
    Some(crate::parse::slice_chars(h, b + 1, c))
}

/// The token of a text. Reading the token back gives the text.
pub fn encode_text(text: &str) -> (r: String)
    ensures
        r@ == token_of(text@),
        decodes_to(r@, text@),
        forall|i: int| 4 <= i < r@.len() ==> is_b64url_char(#[trigger] r@[i]),
{
    let compressed = lz4_compress(text.as_bytes());
    let packed = b64url_encode(compressed.as_slice());
    let mut token = String::from_str("/v1/");
    token.append(packed.as_str());
    proof {
        reveal_strlit("/v1/");
        let s = token@;
        let p = packed@;
        assert(s =~= token_prefix() + p);
        assert forall|i: int| 4 <= i < s.len() implies is_b64url_char(#[trigger] s[i]) by {
            assert(s[i] == p[i - 4]);
        }
        assert(s[0] == '/');
        assert(next_slash(s, 0) == 0);
        assert(next_slash(s, 3) == 3);
        assert(next_slash(s, 2) == 3);
        assert(next_slash(s, 1) == 3);
        assert(s.subrange(1, 3) =~= seq!['v', '1']);
        assert forall|k: int| 4 <= k <= s.len() implies next_slash(s, k) == s.len() by {
            lemma_no_slash_from(s, k);
        }
        assert(s.subrange(4, s.len() as int) =~= p);
    }
    token
}

proof fn lemma_no_slash_from(s: Seq<char>, k: int)
    requires
        0 <= k <= s.len(),
        forall|j: int| k <= j < s.len() ==> s[j] != '/',
    ensures
        next_slash(s, k) == s.len(),
    decreases s.len() - k,
{
    if k < s.len() {
        lemma_no_slash_from(s, k + 1);
    }
}

/// Reads a token back into its text. An empty token is the empty text.
pub fn decode_text(h: &str) -> (r: Result<String, TokenError>)
    ensures
        h@.len() == 0 ==> r is Ok && r->Ok_0@ == Seq::<char>::empty(),
        h@.len() > 0 ==> (payload_of(h@) is None <==> r == Err::<String, TokenError>(
            TokenError::UnexpectedHash,
        )),
        decode_view(&r) == decode_of(h@),
        forall|t: Seq<char>| #[trigger] decodes_to(h@, t) ==> r is Ok && r->Ok_0@ == t,
        h@.len() > 0 && payload_of(h@) is Some && has_foreign_char(payload_of(h@)->0) ==> r
            == Err::<String, TokenError>(TokenError::Decode),
{
    let chars = text_chars(h);
    if chars.len() == 0 {
        return Ok(String::new());
    }
    let p = match payload(&chars) {
        Some(p) => p,
        None => {
            return Err(TokenError::UnexpectedHash);
        },
    };
    let compressed = match b64url_decode(&p) {
        Some(c) => c,
        None => {
            return Err(TokenError::Decode);
        },
    };
    let bytes = match lz4_decompress(compressed.as_slice()) {
        Some(b) => b,
        None => {
            return Err(TokenError::Decompress);
        },
    };
    proof {
        broadcast use vstd::utf8::encode_utf8_valid_utf8, vstd::utf8::encode_utf8_decode_utf8;

        assert forall|t: Seq<char>| #[trigger] decodes_to(h@, t) implies p@ == packed_of(t) by {}

        assert forall|t: Seq<char>| p@ == #[trigger] packed_of(t) implies bytes@ == encode_utf8(t)
            && valid_utf8(bytes@) && decode_utf8(bytes@) == t by {
            assert(b64url_of(lz4_of(encode_utf8(t))) == p@);
            assert(lz4_of(encode_utf8(t)) == compressed@);
        }
    }
    match string_from_utf8(bytes) {
        Some(s) => Ok(s),
        None => Err(TokenError::Encoding),
    }
}

} // verus!
