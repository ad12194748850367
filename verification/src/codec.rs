//! Digests, signatures and encodings.

use vstd::prelude::*;
use vstd::string::*;
use vstd::utf8::encode_utf8;
use base64::Engine;
use hmac::{KeyInit, Mac};
use sha2::Digest;
use crate::text::utf8_text;
use crate::views::seen;

verus! {

/// The symbol of six bits in Base64, in the standard alphabet or in the URL-safe one.
pub open spec fn base64_symbol(n: int, url: bool) -> char {
    if n < 26 {
        ((n + 0x41) as u8) as char
    } else if n < 52 {
        ((n + 0x47) as u8) as char
    } else if n < 62 {
        ((n - 4) as u8) as char
    } else if n == 62 {
        if url {
            '-'
        } else {
            '+'
        }
    } else {
        if url {
            '_'
        } else {
            '/'
        }
    }
}

/// Bytes in Base64: four symbols for each three bytes, and for what is left as many as its bits
/// need, filled up with zeros. Only the standard form is padded to four.
pub open spec fn base64_form(bytes: Seq<u8>, url: bool) -> Seq<char>
    decreases bytes.len(),
{
    let a = bytes[0] as int;
    let b = bytes[1] as int;
    let c = bytes[2] as int;
    if bytes.len() == 0 {
        Seq::empty()
    } else if bytes.len() == 1 {
        seq![base64_symbol(a / 4, url), base64_symbol(a % 4 * 16, url)] + if url {
            Seq::empty()
        } else {
            seq!['=', '=']
        }
    } else if bytes.len() == 2 {
        seq![
            base64_symbol(a / 4, url),
            base64_symbol(a % 4 * 16 + b / 16, url),
            base64_symbol(b % 16 * 4, url),
        ] + if url {
            Seq::empty()
        } else {
            seq!['=']
        }
    } else {
        seq![
            base64_symbol(a / 4, url),
            base64_symbol(a % 4 * 16 + b / 16, url),
            base64_symbol(b % 16 * 4 + c / 64, url),
            base64_symbol(c % 64, url),
        ] + base64_form(bytes.skip(3), url)
    }
}

/// The bytes whose form in Base64 a text is, where it is one.
#[verifier::opaque]
pub open spec fn base64_content(text: Seq<char>, url: bool) -> Option<Seq<u8>> {
    if exists|bytes: Seq<u8>| #[trigger] base64_form(bytes, url) == text {
        Some(choose|bytes: Seq<u8>| #[trigger] base64_form(bytes, url) == text)
    } else {
        None
    }
}

/// Bytes in the standard alphabet of Base64, with padding.
pub open spec fn base64_text(bytes: Seq<u8>) -> Seq<char> {
    base64_form(bytes, false)
}

/// What a text in the standard alphabet of Base64 stands for, where it is one.
pub open spec fn base64_bytes(text: Seq<char>) -> Option<Seq<u8>> {
    base64_content(text, false)
}

/// Bytes in the URL-safe alphabet of Base64, without padding.
pub open spec fn url_base64_text(bytes: Seq<u8>) -> Seq<char> {
    base64_form(bytes, true)
}

/// What a text in the URL-safe alphabet of Base64 stands for, where it is one.
pub open spec fn url_base64_bytes(text: Seq<char>) -> Option<Seq<u8>> {
    base64_content(text, true)
}

proof fn symbols_differ(m: int, n: int, url: bool)
    requires
        0 <= m < 64,
        0 <= n < 64,
    ensures
        base64_symbol(m, url) == base64_symbol(n, url) ==> m == n,
        base64_symbol(m, url) != '=',
{
}

/// Six-bit parts that are the same come from the same three bytes.
proof fn parts_make_the_bytes(a: int, b: int, c: int, x: int, y: int, z: int)
    requires
        0 <= a < 256,
        0 <= b < 256,
        0 <= c < 256,
        0 <= x < 256,
        0 <= y < 256,
        0 <= z < 256,
        a / 4 == x / 4,
        a % 4 * 16 + b / 16 == x % 4 * 16 + y / 16,
    ensures
        a == x,
        b / 16 == y / 16,
        b % 16 * 4 + c / 64 == z / 64 + y % 16 * 4 ==> b == y && c / 64 == z / 64,
{
}

/// Different bytes have different forms.
proof fn forms_differ(m: Seq<u8>, n: Seq<u8>, url: bool)
    requires
        base64_form(m, url) == base64_form(n, url),
    ensures
        m == n,
    decreases m.len(),
{
    let s = base64_form(m, url);
    let t = base64_form(n, url);
    let (a, b, c) = (m[0] as int, m[1] as int, m[2] as int);
    let (x, y, z) = (n[0] as int, n[1] as int, n[2] as int);
    form_lengths(m, url);
    form_lengths(n, url);
    if m.len() > 0 && n.len() > 0 {
        assert(s[0] == t[0]);
        assert(s[1] == t[1]);
        symbols_differ(a / 4, x / 4, url);
        if m.len() > 2 && n.len() > 2 {
            assert(s[2] == t[2]);
            assert(s[3] == t[3]);
            symbols_differ(a % 4 * 16 + b / 16, x % 4 * 16 + y / 16, url);
            symbols_differ(b % 16 * 4 + c / 64, y % 16 * 4 + z / 64, url);
            symbols_differ(c % 64, z % 64, url);
            parts_make_the_bytes(a, b, c, x, y, z);
            assert(s.skip(4) =~= base64_form(m.skip(3), url));
            assert(t.skip(4) =~= base64_form(n.skip(3), url));
            forms_differ(m.skip(3), n.skip(3), url);
            assert(m =~= seq![m[0], m[1], m[2]] + m.skip(3));
            assert(n =~= seq![n[0], n[1], n[2]] + n.skip(3));
        } else if m.len() == 2 && n.len() == 2 {
            assert(s[2] == t[2]);
            symbols_differ(a % 4 * 16 + b / 16, x % 4 * 16 + y / 16, url);
            symbols_differ(b % 16 * 4, y % 16 * 4, url);
            parts_make_the_bytes(a, b, 0, x, y, 0);
            assert(m =~= n);
        } else if m.len() == 1 && n.len() == 1 {
            symbols_differ(a % 4 * 16, x % 4 * 16, url);
            assert(m =~= n);
        } else if !url {
            // One is shorter than the other, and so has more padding.
            assert(s[2] == t[2]);
            assert(s[3] == t[3]);
            symbols_differ(b % 16 * 4, y % 16 * 4, url);
            symbols_differ(y % 16 * 4, y % 16 * 4, url);
            symbols_differ(c % 64, z % 64, url);
            symbols_differ(z % 64, z % 64, url);
            symbols_differ(b % 16 * 4 + c / 64, y % 16 * 4 + z / 64, url);
            symbols_differ(y % 16 * 4 + z / 64, b % 16 * 4 + c / 64, url);
        }
    } else {
        assert(m =~= n);
    }
}

/// How long a form is, and where its padding stands.
pub proof fn form_lengths(bytes: Seq<u8>, url: bool)
    ensures
        base64_form(bytes, url).len() == if url {
            (bytes.len() * 4 + 2) / 3
        } else {
            (bytes.len() + 2) / 3 * 4
        },
    decreases bytes.len(),
{
    if bytes.len() > 2 {
        form_lengths(bytes.skip(3), url);
    }
}

/// Decoding undoes encoding, and what is decoded is the only text that stands for its bytes.
pub proof fn base64_is_read_back(bytes: Seq<u8>, text: Seq<char>, url: bool)
    ensures
        base64_content(base64_form(bytes, url), url) == Some(bytes),
        base64_content(text, url) matches Some(read) ==> base64_form(read, url) == text,
{
    reveal(base64_content);
    let found = base64_content(base64_form(bytes, url), url);
    if let Some(read) = found {
        forms_differ(read, bytes, url);
    }
}

/// `base64::Engine::encode` of `STANDARD`: the alphabet of RFC 4648, with padding.
#[verifier::external_body]
pub(crate) fn base64_encode(bytes: &[u8]) -> (r: String)
    ensures
        r@ == base64_text(bytes@),
{
    base64::engine::general_purpose::STANDARD.encode(bytes)
}

/// `base64::Engine::decode` of `STANDARD`. It takes exactly the texts that encoding gives: it
/// asks for the padding, and takes no bits that are left over behind the last byte.
#[verifier::external_body]
pub(crate) fn base64_decode(text: &str) -> (r: Option<Vec<u8>>)
    ensures
        seen(r) == base64_bytes(text@),
{
    base64::engine::general_purpose::STANDARD.decode(text).ok()
}

/// `base64::Engine::encode` of `URL_SAFE_NO_PAD`: the alphabet of RFC 4648 for URLs, without
/// padding.
#[verifier::external_body]
pub(crate) fn url_base64_encode(bytes: &[u8]) -> (r: String)
    ensures
        r@ == url_base64_text(bytes@),
{
    base64::engine::general_purpose::URL_SAFE_NO_PAD.encode(bytes)
}

/// `base64::Engine::decode` of `URL_SAFE_NO_PAD`. It takes exactly the texts that encoding
/// gives: no padding, and no bits that are left over behind the last byte.
#[verifier::external_body]
pub(crate) fn url_base64_decode(text: &str) -> (r: Option<Vec<u8>>)
    ensures
        seen(r) == url_base64_bytes(text@),
{
    base64::engine::general_purpose::URL_SAFE_NO_PAD.decode(text).ok()
}

/// Bytes written as two lower-case hexadecimal digits each.
pub open spec fn hex_text(bytes: Seq<u8>) -> Seq<char> {
    Seq::new(
        2 * bytes.len(),
        |i: int|
            hex_digit(
                if i % 2 == 0 {
                    bytes[i / 2] as int / 16
                } else {
                    bytes[i / 2] as int % 16
                },
            ),
    )
}

pub open spec fn hex_digit(n: int) -> char {
    if n < 10 {
        ((n + 0x30) as u8) as char
    } else {
        ((n + 0x57) as u8) as char
    }
}

/// `hex::encode`: two lower-case hexadecimal digits for each byte, the high one first.
#[verifier::external_body]
pub(crate) fn hex_encode(bytes: &[u8]) -> (r: String)
    ensures
        r@ == hex_text(bytes@),
{
    hex::encode(bytes)
}

/// The MD5 digest of bytes.
pub uninterp spec fn md5_digest(bytes: Seq<u8>) -> Seq<u8>;

/// `md5::compute`: a digest of sixteen bytes.
#[verifier::external_body]
pub(crate) fn md5_compute(bytes: &[u8]) -> (r: Vec<u8>)
    ensures
        r@ == md5_digest(bytes@),
        r@.len() == 16,
{
    md5::compute(bytes).0.to_vec()
}

/// The SHA-256 digest of bytes.
pub uninterp spec fn sha256_digest(bytes: Seq<u8>) -> Seq<u8>;

/// `sha2::Sha256::digest`: a digest of thirty-two bytes.
#[verifier::external_body]
pub(crate) fn sha256_compute(bytes: &[u8]) -> (r: Vec<u8>)
    ensures
        r@ == sha256_digest(bytes@),
        r@.len() == 32,
{
    sha2::Sha256::digest(bytes).to_vec()
}

/// The HMAC of a message under a key, with SHA-256.
pub uninterp spec fn hmac_sha256(key: Seq<u8>, message: Seq<u8>) -> Seq<u8>;

/// `hmac::Hmac<sha2::Sha256>`: keys of every length are accepted, and the code has
/// thirty-two bytes.
#[verifier::external_body]
pub(crate) fn hmac_sha256_compute(key: &[u8], message: &[u8]) -> (r: Option<Vec<u8>>)
    ensures
        seen(r) == Some(hmac_sha256(key@, message@)),
        r matches Some(code) ==> code@.len() == 32,
{
    let mut mac = hmac::Hmac::<sha2::Sha256>::new_from_slice(key).ok()?;
    mac.update(message);
    Some(mac.finalize().into_bytes().to_vec())
}

/// The HMAC of a message under a key, with SHA-1.
pub uninterp spec fn hmac_sha1(key: Seq<u8>, message: Seq<u8>) -> Seq<u8>;

/// `hmac::Hmac<sha1::Sha1>`: keys of every length are accepted.
#[verifier::external_body]
pub(crate) fn hmac_sha1_compute(key: &[u8], message: &[u8]) -> (r: Option<Vec<u8>>)
    ensures
        seen(r) == Some(hmac_sha1(key@, message@)),
{
    let mut mac = hmac::Hmac::<sha1::Sha1>::new_from_slice(key).ok()?;
    mac.update(message);
    Some(mac.finalize().into_bytes().to_vec())
}

/// The value of a hexadecimal digit.
pub open spec fn hex_value(digit: u8) -> Option<int> {
    if 0x30 <= digit <= 0x39 {
        Some(digit - 0x30)
    } else if 0x41 <= digit <= 0x46 {
        Some(digit - 0x37)
    } else if 0x61 <= digit <= 0x66 {
        Some(digit - 0x57)
    } else {
        None
    }
}

/// Bytes with each percent sign before two hexadecimal digits replaced, together with them, by
/// the byte that they give. Any other percent sign stays.
pub open spec fn percent_decoded(bytes: Seq<u8>) -> Seq<u8>
    decreases bytes.len(),
{
    if bytes.len() == 0 {
        Seq::empty()
    } else if bytes.len() > 2 && bytes[0] == 0x25 && hex_value(bytes[1]) is Some && hex_value(
        bytes[2],
    ) is Some {
        seq![(hex_value(bytes[1])->0 * 16 + hex_value(bytes[2])->0) as u8] + percent_decoded(
            bytes.skip(3),
        )
    } else {
        seq![bytes[0]] + percent_decoded(bytes.skip(1))
    }
}

/// A text with its percent escapes decoded, where the bytes they give are UTF-8.
pub open spec fn url_decoded(text: Seq<char>) -> Option<Seq<char>> {
    utf8_text(percent_decoded(encode_utf8(text)))
}

/// `urlencoding::decode`: percent escapes are decoded to bytes, which must be UTF-8 then. What
/// looks like an escape and is none stays as it is, and so does `+`.
#[verifier::external_body]
pub(crate) fn url_decode(text: &str) -> (r: Option<String>)
    ensures
        seen(r) == url_decoded(text@),
{
    urlencoding::decode(text).ok().map(std::borrow::Cow::into_owned)
}

/// A text in lower case by the rules of Unicode.
pub uninterp spec fn unicode_lower(text: Seq<char>) -> Seq<char>;

/// `str::to_lowercase`.
#[verifier::external_body]
pub(crate) fn lower_unicode(text: &str) -> (r: String)
    ensures
        r@ == unicode_lower(text@),
{
    text.to_lowercase()
}

/// The tag of a content: its MD5 digest in hexadecimal.
pub open spec fn content_etag(data: Seq<u8>) -> Seq<char> {
    hex_text(md5_digest(data))
}

pub fn compute_etag(data: &[u8]) -> (r: String)
    ensures
        r@ == content_etag(data@),
{
    hex_encode(md5_compute(data).as_slice())
}

/// The Base64 form of the HMAC of a text with SHA-256.
pub open spec fn signature(key: Seq<u8>, payload: Seq<char>) -> Seq<char> {
    base64_text(hmac_sha256(key, encode_utf8(payload)))
}

pub fn sign_hmac_base64(key: &[u8], payload: &str) -> (r: String)
    ensures
        r@ == signature(key@, payload@),
{
    match hmac_sha256_compute(key, payload.as_bytes()) {
        Some(code) => base64_encode(code.as_slice()),
        None => String::new(),
    }
}

/// The Base64 form of the HMAC of a text with SHA-1.
pub open spec fn signature_sha1(key: Seq<u8>, payload: Seq<char>) -> Seq<char> {
    base64_text(hmac_sha1(key, encode_utf8(payload)))
}

pub fn sign_hmac_sha1_base64(key: &[u8], payload: &str) -> (r: String)
    ensures
        r@ == signature_sha1(key@, payload@),
{
    match hmac_sha1_compute(key, payload.as_bytes()) {
        Some(code) => base64_encode(code.as_slice()),
        None => String::new(),
    }
}

} // verus!
