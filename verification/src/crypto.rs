//! Portal request and response encryption.
//!
//! The campus portal v3 APIs exchange AES-128-CBC encrypted, hex-encoded
//! payloads with a fixed key and IV and PKCS#7 padding. Request bodies are
//! compact JSON objects; responses may be plain hex or a JSON string holding
//! the hex text.

use cbc::cipher::{BlockModeDecrypt, BlockModeEncrypt, KeyIvInit};
use vstd::prelude::*;
use vstd::utf8::{decode_utf8, encode_utf8, valid_utf8};

use crate::error::PortalError;
use crate::text::{is_hex_digit, hex_digit_value, lower_hex_digit, trim, trim_chars, chars_of, string_from_chars};

verus! {

/// Declares `hex::FromHexError`, the error of hex decoding.
#[verifier::external_type_specification]
#[verifier::external_body]
pub struct ExFromHexError(hex::FromHexError);

/// Declares `serde_json::Error`.
#[verifier::external_type_specification]
#[verifier::external_body]
pub struct ExJsonError(serde_json::Error);

/// Declares the padding error of block-mode decryption.
#[verifier::external_type_specification]
#[verifier::external_body]
pub struct ExUnpadError(cbc::cipher::block_padding::Error);

// ---------------------------------------------------------------------------
// Hex encoding.

/// Two lowercase hexadecimal digits of a byte.
pub open spec fn byte_hex(v: u8) -> Seq<char> {
    seq![lower_hex_digit(v as int / 16), lower_hex_digit(v as int % 16)]
}

/// Lowercase hex text of a byte sequence, two digits per byte.
pub open spec fn hex_text(bytes: Seq<u8>) -> Seq<char>
    decreases bytes.len(),
{
    if bytes.len() == 0 {
        Seq::empty()
    } else {
        hex_text(bytes.drop_last()) + byte_hex(bytes.last())
    }
}

/// Whether a text is an even number of hexadecimal digits.
pub open spec fn hex_decodable(s: Seq<char>) -> bool {
    s.len() % 2 == 0 && forall|i: int| 0 <= i < s.len() ==> is_hex_digit(#[trigger] s[i])
}

/// The bytes written by a decodable hex text (digits of either case).
pub open spec fn hex_bytes(s: Seq<char>) -> Seq<u8> {
    Seq::new(
        s.len() / 2,
        |i: int| (16 * hex_digit_value(s[2 * i]) + hex_digit_value(s[2 * i + 1])) as u8,
    )
}

/// Hex-encodes bytes.
///
/// Calls `hex::encode`, which writes each byte as two lowercase hex digits,
/// high nibble first.
#[verifier::external_body]
fn hex_encode(data: &[u8]) -> (r: String)
    ensures
        r@ == hex_text(data@),
{
    hex::encode(data)
}

/// Decodes hex text.
///
/// Calls `hex::decode`, which fails on an odd length or on any byte that is not
/// a hex digit of either case, and otherwise returns one byte per digit pair.
#[verifier::external_body]
fn hex_decode(s: &str) -> (r: Result<Vec<u8>, hex::FromHexError>)
    ensures
        r is Ok <==> hex_decodable(s@),
        r matches Ok(b) ==> b@ == hex_bytes(s@),
{
    hex::decode(s)
}

// ---------------------------------------------------------------------------
// AES-128-CBC with PKCS#7 padding.

/// The ciphertext of AES-128-CBC with PKCS#7 padding of `msg` under `key` and `iv`.
pub uninterp spec fn aes128_cbc_encrypt(key: Seq<u8>, iv: Seq<u8>, msg: Seq<u8>) -> Seq<u8>;

/// The plaintext of AES-128-CBC with PKCS#7 padding of `ct` under `key` and
/// `iv`, or `None` when the length or the padding is malformed.
pub uninterp spec fn aes128_cbc_decrypt(key: Seq<u8>, iv: Seq<u8>, ct: Seq<u8>) -> Option<Seq<u8>>;

/// Encrypts with AES-128-CBC and PKCS#7 padding.
///
/// Calls `cbc::Encryptor::<aes::Aes128>::encrypt_padded_vec::<Pkcs7>`, which
/// pads the message to the next multiple of the block size (always adding at
/// least one byte) and encrypts it. Decrypting the result under the same key
/// and IV gives the message back.
#[verifier::external_body]
fn aes_encrypt(key: &[u8; 16], iv: &[u8; 16], msg: &[u8]) -> (r: Vec<u8>)
    ensures
        r@ == aes128_cbc_encrypt(key@, iv@, msg@),
        r@.len() == 16 * (msg@.len() / 16 + 1),
        aes128_cbc_decrypt(key@, iv@, r@) == Some(msg@),
{
    cbc::Encryptor::<aes::Aes128>::new(key.into(), iv.into())
        .encrypt_padded_vec::<cbc::cipher::block_padding::Pkcs7>(msg)
}

/// Decrypts with AES-128-CBC and PKCS#7 padding.
///
/// Calls `cbc::Decryptor::<aes::Aes128>::decrypt_padded_vec::<Pkcs7>`, which
/// fails when the input is not a whole number of blocks or the padding is
/// malformed.
#[verifier::external_body]
fn aes_decrypt(key: &[u8; 16], iv: &[u8; 16], ct: &[u8]) -> (r: Result<
    Vec<u8>,
    cbc::cipher::block_padding::Error,
>)
    ensures
        r is Ok <==> aes128_cbc_decrypt(key@, iv@, ct@) is Some,
        r matches Ok(p) ==> aes128_cbc_decrypt(key@, iv@, ct@) == Some(p@),
{
    cbc::Decryptor::<aes::Aes128>::new(key.into(), iv.into())
        .decrypt_padded_vec::<cbc::cipher::block_padding::Pkcs7>(ct)
}

/// The fixed AES-128 key and IV of the portal v3 protocol: `1234567890000000`.
pub open spec fn portal_key() -> Seq<u8> {
    seq![49u8, 50, 51, 52, 53, 54, 55, 56, 57, 48, 48, 48, 48, 48, 48, 48]
}

/// The fixed AES-128 key (also used as IV) of the portal v3 protocol.
fn portal_key_bytes() -> (k: [u8; 16])
    ensures
        k@ == portal_key(),
{
    let k: [u8; 16] = [49u8, 50, 51, 52, 53, 54, 55, 56, 57, 48, 48, 48, 48, 48, 48, 48];
    assert(k@ == portal_key());
    k
}

// ---------------------------------------------------------------------------
// UTF-8 and JSON strings.

/// Converts bytes to a string when they are valid UTF-8.
///
/// Calls `String::from_utf8`, which succeeds exactly on valid UTF-8 and then
/// holds the decoded characters.
#[verifier::external_body]
fn utf8_string(bytes: Vec<u8>) -> (r: Option<String>)
    ensures
        r is Some <==> valid_utf8(bytes@),
        r matches Some(s) ==> s@ == decode_utf8(bytes@),
{
    String::from_utf8(bytes).ok()
}

/// The JSON string literal that `serde_json` writes for a text.
pub uninterp spec fn json_string_literal(s: Seq<char>) -> Seq<char>;

/// The text held by a JSON string literal, or `None` when the input is not
/// exactly one JSON string.
pub uninterp spec fn json_string_value(s: Seq<char>) -> Option<Seq<char>>;

/// Serializes a text as a JSON string literal.
///
/// Calls `serde_json::to_string` on a `str`. Serializing a `str` into the
/// in-memory buffer that `to_string` uses cannot fail. Its output starts and
/// ends with a double quote, and reading it back with
/// `serde_json::from_str::<String>` gives the text back.
#[verifier::external_body]
pub(crate) fn json_quote(s: &str) -> (r: Result<String, serde_json::Error>)
    ensures
        r is Ok,
        r matches Ok(q) ==> {
            &&& q@ == json_string_literal(s@)
            &&& q@.len() >= 2
            &&& q@[0] == '"'
            &&& q@.last() == '"'
            &&& json_string_value(q@) == Some(s@)
        },
{
    serde_json::to_string(s)
}

/// Reads a JSON string literal.
///
/// Calls `serde_json::from_str::<String>`, which fails unless the input is one
/// JSON string (surrounding whitespace allowed).
#[verifier::external_body]
fn json_unquote(s: &str) -> (r: Result<String, serde_json::Error>)
    ensures
        r is Ok <==> json_string_value(s@) is Some,
        r matches Ok(v) ==> json_string_value(s@) == Some(v@),
{
    serde_json::from_str::<String>(s)
}

} // verus!

verus! {

/// The hex body that the portal expects for a plaintext: AES-128-CBC/PKCS#7
/// under the fixed key and IV of the UTF-8 bytes, as lowercase hex.
pub open spec fn encrypted_hex(text: Seq<char>) -> Seq<char> {
    hex_text(aes128_cbc_encrypt(portal_key(), portal_key(), encode_utf8(text)))
}

/// The raw hex text of a response body: the trimmed body, unwrapped from a
/// JSON string when it is quoted; `None` when a quoted body is not a JSON string.
pub open spec fn hex_body(text: Seq<char>) -> Option<Seq<char>> {
    let t = trim(text);
    if t.len() > 0 && t[0] == '"' && t.last() == '"' {
        json_string_value(t)
    } else {
        Some(t)
    }
}

/// The plaintext of a response body, or `None` when any step fails.
pub open spec fn decrypted_text(text: Seq<char>) -> Option<Seq<char>> {
    match hex_body(text) {
        None => None,
        Some(h) => if !hex_decodable(h) {
            None
        } else {
            match aes128_cbc_decrypt(portal_key(), portal_key(), hex_bytes(h)) {
                None => None,
                Some(p) => if valid_utf8(p) {
                    Some(decode_utf8(p))
                } else {
                    None
                },
            }
        },
    }
}

/// Encrypts plain text with the portal AES-128-CBC settings.
///
/// The plaintext is padded with PKCS#7 and returned as lowercase hex; this
/// never fails.
pub fn encrypt_text(text: &str) -> (r: Result<String, PortalError>)
    ensures
        r matches Ok(h) && h@ == encrypted_hex(text@) && decrypted_text(h@) == Some(text@),
{
    let key = portal_key_bytes();
    let ciphertext = aes_encrypt(&key, &key, text.as_bytes());
    let h = hex_encode(ciphertext.as_slice());
    proof {
        let ct = ciphertext@;
        lemma_hex_roundtrip(ct);
        lemma_trim_without_whitespace(h@);
        assert(h@.len() > 0);
        assert(h@[0] != '"');
        vstd::utf8::encode_utf8_valid_utf8(text@);
        vstd::utf8::encode_utf8_decode_utf8(text@);
    }
    Ok(h)
}

/// Normalizes an encrypted response body to its raw hex text.
///
/// Trims whitespace and unwraps a JSON string if the body is quoted.
fn normalize_hex_body(text: &str) -> (r: Result<String, PortalError>)
    ensures
        match r {
            Ok(h) => hex_body(text@) == Some(h@),
            Err(e) => hex_body(text@) is None && e is Json,
        },
{
    let all = chars_of(text);
    let t = trim_chars(all.as_slice());
    let trimmed = string_from_chars(t.as_slice());
    if t.len() > 0 && t[0] == '"' && t[t.len() - 1] == '"' {
        match json_unquote(trimmed.as_str()) {
            Ok(v) => Ok(v),
            Err(e) => Err(PortalError::Json(e)),
        }
    } else {
        Ok(trimmed)
    }
}

/// Decrypts a portal hex response into UTF-8 text.
///
/// Quoted JSON string bodies are accepted and unwrapped before hex decoding.
/// A quoted body that is not a JSON string gives [`PortalError::Json`],
/// malformed hex gives [`PortalError::Hex`], and a ciphertext with bad length
/// or padding, or a plaintext that is not UTF-8, gives [`PortalError::Decrypt`].
pub fn decrypt_text(text: &str) -> (r: Result<String, PortalError>)
    ensures
        match r {
            Ok(s) => decrypted_text(text@) == Some(s@),
            Err(e) => {
                &&& decrypted_text(text@) is None
                &&& hex_body(text@) is None ==> e is Json
                &&& (hex_body(text@) matches Some(h) && !hex_decodable(h)) ==> e is Hex
                &&& (hex_body(text@) matches Some(h) && hex_decodable(h)) ==> e is Decrypt
            },
        },
{
    let normalized = normalize_hex_body(text)?;
    let ciphertext = match hex_decode(normalized.as_str()) {
        Ok(c) => c,
        Err(e) => {
            return Err(PortalError::Hex(e));
        },
    };
    let key = portal_key_bytes();
    let plaintext = match aes_decrypt(&key, &key, ciphertext.as_slice()) {
        Ok(p) => p,
        Err(_) => {
            return Err(PortalError::Decrypt);
        },
    };
    match utf8_string(plaintext) {
        Some(s) => Ok(s),
        None => Err(PortalError::Decrypt),
    }
}

} // verus!

verus! {

proof fn lemma_hex_digit_roundtrip(v: int)
    requires
        0 <= v < 16,
    ensures
        is_hex_digit(lower_hex_digit(v)),
        hex_digit_value(lower_hex_digit(v)) == v,
        lower_hex_digit(v) != '"',
        !crate::text::is_whitespace(lower_hex_digit(v)),
{
}

proof fn lemma_hex_text_len(b: Seq<u8>)
    ensures
        hex_text(b).len() == 2 * b.len(),
    decreases b.len(),
{
    if b.len() > 0 {
        lemma_hex_text_len(b.drop_last());
    }
}

proof fn lemma_hex_text_index(b: Seq<u8>, i: int)
    requires
        0 <= i < b.len(),
    ensures
        hex_text(b)[2 * i] == lower_hex_digit(b[i] as int / 16),
        hex_text(b)[2 * i + 1] == lower_hex_digit(b[i] as int % 16),
    decreases b.len(),
{
    lemma_hex_text_len(b.drop_last());
    if i < b.len() - 1 {
        lemma_hex_text_index(b.drop_last(), i);
    }
}

proof fn lemma_hex_roundtrip(b: Seq<u8>)
    ensures
        hex_text(b).len() == 2 * b.len(),
        hex_decodable(hex_text(b)),
        hex_bytes(hex_text(b)) == b,
        forall|i: int|
            0 <= i < hex_text(b).len() ==> #[trigger] hex_text(b)[i] != '"'
                && !crate::text::is_whitespace(hex_text(b)[i]),
{
    let h = hex_text(b);
    lemma_hex_text_len(b);
    assert forall|i: int| 0 <= i < h.len() implies is_hex_digit(#[trigger] h[i]) && h[i] != '"'
        && !crate::text::is_whitespace(h[i]) by {
        let j = i / 2;
        lemma_hex_text_index(b, j);
        if i % 2 == 0 {
            assert(i == 2 * j);
            lemma_hex_digit_roundtrip(b[j] as int / 16);
        } else {
            assert(i == 2 * j + 1);
            lemma_hex_digit_roundtrip(b[j] as int % 16);
        }
    }
    assert forall|j: int| 0 <= j < b.len() implies #[trigger] hex_bytes(h)[j] == b[j] by {
        lemma_hex_text_index(b, j);
        lemma_hex_digit_roundtrip(b[j] as int / 16);
        lemma_hex_digit_roundtrip(b[j] as int % 16);
    }
    assert(hex_bytes(h) == b);
}

proof fn lemma_trim_without_whitespace(s: Seq<char>)
    requires
        forall|i: int| 0 <= i < s.len() ==> !crate::text::is_whitespace(#[trigger] s[i]),
    ensures
        trim(s) == s,
{
    if s.len() > 0 {
        assert(!crate::text::is_whitespace(s[s.len() - 1]));
    }
}

} // verus!
