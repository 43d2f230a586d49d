//! `base64`, `sha2` and `hex`: decoding and encoding Base64 text, SHA-256
//! digests and lower-case hexadecimal.
use base64::engine::general_purpose::{STANDARD, URL_SAFE, URL_SAFE_NO_PAD};
use base64::{DecodeError, Engine};
use sha2::{Digest, Sha256};
use vstd::prelude::*;
use vstd::utf8::encode_utf8;

verus! {

#[verifier::external_type_specification]
#[verifier::external_body]
pub struct ExDecodeError(base64::DecodeError);

/// What `URL_SAFE_NO_PAD.decode` gives for the input bytes.
pub uninterp spec fn b64_url_safe_no_pad_decode(input: Seq<u8>) -> Result<Seq<u8>, DecodeError>;

/// What `STANDARD.decode` gives for the input bytes.
pub uninterp spec fn b64_standard_decode(input: Seq<u8>) -> Result<Seq<u8>, DecodeError>;

/// What `URL_SAFE.decode` gives for the input bytes.
pub uninterp spec fn b64_url_safe_decode(input: Seq<u8>) -> Result<Seq<u8>, DecodeError>;

/// What `STANDARD.encode` gives for the input bytes.
pub uninterp spec fn b64_standard_encode(input: Seq<u8>) -> Seq<char>;

/// What the `Display` impl of `base64::DecodeError` writes.
pub uninterp spec fn decode_error_text(e: DecodeError) -> Seq<char>;

/// The SHA-256 digest of the input bytes.
pub uninterp spec fn sha256_digest(data: Seq<u8>) -> Seq<u8>;

/// Decoded bytes seen as a sequence, the error unchanged.
pub open spec fn decoded(r: Result<Vec<u8>, DecodeError>) -> Result<Seq<u8>, DecodeError> {
    match r {
        Ok(v) => Ok(v@),
        Err(e) => Err(e),
    }
}

/// `URL_SAFE_NO_PAD.decode`. A `Vec<u8>` never holds more than `isize::MAX` bytes.
#[verifier::external_body]
pub(crate) fn decode_url_safe_no_pad(input: &[u8]) -> (res: Result<Vec<u8>, DecodeError>)
    ensures
        decoded(res) == b64_url_safe_no_pad_decode(input@),
        res matches Ok(v) ==> v@.len() <= isize::MAX,
{
    URL_SAFE_NO_PAD.decode(input)
}

/// `STANDARD.decode`. A `Vec<u8>` never holds more than `isize::MAX` bytes.
#[verifier::external_body]
pub(crate) fn decode_standard(input: &[u8]) -> (res: Result<Vec<u8>, DecodeError>)
    ensures
        decoded(res) == b64_standard_decode(input@),
        res matches Ok(v) ==> v@.len() <= isize::MAX,
{
    STANDARD.decode(input)
}

/// `URL_SAFE.decode`. A `Vec<u8>` never holds more than `isize::MAX` bytes.
#[verifier::external_body]
pub(crate) fn decode_url_safe(input: &[u8]) -> (res: Result<Vec<u8>, DecodeError>)
    ensures
        decoded(res) == b64_url_safe_decode(input@),
        res matches Ok(v) ==> v@.len() <= isize::MAX,
{
    URL_SAFE.decode(input)
}

/// A successful decoding to `bytes`.
pub open spec fn decoded_to(bytes: Seq<u8>) -> Result<Seq<u8>, DecodeError> {
    Ok(bytes)
}

/// A character of the standard Base64 alphabet or its padding `=`.
pub open spec fn is_b64_standard_char(c: char) -> bool {
    ||| ('A' <= c && c <= 'Z')
    ||| ('a' <= c && c <= 'z')
    ||| ('0' <= c && c <= '9')
    ||| c == '+'
    ||| c == '/'
    ||| c == '='
}

/// `STANDARD.encode`. It panics only when the length of its output overflows
/// `usize`, which no input of at most `isize::MAX` bytes reaches. Its text
/// holds only characters of the standard alphabet and `=` padding, on one
/// line, and `STANDARD.decode` of that text gives the input back.
#[verifier::external_body]
pub(crate) fn encode_standard(input: &[u8]) -> (res: String)
    requires
        input@.len() <= isize::MAX,
    ensures
        res@ == b64_standard_encode(input@),
        forall|i: int| 0 <= i < res@.len() ==> is_b64_standard_char(#[trigger] res@[i]),
        b64_standard_decode(encode_utf8(res@)) == decoded_to(input@),
{
    STANDARD.encode(input)
}

/// The `Display` text of a `base64::DecodeError`.
#[verifier::external_body]
pub(crate) fn decode_error_message(e: &DecodeError) -> (res: String)
    ensures
        res@ == decode_error_text(*e),
{
    format!("{}", e)
}

/// `Sha256::digest`: its output is 32 bytes long.
#[verifier::external_body]
pub(crate) fn sha256(data: &[u8]) -> (res: Vec<u8>)
    ensures
        res@ == sha256_digest(data@),
        res@.len() == 32,
{
    Sha256::digest(data).to_vec()
}

/// The lower-case hexadecimal digit for `d < 16`.
pub open spec fn hex_digit(d: u8) -> char {
    if d < 10 {
        (48 + d) as char
    } else {
        (87 + d) as char
    }
}

/// Two lower-case hexadecimal digits per byte, high half first.
pub open spec fn hex_text(b: Seq<u8>) -> Seq<char>
    decreases b.len(),
{
    if b.len() == 0 {
        Seq::empty()
    } else {
        hex_text(b.drop_last()) + seq![hex_digit(b.last() / 16), hex_digit(b.last() % 16)]
    }
}

/// `hex::encode`: each byte as two digits of `0123456789abcdef`, high half first.
#[verifier::external_body]
pub(crate) fn hex_encode(data: &[u8]) -> (res: String)
    ensures
        res@ == hex_text(data@),
{
    hex::encode(data)
}

} // verus!
