//! The stored password: the text form (standard Base64) of the password that Windows
//! protected for the current user, and the checks around protecting and recovering it.

use base64::Engine;
use vstd::prelude::*;

use crate::text::{string_from_chars, trim, trim_str};
use crate::AppResult;

verus! {

/// The characters of standard Base64 text: `A`-`Z`, `a`-`z`, `0`-`9`, `+`, `/` and `=`.
pub open spec fn is_base64_char(c: char) -> bool {
    ||| 'A' <= c <= 'Z'
    ||| 'a' <= c <= 'z'
    ||| '0' <= c <= '9'
    ||| c == '+'
    ||| c == '/'
    ||| c == '='
}

/// The standard, padded Base64 encoding of `data`.
pub uninterp spec fn base64_standard_encode(data: Seq<u8>) -> Seq<char>;

/// The bytes that the standard, padded Base64 text `text` decodes to; `None` when it is not
/// such text.
pub uninterp spec fn base64_standard_decode(text: Seq<u8>) -> Option<Seq<u8>>;

/// The encoding cannot overflow the length computation.
pub open spec fn encodable_length(n: nat) -> bool {
    (n / 3) * 4 + (if n % 3 == 0 {
        0nat
    } else {
        4nat
    }) <= usize::MAX
}

/// `base64::engine::general_purpose::STANDARD.encode`: the text uses only the standard
/// alphabet and padding, and decoding it with the same engine gives `data` back.
#[verifier::external_body]
fn base64_encode(data: &[u8]) -> (r: String)
    requires
        encodable_length(data@.len()),
    ensures
        r@ == base64_standard_encode(data@),
        forall|i: int| 0 <= i < r@.len() ==> is_base64_char(#[trigger] r@[i]),
        base64_standard_decode(vstd::utf8::encode_utf8(r@)) == Some(data@),
{
    base64::engine::general_purpose::STANDARD.encode(data)
}

/// `base64::engine::general_purpose::STANDARD.decode`; the error is dropped.
#[verifier::external_body]
fn base64_decode(text: &[u8]) -> (r: Option<Vec<u8>>)
    ensures
        match r {
            Some(v) => base64_standard_decode(text@) == Some(v@),
            None => base64_standard_decode(text@) is None,
        },
{
    base64::engine::general_purpose::STANDARD.decode(text).ok()
}

/// `String::from_utf8`: succeeds exactly on valid UTF-8 and decodes it.
#[verifier::external_body]
fn utf8_string(bytes: Vec<u8>) -> (r: Option<String>)
    ensures
        r is Some <==> vstd::utf8::valid_utf8(bytes@),
        r matches Some(s) ==> s@ == vstd::utf8::decode_utf8(bytes@),
{
    String::from_utf8(bytes).ok()
}

/// A new password must not be blank.
pub fn check_new_password(value: &str) -> (r: AppResult<()>)
    ensures
        trim(value@).len() == 0 ==> (r matches Err(m) && m@ == "密码不能为空。"@),
        trim(value@).len() > 0 ==> r is Ok,
{
    if trim_str(value).len() == 0 {
        Err("密码不能为空。".to_owned())
    } else {
        Ok(())
    }
}

/// The stored text of a protected password.
pub fn encode_protected_password(protected: &[u8]) -> (r: String)
    requires
        encodable_length(protected@.len()),
    ensures
        r@ == base64_standard_encode(protected@),
        forall|i: int| 0 <= i < r@.len() ==> is_base64_char(#[trigger] r@[i]),
        base64_standard_decode(vstd::utf8::encode_utf8(r@)) == Some(protected@),
{
    base64_encode(protected)
}

/// The protected password that stored text holds, read after trimming white space.
pub fn decode_stored_password(value: &str) -> (r: AppResult<Vec<u8>>)
    ensures
        match base64_standard_decode(vstd::utf8::encode_utf8(trim(value@))) {
            Some(bytes) => r matches Ok(v) && v@ == bytes,
            None => r matches Err(m) && m@ == "已保存的密码格式无效，请重新输入。"@,
        },
{
    let trimmed = string_from_chars(&trim_str(value));
    match base64_decode(trimmed.as_str().as_bytes()) {
        Some(bytes) => Ok(bytes),
        None => Err("已保存的密码格式无效，请重新输入。".to_owned()),
    }
}

/// The password text from the unprotected bytes, which must be UTF-8.
pub fn password_from_plaintext(plaintext: Vec<u8>) -> (r: AppResult<String>)
    ensures
        vstd::utf8::valid_utf8(plaintext@) ==> (r matches Ok(s) && s@ == vstd::utf8::decode_utf8(plaintext@)),
        !vstd::utf8::valid_utf8(plaintext@) ==> (r matches Err(m) && m@ == "已保存的密码不是有效的 UTF-8 文本。"@),
{
    match utf8_string(plaintext) {
        Some(text) => Ok(text),
        None => Err("已保存的密码不是有效的 UTF-8 文本。".to_owned()),
    }
}

/// Stored text as written for a protected password (standard Base64 of it) reads back as
/// that password: trimming removes nothing from Base64 text.
pub proof fn law_stored_password_round_trip(text: Seq<char>, protected: Seq<u8>)
    requires
        forall|i: int| 0 <= i < text.len() ==> is_base64_char(#[trigger] text[i]),
        base64_standard_decode(vstd::utf8::encode_utf8(text)) == Some(protected),
    ensures
        base64_standard_decode(vstd::utf8::encode_utf8(trim(text))) == Some(protected),
{
    if text.len() > 0 {
        assert(is_base64_char(text[0]));
        assert(is_base64_char(text.last()));
    }
    crate::text::lemma_trim_start_fixed(text);
    crate::text::lemma_trim_end_fixed(text);
}

/// The password's own step of the round trip: the UTF-8 bytes of any password are valid
/// UTF-8 and read back as that password (what `password_from_plaintext` returns for the bytes
/// that were protected), and the stored text of the protected bytes reads back as those bytes
/// (what `decode_stored_password` returns).
pub proof fn law_password_storage_round_trip(password: Seq<char>, text: Seq<char>, protected: Seq<u8>)
    requires
        forall|i: int| 0 <= i < text.len() ==> is_base64_char(#[trigger] text[i]),
        base64_standard_decode(vstd::utf8::encode_utf8(text)) == Some(protected),
    ensures
        vstd::utf8::valid_utf8(vstd::utf8::encode_utf8(password)),
        vstd::utf8::decode_utf8(vstd::utf8::encode_utf8(password)) == password,
        base64_standard_decode(vstd::utf8::encode_utf8(trim(text))) == Some(protected),
{
    vstd::utf8::encode_utf8_valid_utf8(password);
    vstd::utf8::encode_utf8_decode_utf8(password);
    law_stored_password_round_trip(text, protected);
}

} // verus!
