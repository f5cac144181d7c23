//! Content objects and their identifiers.

use crate::number::{hex, hex_text, is_hex_digit, lemma_hex_digits};
use crate::text::chars_of;
use crate::versioned_fs::error::{FsError, FsErrorView};
use vstd::prelude::*;

verus! {

/// The SHA-256 digest of a message.
pub uninterp spec fn sha256(message: Seq<u8>) -> Seq<u8>;

/// `Sha256::digest`: the digest depends on the message alone and is 32 bytes long.
#[verifier::external_body]
fn sha256_digest(message: &[u8]) -> (digest: Vec<u8>)
    ensures
        digest@ == sha256(message@),
        digest@.len() == 32,
{
    <sha2::Sha256 as sha2::Digest>::digest(message).to_vec()
}

/// The identifier of some content: its SHA-256 digest in hexadecimal.
pub open spec fn content_id_of(bytes: Seq<u8>) -> Seq<char> {
    hex(sha256(bytes))
}

/// The text is 64 hexadecimal digits.
pub open spec fn is_content_id(text: Seq<char>) -> bool {
    text.len() == 64 && forall|i: int| 0 <= i < text.len() ==> is_hex_digit(#[trigger] text[i])
}

/// The identifier of some content.
pub fn content_id(bytes: &[u8]) -> (id: String)
    ensures
        id@ == content_id_of(bytes@),
        is_content_id(id@),
{
    let digest = sha256_digest(bytes);
    proof {
        lemma_hex_digits(digest@);
    }
    hex_text(digest.as_slice())
}

/// Accepts the texts that can name an object.
pub fn validate_content_id(value: &str) -> (result: Result<(), FsError>)
    ensures
        match result {
            Ok(_) => is_content_id(value@),
            Err(e) => !is_content_id(value@) && e@ == FsErrorView::InvalidContentId(value@),
        },
{
    let chars = chars_of(value);
    if chars.len() != 64 {
        return Err(FsError::InvalidContentId(value.to_string()));
    }
    for i in 0..chars.len()
        invariant
            chars@ == value@,
            forall|j: int| 0 <= j < i ==> is_hex_digit(#[trigger] value@[j]),
    {
        let c: char = chars[i];
        if !(('0' <= c && c <= '9') || ('a' <= c && c <= 'f') || ('A' <= c && c <= 'F')) {
            assert(!is_hex_digit(value@[i as int]));
            return Err(FsError::InvalidContentId(value.to_string()));
        }
    }
    Ok(())
}

} // verus!
