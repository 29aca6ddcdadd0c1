//! The document store's text codec.
//!
//! Document contents travel between the library and the filesystem as raw
//! bytes.  Saving encodes the content as UTF-8; opening decodes strictly,
//! failing on bytes that are not valid text instead of decoding them
//! lossily.  Both directions are pinned to the UTF-8 specification, so that
//! a save followed by an open returns the content exactly.

use vstd::prelude::*;
use vstd::utf8::{valid_utf8, decode_utf8, encode_utf8};

verus! {

/// Why decoding a document's bytes failed.
#[derive(Debug, PartialEq, Eq, Structural)]
pub enum EncodingError {
    /// The bytes are not a valid UTF-8 encoding of text.
    NotText,
}

/// Relies on `String::from_utf8`: it returns `Ok` exactly when the bytes
/// are a valid UTF-8 encoding, and then the string is their decoding.
#[verifier::external_body]
fn string_from_utf8(bytes: Vec<u8>) -> (r: Option<String>)
    ensures
        r is Some <==> valid_utf8(bytes@),
        r matches Some(s) ==> s@ == decode_utf8(bytes@),
{
    match String::from_utf8(bytes) {
        Ok(s) => Some(s),
        Err(_) => None,
    }
}

/// Strictly decodes the bytes read from a document file: the content
/// exactly when the bytes are valid text, an error otherwise.
pub fn document_from_bytes(bytes: Vec<u8>) -> (r: Result<String, EncodingError>)
    ensures
        valid_utf8(bytes@) ==> (r matches Ok(s) && s@ == decode_utf8(bytes@)),
        !valid_utf8(bytes@) ==> r == Err::<String, EncodingError>(EncodingError::NotText),
{
    match string_from_utf8(bytes) {
        Some(s) => Ok(s),
        None => Err(EncodingError::NotText),
    }
}

/// The bytes that saving a document writes: the UTF-8 encoding of the
/// content, in full, replacing anything the file held before.
pub fn document_to_bytes(content: &str) -> (r: Vec<u8>)
    ensures
        r@ == encode_utf8(content@),
{
    content.as_bytes_vec()
}

/// The round-trip law: the bytes written for any content are valid text
/// and decode back to that content exactly, so saving a document and then
/// opening it returns what was saved, provided the file hands back the
/// bytes that were written.
pub proof fn lemma_document_round_trip(content: Seq<char>)
    ensures
        valid_utf8(encode_utf8(content)),
        decode_utf8(encode_utf8(content)) == content,
{
    vstd::utf8::encode_utf8_valid_utf8(content);
    vstd::utf8::encode_utf8_decode_utf8(content);
}

} // verus!
