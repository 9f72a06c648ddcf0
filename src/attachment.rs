//! Attachments: a data-URI-style string `<metadata>,<base64 payload>`
//! turned into the bytes that are to be written.

use vstd::prelude::*;

verus! {

/// The error of `base64::Engine::decode`, carried through opaquely.
#[verifier::external_type_specification]
#[verifier::external_body]
pub struct ExBase64DecodeError(base64::DecodeError);

/// Why an attachment could not be prepared.
#[derive(PartialEq, Eq, Structural, Clone, Copy, Debug)]
pub enum AttachmentError {
    /// The attachment has no comma before its payload.
    MalformedDataUri,
    /// The payload is not valid standard base64.
    InvalidBase64,
    /// A file message carries an attachment but no destination path.
    MissingPath,
}

/// `i` is the position of the first comma of `s`.
pub open spec fn is_first_comma(s: Seq<char>, i: int) -> bool {
    &&& 0 <= i < s.len()
    &&& s[i] == ','
    &&& forall|j: int| 0 <= j < i ==> s[j] != ','
}

/// What follows the first comma of `s`, if it has one.
pub open spec fn payload_spec(s: Seq<char>) -> Option<Seq<char>> {
    if exists|i: int| is_first_comma(s, i) {
        let i = choose|i: int| is_first_comma(s, i);
        Some(s.subrange(i + 1, s.len() as int))
    } else {
        None
    }
}

/// The bytes that standard base64 (with padding) decodes `s` to, if it is
/// valid.
pub uninterp spec fn base64_decoded_of(s: Seq<char>) -> Option<Seq<u8>>;

/// The bytes that the attachment `data` holds.
pub open spec fn attachment_spec(data: Seq<char>) -> Result<Seq<u8>, AttachmentError> {
    match payload_spec(data) {
        None => Err(AttachmentError::MalformedDataUri),
        Some(p) => match base64_decoded_of(p) {
            None => Err(AttachmentError::InvalidBase64),
            Some(b) => Ok(b),
        },
    }
}

pub proof fn lemma_first_comma_unique(s: Seq<char>, i: int, k: int)
    requires
        is_first_comma(s, i),
        is_first_comma(s, k),
    ensures
        i == k,
{
    if i < k {
        assert(s[i] != ',');
    } else if k < i {
        assert(s[k] != ',');
    }
}

/// Relies on `base64::Engine::decode` of the `STANDARD` engine: the decoded
/// bytes, or the decoding error.
#[verifier::external_body]
fn base64_decode(s: &str) -> (r: Result<Vec<u8>, base64::DecodeError>)
    ensures
        match r {
            Ok(v) => base64_decoded_of(s@) == Some(v@),
            Err(_) => base64_decoded_of(s@) is None,
        },
{
    base64::Engine::decode(&base64::engine::general_purpose::STANDARD, s)
}

/// The part of `data` after its first comma.
pub fn split_payload(data: &str) -> (r: Option<&str>)
    ensures
        match r {
            Some(p) => payload_spec(data@) == Some(p@),
            None => payload_spec(data@) is None,
        },
{
    let n = data.unicode_len();
    let mut i: usize = 0;
    while i < n
        invariant
            i <= n,
            n == data@.len(),
            forall|j: int| 0 <= j < i ==> data@[j] != ',',
        decreases n - i,
    {
        if data.get_char(i) == ',' {
            proof {
                assert(is_first_comma(data@, i as int));
                let k = choose|k: int| is_first_comma(data@, k);
                lemma_first_comma_unique(data@, i as int, k);
            }
            return Some(data.substring_char(i + 1, n));
        }
        i += 1;
    }
    None
}

/// Decodes the attachment `data`: the base64 payload after its first comma.
/// What stands before the comma is not read.
pub fn decode_attachment(data: &str) -> (r: Result<Vec<u8>, AttachmentError>)
    ensures
        match r {
            Ok(b) => attachment_spec(data@) == Ok::<Seq<u8>, AttachmentError>(b@),
            Err(e) => attachment_spec(data@) == Err::<Seq<u8>, AttachmentError>(e),
        },
{
    match split_payload(data) {
        None => Err(AttachmentError::MalformedDataUri),
        Some(p) => match base64_decode(p) {
            Ok(b) => Ok(b),
            Err(_) => Err(AttachmentError::InvalidBase64),
        },
    }
}

} // verus!
