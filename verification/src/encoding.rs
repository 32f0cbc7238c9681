//! Bytes written as text in base64.

use base64::Engine;
use vstd::prelude::*;

verus! {

/// The error of base64's decoder.
#[verifier::external_type_specification]
#[verifier::external_body]
pub struct ExDecodeError(base64::DecodeError);

/// How `BASE64_STANDARD.encode` writes bytes.
pub uninterp spec fn base64_of(bytes: Seq<u8>) -> Seq<char>;

/// What `BASE64_STANDARD.decode` reads a text as.
pub uninterp spec fn base64_bytes(text: Seq<char>) -> Option<Seq<u8>>;

/// The text for the bytes, four characters for each three, can be held in memory.
pub open spec fn can_encode(bytes: Seq<u8>) -> bool {
    (bytes.len() + 2) / 3 * 4 <= isize::MAX
}

/// `BASE64_STANDARD.encode`: the text for the bytes, which is read back as those bytes.
#[verifier::external_body]
pub(crate) fn encoded(bytes: &[u8]) -> (r: String)
    requires
        can_encode(bytes@),
    ensures
        r@ == base64_of(bytes@),
        base64_bytes(r@) == Some(bytes@),
{
    base64::prelude::BASE64_STANDARD.encode(bytes)
}

/// `BASE64_STANDARD.decode`: the bytes that a text stands for.
#[verifier::external_body]
fn decoded(text: &str) -> (r: Result<Vec<u8>, base64::DecodeError>)
    ensures
        match r {
            Ok(bytes) => base64_bytes(text@) == Some(bytes@),
            Err(_) => base64_bytes(text@) is None,
        },
{
    base64::prelude::BASE64_STANDARD.decode(text)
}

/// Whether the text for so many bytes can be held in memory.
pub fn fits_in_memory(bytes: &[u8]) -> (r: bool)
    ensures
        r == can_encode(bytes@),
{
    let n: usize = bytes.len();
    let triples: usize = if n % 3 == 0 {
        n / 3
    } else {
        n / 3 + 1
    };
    triples <= isize::MAX as usize / 4
}

/// The file that a page has handed over in base64.
pub fn save_as(data: &str) -> (r: Result<Vec<u8>, base64::DecodeError>)
    ensures
        match r {
            Ok(bytes) => base64_bytes(data@) == Some(bytes@),
            Err(_) => base64_bytes(data@) is None,
        },
{
    decoded(data)
}

} // verus!
