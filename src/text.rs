//! Base64 armour of gRPC-Web text mode, from the `base64` crate.
use vstd::prelude::*;

verus! {

/// The padded standard base64 text of `b`.
pub uninterp spec fn base64_text(b: Seq<u8>) -> Seq<u8>;

/// The bytes that standard base64 text `s` stands for, or `None` where `s`
/// is not valid base64.
pub uninterp spec fn base64_bytes(s: Seq<u8>) -> Option<Seq<u8>>;

/// Whether the base64 text of `b` decodes back to `b`, has the padded
/// length (four symbols for each started group of three bytes) and holds
/// base64 symbols only.
pub open spec fn text_decodes(b: Seq<u8>) -> bool {
    &&& base64_bytes(base64_text(b)) == Some(b)
    &&& base64_text(b).len() == 4 * ((b.len() + 2) / 3)
    &&& forall|i: int| 0 <= i < base64_text(b).len() ==> is_base64_symbol(#[trigger] base64_text(b)[i])
}

/// A symbol of standard base64 text: `A`-`Z`, `a`-`z`, `0`-`9`, `+`, `/`,
/// or the padding `=`.
pub open spec fn is_base64_symbol(c: u8) -> bool {
    (65 <= c <= 90) || (97 <= c <= 122) || (48 <= c <= 57) || c == 43 || c == 47 || c == 61
}

/// Whether `s` holds a byte that no base64 text can hold.
pub open spec fn has_non_base64_byte(s: Seq<u8>) -> bool {
    exists|i: int| 0 <= i < s.len() && !is_base64_symbol(#[trigger] s[i])
}

#[verifier::external_type_specification]
#[verifier::external_body]
pub struct ExBase64DecodeError(base64::DecodeError);

/// Relies on `base64::encode`: the standard alphabet with padding, four
/// symbols for each started group of three bytes, all of the alphabet or
/// padding, which `base64::decode` takes back to the input.
#[verifier::external_body]
pub(crate) fn encode_base64(b: &[u8]) -> (r: Vec<u8>)
    ensures
        r@ == base64_text(b@),
        r@.len() == 4 * ((b@.len() + 2) / 3),
        base64_bytes(r@) == Some(b@),
        forall|i: int| 0 <= i < r@.len() ==> is_base64_symbol(#[trigger] r@[i]),
{
    base64::encode(b).into_bytes()
}

/// Relies on `base64::decode` with the standard alphabet: it refuses every
/// byte that is neither a digit of the alphabet nor padding.
#[verifier::external_body]
pub(crate) fn decode_base64(s: &[u8]) -> (r: Result<Vec<u8>, base64::DecodeError>)
    ensures
        match r {
            Ok(v) => base64_bytes(s@) == Some(v@),
            Err(_) => base64_bytes(s@) is None,
        },
        has_non_base64_byte(s@) ==> r is Err,
{
    base64::decode(s)
}

} // verus!
