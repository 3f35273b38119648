use vstd::prelude::*;

verus! {

/// `ascii::AsciiString`, the growable ASCII string that holds a text pool. Nothing
/// is known of a value but what the items below say.
#[verifier::external_type_specification]
#[verifier::external_body]
pub struct ExAsciiString(ascii::AsciiString);

/// `ascii::FromAsciiError`, the error of `AsciiString::from_ascii`. It is only
/// passed on.
#[verifier::external_type_specification]
#[verifier::external_body]
#[verifier::reject_recursive_types(O)]
pub struct ExFromAsciiError<O>(ascii::FromAsciiError<O>);

/// The bytes that an ASCII string holds, first to last.
pub uninterp spec fn pool_bytes(text: ascii::AsciiString) -> Seq<u8>;

/// True when every byte of `bytes` is 7-bit ASCII.
pub open spec fn is_ascii_bytes(bytes: Seq<u8>) -> bool {
    forall|i: int| 0 <= i < bytes.len() ==> bytes[i] < 128
}

/// `AsciiString::new` makes a string that holds no byte.
pub assume_specification[ ascii::AsciiString::new ]() -> (text: ascii::AsciiString)
    ensures
        pool_bytes(text) == Seq::<u8>::empty(),
;

/// `AsciiString::len` is the number of bytes that the string holds.
pub assume_specification[ ascii::AsciiString::len ](text: &ascii::AsciiString) -> (n: usize)
    ensures
        n == pool_bytes(*text).len(),
;

/// The `Clone` of `AsciiString`, which the crate derives, copies the buffer: the copy
/// holds the same bytes.
pub assume_specification[ <ascii::AsciiString as Clone>::clone ](
    text: &ascii::AsciiString,
) -> (copy: ascii::AsciiString)
    ensures
        pool_bytes(copy) == pool_bytes(*text),
;

/// `AsciiString::from_ascii` on a vector of bytes: it succeeds exactly when every byte
/// is below 128, and the string then holds the bytes as they were given.
#[verifier::external_body]
pub(crate) fn pool_from_bytes(bytes: Vec<u8>) -> (made: Result<
    ascii::AsciiString,
    ascii::FromAsciiError<Vec<u8>>,
>)
    ensures
        made is Ok <==> is_ascii_bytes(bytes@),
        made matches Ok(text) ==> pool_bytes(text) == bytes@,
{
    ascii::AsciiString::from_ascii(bytes)
}

/// `AsciiString::push_str`: the bytes of `more` are added behind those of `pool`.
#[verifier::external_body]
pub(crate) fn pool_append(pool: &mut ascii::AsciiString, more: &ascii::AsciiString)
    ensures
        pool_bytes(*final(pool)) == pool_bytes(*old(pool)) + pool_bytes(*more),
{
    pool.push_str(more)
}

/// `AsciiStr::as_bytes`, reached through the string: the bytes that it holds, as a slice.
#[verifier::external_body]
pub(crate) fn pool_as_bytes(pool: &ascii::AsciiString) -> (bytes: &[u8])
    ensures
        bytes@ == pool_bytes(*pool),
{
    pool.as_bytes()
}

} // verus!
