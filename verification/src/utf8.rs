//! Text values: the step from the bytes of a datagram to characters.

use crate::error::{BrowserProtocolError, TextDecodeError};
use vstd::prelude::*;
use vstd::string::*;
use vstd::utf8::{decode_utf8, valid_utf8};

verus! {

/// Whether the first `n` bytes are the longest prefix of `bytes` that is
/// well-formed UTF-8.
pub open spec fn is_valid_up_to(bytes: Seq<u8>, n: int) -> bool {
    &&& 0 <= n <= bytes.len()
    &&& valid_utf8(bytes.subrange(0, n))
    &&& forall|m: int| n < m <= bytes.len() ==> !valid_utf8(#[trigger] bytes.subrange(0, m))
}

/// The length of the longest prefix of `bytes` that is well-formed UTF-8.
pub open spec fn valid_up_to(bytes: Seq<u8>) -> int {
    choose|n: int| is_valid_up_to(bytes, n)
}

/// The length that `core::str::Utf8Error::error_len` reports for bytes that
/// are not well-formed UTF-8: that of the byte sequence which is at fault,
/// or `None` where the bytes end in the middle of a character.
pub uninterp spec fn utf8_error_len(bytes: Seq<u8>) -> Option<usize>;

/// No two lengths are both that of the longest well-formed prefix.
pub proof fn lemma_valid_up_to_unique(bytes: Seq<u8>, n: int)
    requires
        is_valid_up_to(bytes, n),
    ensures
        valid_up_to(bytes) == n,
{
    let m = valid_up_to(bytes);
    assert(is_valid_up_to(bytes, m));
    if m < n {
        assert(!valid_utf8(bytes.subrange(0, n)));
    }
    if n < m {
        assert(!valid_utf8(bytes.subrange(0, m)));
    }
}

/// Below any length above which no prefix is well-formed there is the
/// longest well-formed prefix.
proof fn lemma_longest_valid_prefix(bytes: Seq<u8>, n: int) -> (k: int)
    requires
        0 <= n <= bytes.len(),
        forall|m: int| n < m <= bytes.len() ==> !valid_utf8(#[trigger] bytes.subrange(0, m)),
    ensures
        is_valid_up_to(bytes, k),
    decreases n,
{
    if valid_utf8(bytes.subrange(0, n)) {
        n
    } else {
        assert(n > 0) by {
            if n == 0 {
                assert(bytes.subrange(0, 0).len() == 0);
            }
        }
        lemma_longest_valid_prefix(bytes, n - 1)
    }
}

/// Every sequence of bytes has a longest prefix that is well-formed UTF-8,
/// and it is shorter than the sequence where the sequence is not
/// well-formed.
pub proof fn lemma_valid_up_to_exists(bytes: Seq<u8>)
    ensures
        is_valid_up_to(bytes, valid_up_to(bytes)),
        !valid_utf8(bytes) ==> valid_up_to(bytes) < bytes.len(),
{
    let k = lemma_longest_valid_prefix(bytes, bytes.len() as int);
    lemma_valid_up_to_unique(bytes, k);
    assert(bytes.subrange(0, bytes.len() as int) =~= bytes);
}

/// Calls `core::str::from_utf8` on `bytes`. On success the text is the
/// decoding of the bytes. On failure the bytes are not well-formed UTF-8, the
/// offset is what `Utf8Error::valid_up_to` reports, which std documents as
/// the greatest length of a prefix that is well-formed, and the length is
/// what `Utf8Error::error_len` reports, which is only given a name here.
#[verifier::external_body]
pub(crate) fn str_from_utf8<'a>(bytes: &'a [u8]) -> (r: Result<&'a str, TextDecodeError>)
    ensures
        match r {
            Ok(s) => valid_utf8(bytes@) && s@ == decode_utf8(bytes@),
            Err(e) => !valid_utf8(bytes@) && is_valid_up_to(bytes@, e.offset as int)
                && e.invalid_len == utf8_error_len(bytes@),
        },
{
    match core::str::from_utf8(bytes) {
        Ok(s) => Ok(s),
        Err(e) => Err(TextDecodeError { offset: e.valid_up_to(), invalid_len: e.error_len() }),
    }
}

/// What decoding the bytes `raw`, which stand at `start` in a datagram,
/// gives: their text, or where in the datagram they stop being text.
pub open spec fn decoded_text(raw: Seq<u8>, start: int) -> Result<Seq<char>, TextDecodeError> {
    if valid_utf8(raw) {
        Ok(decode_utf8(raw))
    } else {
        Err(
            TextDecodeError {
                offset: (start + valid_up_to(raw)) as usize,
                invalid_len: utf8_error_len(raw),
            },
        )
    }
}

/// Turns the outcome of decoding a value that stands at `start` in a
/// datagram into the value's text, or into the error that says where in the
/// datagram the value stops being text.
pub fn text_at(outcome: Result<&str, TextDecodeError>, start: usize) -> (r: Result<
    String,
    BrowserProtocolError,
>)
    requires
        outcome is Err ==> start + outcome->Err_0.offset <= usize::MAX,
    ensures
        match outcome {
            Ok(s) => r is Ok && r->Ok_0@ == s@,
            Err(e) => r is Err && r->Err_0 == BrowserProtocolError::InvalidUtf8(
                TextDecodeError { offset: (start + e.offset) as usize, invalid_len: e.invalid_len },
            ),
        },
{
    match outcome {
        Ok(s) => Ok(String::from_str(s)),
        Err(e) => Err(
            BrowserProtocolError::InvalidUtf8(
                TextDecodeError { offset: start + e.offset, invalid_len: e.invalid_len },
            ),
        ),
    }
}

} // verus!
