//! From captured bytes to text. Bytes that are not UTF-8 never stop a run: they are
//! replaced.

use vstd::prelude::*;
use vstd::utf8::{decode_utf8, valid_utf8};

verus! {

/// The text that std's lossy decoding makes of `bytes`: every maximal ill-formed piece
/// gives way to U+FFFD, the rest is decoded as it stands.
pub uninterp spec fn lossy_text(bytes: Seq<u8>) -> Seq<char>;

/// The text of `bytes`: what they encode where they are well-formed UTF-8, and the
/// lossy text otherwise.
pub open spec fn decoded(bytes: Seq<u8>) -> Seq<char> {
    if valid_utf8(bytes) {
        decode_utf8(bytes)
    } else {
        lossy_text(bytes)
    }
}

/// Calls `String::from_utf8_lossy` and takes the result as an owned string.
///
/// Trusted: the result is the lossy text of `bytes`, and for well-formed UTF-8 it is the
/// very text that the bytes encode, as std documents.
#[verifier::external_body]
fn from_utf8_lossy(bytes: &[u8]) -> (text: String)
    ensures
        text@ == lossy_text(bytes@),
        valid_utf8(bytes@) ==> text@ == decode_utf8(bytes@),
{
    String::from_utf8_lossy(bytes).into_owned()
}

/// The text of `bytes`, with U+FFFD wherever they are not UTF-8.
pub fn decode(bytes: &[u8]) -> (text: String)
    ensures
        text@ == decoded(bytes@),
{
    from_utf8_lossy(bytes)
}

/// No bytes, no text.
pub proof fn lemma_decoded_empty()
    ensures
        decoded(Seq::<u8>::empty()) == Seq::<char>::empty(),
{
    reveal_with_fuel(valid_utf8, 1);
    reveal_with_fuel(decode_utf8, 1);
}

} // verus!
