//! From the bytes of one read to the payload of a record.

use vstd::prelude::*;
use vstd::slice::slice_subrange;
use vstd::utf8::{decode_utf8, valid_utf8};

verus! {

/// The most that is kept of what a peer sends: the size of the one read.
pub const BUFFER_SIZE: usize = 1024;

/// The text that lossy decoding makes of `bytes`: the text itself where the
/// bytes are UTF-8, and otherwise the text with U+FFFD in place of what is not.
pub uninterp spec fn utf8_lossy(bytes: Seq<u8>) -> Seq<char>;

/// `String::from_utf8_lossy`, as an owned string. The result depends on the
/// bytes alone. Bytes that are UTF-8 give the text they encode; bytes that are
/// not give a text that holds U+FFFD, the replacement character. Every
/// character of the result stands for one byte or more, so there are no more
/// characters than bytes.
#[verifier::external_body]
pub(crate) fn decode_lossy(bytes: &[u8]) -> (text: String)
    ensures
        text@ == utf8_lossy(bytes@),
        text@.len() <= bytes@.len(),
        valid_utf8(bytes@) ==> text@ == decode_utf8(bytes@),
        !valid_utf8(bytes@) ==> text@.contains('\u{FFFD}'),
{
    String::from_utf8_lossy(bytes).into_owned()
}

/// What is kept of the bytes that a read handed over: all of them, or the
/// first `BUFFER_SIZE` where there are more.
pub open spec fn captured(received: Seq<u8>) -> Seq<u8> {
    if received.len() <= BUFFER_SIZE {
        received
    } else {
        received.take(BUFFER_SIZE as int)
    }
}

/// The payload of a record for what a read handed over: nothing for nothing,
/// and otherwise the kept bytes, decoded lossily.
pub open spec fn payload_text(received: Seq<u8>) -> Seq<char> {
    if received.len() == 0 {
        Seq::empty()
    } else {
        utf8_lossy(captured(received))
    }
}

/// What is kept is never more than `BUFFER_SIZE` bytes: the bytes as they
/// came where they are no more than that, and otherwise their beginning.
pub proof fn lemma_captured_bounded(received: Seq<u8>)
    ensures
        captured(received).len() <= BUFFER_SIZE,
        captured(received).is_prefix_of(received),
        received.len() <= BUFFER_SIZE ==> captured(received) == received,
        received.len() > BUFFER_SIZE ==> captured(received).len() == BUFFER_SIZE,
{
}

/// The part of `received` that is kept.
pub fn capture(received: &[u8]) -> (kept: &[u8])
    ensures
        kept@ == captured(received@),
        kept@.len() <= BUFFER_SIZE,
        kept@.is_prefix_of(received@),
{
    if received.len() <= BUFFER_SIZE {
        received
    } else {
        slice_subrange(received, 0, BUFFER_SIZE)
    }
}

/// The payload for what a read handed over. Decoding never fails: bytes that
/// are no text come out as replacement characters. The payload has no more
/// characters than bytes were kept, and so no more than `BUFFER_SIZE`.
pub fn decode_payload(received: &[u8]) -> (data: String)
    ensures
        data@ == payload_text(received@),
        received@.len() == 0 ==> data@.len() == 0,
        data@.len() <= captured(received@).len() <= BUFFER_SIZE,
        valid_utf8(captured(received@)) ==> data@ == decode_utf8(captured(received@)),
        !valid_utf8(captured(received@)) ==> data@.contains('\u{FFFD}'),
{
    if received.len() == 0 {
        String::new()
    } else {
        decode_lossy(capture(received))
    }
}

} // verus!
