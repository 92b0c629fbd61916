use vstd::prelude::*;
use vstd::string::StrSliceExecFns;
use vstd::utf8::encode_utf8;
use vstd::utf8::decode_utf8;
use vstd::utf8::valid_utf8;
use vstd::utf8::encode_utf8_decode_utf8;
use vstd::utf8::decode_utf8_encode_utf8;
use crate::MsgView;
use crate::ProcessingResult;

verus! {

// The wire format of one message body. The first byte names the variant, the
// remaining bytes carry the variant's payload: raw bytes for an in-progress
// request, UTF-8 text for a terminal outcome. A deployment speaks this format
// on both queues; anything else is rejected as a protocol mismatch.
pub const TAG_IN_PROGRESS_DATA: u8 = 73;

pub const TAG_IN_PROGRESS_EMPTY: u8 = 78;

pub const TAG_SUCCESS: u8 = 83;

pub const TAG_FAILURE: u8 = 70;

/// Why a message body was rejected as not being of the wire format.
#[derive(Clone, Copy, Debug, PartialEq, Eq, Structural)]
pub enum CodecError {
    EmptyPayload,
    UnknownTag,
    StrayPayload,
    InvalidText,
}

/// The one byte sequence that stands for a given message.
pub open spec fn encoded_msg(m: MsgView) -> Seq<u8> {
    match m {
        MsgView::InProgress(Some(p)) => seq![TAG_IN_PROGRESS_DATA] + p,
        MsgView::InProgress(None) => seq![TAG_IN_PROGRESS_EMPTY],
        MsgView::Success(t) => seq![TAG_SUCCESS] + encode_utf8(t),
        MsgView::Failure(t) => seq![TAG_FAILURE] + encode_utf8(t),
    }
}

/// No two distinct messages share an encoding.
pub proof fn lemma_encoded_msg_injective(a: MsgView, b: MsgView)
    requires
        encoded_msg(a) == encoded_msg(b),
    ensures
        a =~= b,
{
    broadcast use encode_utf8_decode_utf8;

    let ea = encoded_msg(a);
    let eb = encoded_msg(b);
    assert(ea[0] == eb[0]);
    match (a, b) {
        (MsgView::InProgress(Some(p)), MsgView::InProgress(Some(q))) => {
            assert(p =~= ea.skip(1));
            assert(q =~= eb.skip(1));
            assert(a =~= b);
        },
        (MsgView::InProgress(None), MsgView::InProgress(None)) => {
            assert(a =~= b);
        },
        (MsgView::Success(s), MsgView::Success(t)) => {
            assert(encode_utf8(s) =~= ea.skip(1));
            assert(encode_utf8(t) =~= eb.skip(1));
            assert(s == decode_utf8(encode_utf8(s)));
            assert(t == decode_utf8(encode_utf8(t)));
            assert(a =~= b);
        },
        (MsgView::Failure(s), MsgView::Failure(t)) => {
            assert(encode_utf8(s) =~= ea.skip(1));
            assert(encode_utf8(t) =~= eb.skip(1));
            assert(s == decode_utf8(encode_utf8(s)));
            assert(t == decode_utf8(encode_utf8(t)));
            assert(a =~= b);
        },
        _ => {
            assert(ea[0] == tag_of(a) && eb[0] == tag_of(b));
            assert(false);
        },
    }
}

/// The leading byte of a message's encoding.
pub open spec fn tag_of(m: MsgView) -> u8 {
    match m {
        MsgView::InProgress(Some(_)) => TAG_IN_PROGRESS_DATA,
        MsgView::InProgress(None) => TAG_IN_PROGRESS_EMPTY,
        MsgView::Success(_) => TAG_SUCCESS,
        MsgView::Failure(_) => TAG_FAILURE,
    }
}

/// Relies on `String::from_utf8`: it returns `Ok` exactly on valid UTF-8
/// input and then yields the string those bytes encode.
#[verifier::external_body]
fn bytes_to_string(bytes: Vec<u8>) -> (r: Option<String>)
    ensures
        r is Some <==> valid_utf8(bytes@),
        r matches Some(s) ==> s@ == decode_utf8(bytes@),
{
    String::from_utf8(bytes).ok()
}

/// Serialize a message for the broker.
pub fn encode_envelope(m: &ProcessingResult) -> (r: Vec<u8>)
    ensures
        r@ == encoded_msg(m@),
{
    let mut out: Vec<u8> = Vec::new();
    match m {
        ProcessingResult::InProgress(Some(p)) => {
            out.push(TAG_IN_PROGRESS_DATA);
            out.extend_from_slice(p.as_slice());
            assert(out@ =~= encoded_msg(m@));
        },
        ProcessingResult::InProgress(None) => {
            out.push(TAG_IN_PROGRESS_EMPTY);
            assert(out@ =~= encoded_msg(m@));
        },
        ProcessingResult::Success(t) => {
            out.push(TAG_SUCCESS);
            let bytes = t.as_str().as_bytes_vec();
            out.extend_from_slice(bytes.as_slice());
            assert(out@ =~= encoded_msg(m@));
        },
        ProcessingResult::Failure(t) => {
            out.push(TAG_FAILURE);
            let bytes = t.as_str().as_bytes_vec();
            out.extend_from_slice(bytes.as_slice());
            assert(out@ =~= encoded_msg(m@));
        },
    }
    out
}

/// Parse a message body. `Ok` is returned exactly when the bytes are the
/// encoding of some message, and then of the unique such message; otherwise
/// the error says how the bytes depart from the wire format.
pub fn decode_envelope(bytes: &Vec<u8>) -> (r: Result<ProcessingResult, CodecError>)
    ensures
        r matches Ok(m) ==> bytes@ == encoded_msg(m@),
        r matches Ok(m) ==> forall|m2: MsgView| bytes@ == encoded_msg(m2) ==> m2 =~= m@,
        r is Ok <==> exists|m: MsgView| bytes@ == encoded_msg(m),
        r == Err::<ProcessingResult, CodecError>(CodecError::EmptyPayload) <==> bytes@.len() == 0,
        r == Err::<ProcessingResult, CodecError>(CodecError::UnknownTag) <==> (bytes@.len() > 0
            && bytes@[0] != TAG_IN_PROGRESS_DATA && bytes@[0] != TAG_IN_PROGRESS_EMPTY
            && bytes@[0] != TAG_SUCCESS && bytes@[0] != TAG_FAILURE),
        r == Err::<ProcessingResult, CodecError>(CodecError::StrayPayload) <==> (bytes@.len() > 1
            && bytes@[0] == TAG_IN_PROGRESS_EMPTY),
        r == Err::<ProcessingResult, CodecError>(CodecError::InvalidText) <==> (bytes@.len() > 0
            && (bytes@[0] == TAG_SUCCESS || bytes@[0] == TAG_FAILURE) && !valid_utf8(
            bytes@.skip(1))),
{
    broadcast use decode_utf8_encode_utf8;

    if bytes.len() == 0 {
        assert(forall|m: MsgView| encoded_msg(m).len() > 0);
        return Err(CodecError::EmptyPayload);
    }
    let tag = bytes[0];
    let mut rest: Vec<u8> = Vec::new();
    let mut i: usize = 1;
    while i < bytes.len()
        invariant
            1 <= i <= bytes@.len(),
            rest@ == bytes@.subrange(1, i as int),
        decreases bytes@.len() - i,
    {
        rest.push(bytes[i]);
        i = i + 1;
    }
    assert(rest@ =~= bytes@.skip(1));
    if tag == TAG_IN_PROGRESS_DATA {
        let m = ProcessingResult::InProgress(Some(rest));
        assert(bytes@ =~= encoded_msg(m@));
        proof {
            lemma_only_encoding(bytes@, m@);
        }
        Ok(m)
    } else if tag == TAG_IN_PROGRESS_EMPTY {
        if rest.len() > 0 {
            assert forall|m: MsgView| bytes@ != encoded_msg(m) by {
                lemma_stray_not_encoding(bytes@, m);
            }
            return Err(CodecError::StrayPayload);
        }
        let m = ProcessingResult::InProgress(None);
        assert(bytes@ =~= encoded_msg(m@));
        proof {
            lemma_only_encoding(bytes@, m@);
        }
        Ok(m)
    } else if tag == TAG_SUCCESS || tag == TAG_FAILURE {
        let ghost gtag = tag;
        match bytes_to_string(rest) {
            Some(text) => {
                let m = if tag == TAG_SUCCESS {
                    ProcessingResult::Success(text)
                } else {
                    ProcessingResult::Failure(text)
                };
                assert(bytes@ =~= encoded_msg(m@)) by {
                    assert(encode_utf8(decode_utf8(bytes@.skip(1))) == bytes@.skip(1));
                }
                proof {
                    lemma_only_encoding(bytes@, m@);
                }
                Ok(m)
            },
            None => {
                assert forall|m: MsgView| bytes@ != encoded_msg(m) by {
                    lemma_bad_text_not_encoding(bytes@, m);
                }
                Err(CodecError::InvalidText)
            },
        }
    } else {
        assert forall|m: MsgView| bytes@ != encoded_msg(m) by {
            lemma_unknown_tag_not_encoding(bytes@, m);
        }
        Err(CodecError::UnknownTag)
    }
}

/// A byte sequence that encodes `m` encodes nothing else.
proof fn lemma_only_encoding(bytes: Seq<u8>, m: MsgView)
    requires
        bytes == encoded_msg(m),
    ensures
        forall|m2: MsgView| bytes == encoded_msg(m2) ==> m2 =~= m,
{
    assert forall|m2: MsgView| bytes == encoded_msg(m2) implies m2 =~= m by {
        lemma_encoded_msg_injective(m2, m);
    }
}

proof fn lemma_stray_not_encoding(bytes: Seq<u8>, m: MsgView)
    requires
        bytes.len() > 1,
        bytes[0] == TAG_IN_PROGRESS_EMPTY,
    ensures
        bytes != encoded_msg(m),
{
    if bytes == encoded_msg(m) {
        assert(encoded_msg(m)[0] == TAG_IN_PROGRESS_EMPTY);
        assert(m is InProgress);
        assert(encoded_msg(m).len() == 1);
    }
}

proof fn lemma_unknown_tag_not_encoding(bytes: Seq<u8>, m: MsgView)
    requires
        bytes.len() > 0,
        bytes[0] != TAG_IN_PROGRESS_DATA,
        bytes[0] != TAG_IN_PROGRESS_EMPTY,
        bytes[0] != TAG_SUCCESS,
        bytes[0] != TAG_FAILURE,
    ensures
        bytes != encoded_msg(m),
{
    if bytes == encoded_msg(m) {
        assert(encoded_msg(m)[0] == bytes[0]);
    }
}

proof fn lemma_bad_text_not_encoding(bytes: Seq<u8>, m: MsgView)
    requires
        bytes.len() > 0,
        bytes[0] == TAG_SUCCESS || bytes[0] == TAG_FAILURE,
        !valid_utf8(bytes.skip(1)),
    ensures
        bytes != encoded_msg(m),
{
    broadcast use vstd::utf8::encode_utf8_valid_utf8;

    if bytes == encoded_msg(m) {
        match m {
            MsgView::Success(t) => {
                assert(bytes.skip(1) =~= encode_utf8(t));
            },
            MsgView::Failure(t) => {
                assert(bytes.skip(1) =~= encode_utf8(t));
            },
            _ => {
                assert(encoded_msg(m)[0] == bytes[0]);
            },
        }
    }
}

} // verus!
