use unwrap_qr::ProcessingResult;
use unwrap_qr::envelope::CodecError;
use unwrap_qr::envelope::decode_envelope;
use unwrap_qr::envelope::encode_envelope;
use unwrap_qr::envelope::TAG_FAILURE;
use unwrap_qr::envelope::TAG_IN_PROGRESS_DATA;
use unwrap_qr::envelope::TAG_IN_PROGRESS_EMPTY;
use unwrap_qr::envelope::TAG_SUCCESS;

#[test]
fn encode_success_exact_bytes() {
    let bytes = encode_envelope(&ProcessingResult::Success("hi".to_string()));
    assert_eq!(bytes, vec![TAG_SUCCESS, 104, 105]);
}

#[test]
fn encode_failure_exact_bytes() {
    let bytes = encode_envelope(&ProcessingResult::Failure("no".to_string()));
    assert_eq!(bytes, vec![TAG_FAILURE, 110, 111]);
}

#[test]
fn encode_in_progress_exact_bytes() {
    let bytes = encode_envelope(&ProcessingResult::InProgress(Some(vec![1, 2, 3])));
    assert_eq!(bytes, vec![TAG_IN_PROGRESS_DATA, 1, 2, 3]);
    let bytes = encode_envelope(&ProcessingResult::InProgress(None));
    assert_eq!(bytes, vec![TAG_IN_PROGRESS_EMPTY]);
}

#[test]
fn round_trip_in_progress_data() {
    let m = ProcessingResult::InProgress(Some(vec![0, 255, 7, 9]));
    assert_eq!(decode_envelope(&encode_envelope(&m)), Ok(m));
}

#[test]
fn round_trip_in_progress_empty() {
    let m = ProcessingResult::InProgress(None);
    assert_eq!(decode_envelope(&encode_envelope(&m)), Ok(m));
}

#[test]
fn round_trip_success() {
    let m = ProcessingResult::Success("hello".to_string());
    assert_eq!(decode_envelope(&encode_envelope(&m)), Ok(m));
}

#[test]
fn round_trip_failure() {
    let m = ProcessingResult::Failure("no code found".to_string());
    assert_eq!(decode_envelope(&encode_envelope(&m)), Ok(m));
}

#[test]
fn round_trip_unicode_text() {
    let m = ProcessingResult::Success("héllo ✓ wörld".to_string());
    assert_eq!(decode_envelope(&encode_envelope(&m)), Ok(m));
}

#[test]
fn decode_empty_is_rejected() {
    assert_eq!(decode_envelope(&Vec::new()), Err(CodecError::EmptyPayload));
}

#[test]
fn decode_unknown_tag_is_rejected() {
    assert_eq!(decode_envelope(&vec![0, 1, 2]), Err(CodecError::UnknownTag));
}

#[test]
fn decode_stray_payload_is_rejected() {
    assert_eq!(
        decode_envelope(&vec![TAG_IN_PROGRESS_EMPTY, 1]),
        Err(CodecError::StrayPayload)
    );
}

#[test]
fn decode_invalid_text_is_rejected() {
    assert_eq!(
        decode_envelope(&vec![TAG_SUCCESS, 0xff, 0xfe]),
        Err(CodecError::InvalidText)
    );
    assert_eq!(
        decode_envelope(&vec![TAG_FAILURE, 0xc0]),
        Err(CodecError::InvalidText)
    );
}
