use image::ImageEncoder;
use unwrap_qr::ProcessingResult;
use unwrap_qr::worker::ScanError;
use unwrap_qr::worker::WorkerHandler;
use unwrap_qr::worker::worker_reply;

#[test]
fn reply_for_decoded_text_is_success() {
    let reply = worker_reply(Ok("hello".to_string()));
    assert_eq!(reply, ProcessingResult::Success("hello".to_string()));
}

#[test]
fn reply_for_each_failure_carries_its_reason() {
    assert_eq!(
        worker_reply(Err(ScanError::BadImage)),
        ProcessingResult::Failure("image decode error".to_string())
    );
    assert_eq!(
        worker_reply(Err(ScanError::NoCode)),
        ProcessingResult::Failure("no code found".to_string())
    );
    assert_eq!(
        worker_reply(Err(ScanError::DecodeFailed)),
        ProcessingResult::Failure("decode failed".to_string())
    );
    assert_eq!(
        worker_reply(Err(ScanError::NotText)),
        ProcessingResult::Failure("not representable as text".to_string())
    );
}

#[test]
fn reason_texts_are_never_empty() {
    for e in [
        ScanError::BadImage,
        ScanError::NoCode,
        ScanError::DecodeFailed,
        ScanError::NotText,
    ] {
        assert!(!e.reason().is_empty());
    }
}

#[test]
fn scan_rejects_non_image_bytes() {
    let handler = WorkerHandler;
    let garbage = vec![1, 2, 3, 4, 5, 6, 7, 8];
    assert_eq!(handler.scan(&garbage), Err(ScanError::BadImage));
}

#[test]
fn scan_finds_no_code_in_a_blank_image() {
    // A 1x1 black PNG: a decodable image with no QR code in it.
    let png = blank_png();
    let handler = WorkerHandler;
    assert_eq!(handler.scan(&png), Err(ScanError::NoCode));
}

fn blank_png() -> Vec<u8> {
    let mut out = Vec::new();
    let encoder = image::codecs::png::PngEncoder::new(&mut out);
    encoder
        .write_image(&[0u8], 1, 1, image::ExtendedColorType::L8)
        .expect("encode 1x1 png");
    out
}
