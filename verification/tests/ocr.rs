use memori_vault::ocr::{ocr_available, ocr_output_text, resolve_tesseract, tesseract_candidate, TesseractCandidate};
use memori_vault::pdf_filters::{encode_raw_to_png, pdf_image_file, ImageFile, StreamFilter};

#[test]
fn ocr_returns_none_when_tesseract_missing() {
    let candidate = tesseract_candidate(Some("__definitely_missing__.exe"), false);
    assert!(matches!(&candidate, TesseractCandidate::Configured(p) if p == "__definitely_missing__.exe"));
    assert_eq!(resolve_tesseract(candidate, false), None);
}

#[test]
fn candidate_depends_on_configuration_and_platform() {
    assert!(matches!(tesseract_candidate(None, true), TesseractCandidate::Searched(p) if p == "tesseract.exe"));
    assert!(matches!(tesseract_candidate(None, false), TesseractCandidate::Searched(p) if p == "tesseract"));
    assert_eq!(resolve_tesseract(tesseract_candidate(Some(" /usr/bin/tesseract "), false), true), Some("/usr/bin/tesseract".to_string()));
    assert!(ocr_available(tesseract_candidate(None, false), true));
    assert!(!ocr_available(tesseract_candidate(None, false), false));
}

#[test]
fn ocr_output_is_trimmed_and_blank_is_nothing() {
    assert_eq!(ocr_output_text("  识别结果\n".as_bytes()), Some("识别结果".to_string()));
    assert_eq!(ocr_output_text(b" \n\t"), None);
    assert_eq!(ocr_output_text(&[0xff, b'a']), Some("\u{fffd}a".to_string()));
}

#[test]
fn image_streams_become_jpeg_or_png_files() {
    match pdf_image_file(&[StreamFilter::DctDecode], b"jpegdata", None, None, None) {
        Some(ImageFile::Jpeg(bytes)) => assert_eq!(bytes, b"jpegdata".to_vec()),
        other => panic!("unexpected {other:?}"),
    }
    match pdf_image_file(&[], &[0, 255, 0, 255], Some(2), Some(2), Some(b"DeviceGray")) {
        Some(ImageFile::Png(bytes)) => assert!(bytes.starts_with(&[0x89, b'P', b'N', b'G'])),
        other => panic!("unexpected {other:?}"),
    }
    assert!(pdf_image_file(&[], &[0, 255, 0], Some(2), Some(2), Some(b"DeviceGray")).is_none());
    assert!(pdf_image_file(&[], &[0; 12], Some(2), Some(2), Some(b"Indexed")).is_none());
    assert!(pdf_image_file(&[StreamFilter::Ascii85Decode], b"x", Some(1), Some(1), Some(b"DeviceGray")).is_none());
    assert!(encode_raw_to_png(&[1, 2, 3, 4, 5, 6, 7], 1, 2, 3).is_some());
    assert!(encode_raw_to_png(&[1, 2, 3], 1, 1, 2).is_none());
}
