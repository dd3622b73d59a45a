use std::io::Write;

use memori_vault::pdf_filters::{
    ascii85_decode, ascii_hex_decode, channels_for_color_space, decode_stream_filters, filter_from_name,
    image_encoding, is_image_subtype, raw_pixel_len, ImageEncoding, StreamFilter,
};

#[test]
fn non_image_stream_is_rejected() {
    let mut dict = lopdf::Dictionary::new();
    dict.set("Subtype", "Form");
    let stream = lopdf::Stream { dict, content: vec![0u8; 4], allows_compression: true, start_position: None };
    let subtype = stream.dict.get(b"Subtype").ok().and_then(|value| value.as_name().ok());
    assert!(!is_image_subtype(subtype));
}

#[test]
fn image_subtype_is_recognised() {
    assert!(is_image_subtype(Some(b"Image")));
    assert!(!is_image_subtype(Some(b"image")));
    assert!(!is_image_subtype(None));
}

#[test]
fn ascii85_decodes_groups_short_groups_and_z() {
    assert_eq!(ascii85_decode(b"87cURD]i,\"Ebo80~>"), Some(b"Hello World!".to_vec()));
    assert_eq!(ascii85_decode(b"z"), Some(vec![0, 0, 0, 0]));
    assert_eq!(ascii85_decode(b"87cUR D]i,\n\"Ebo8"), Some(b"Hello World".to_vec()));
    assert_eq!(ascii85_decode(b""), Some(Vec::new()));
    // A group whose value exceeds 32 bits cannot be decoded.
    assert_eq!(ascii85_decode(b"uuuuu"), None);
}

#[test]
fn ascii_hex_decodes_pairs_and_pads_odd_digit() {
    assert_eq!(ascii_hex_decode(b"48 65 6C 6c 6F>ff"), Some(b"Hello".to_vec()));
    assert_eq!(ascii_hex_decode(b"abc"), Some(vec![0xab, 0xc0]));
    assert_eq!(ascii_hex_decode(b"zz"), Some(Vec::new()));
}

#[test]
fn filter_names_and_chains() {
    assert_eq!(filter_from_name(b"FlateDecode"), StreamFilter::FlateDecode);
    assert_eq!(filter_from_name(b"ASCII85Decode"), StreamFilter::Ascii85Decode);
    assert_eq!(filter_from_name(b"ASCIIHexDecode"), StreamFilter::AsciiHexDecode);
    assert_eq!(filter_from_name(b"DCTDecode"), StreamFilter::DctDecode);
    assert_eq!(filter_from_name(b"JPXDecode"), StreamFilter::Unsupported);

    let mut encoder = flate2::write::ZlibEncoder::new(Vec::new(), flate2::Compression::default());
    encoder.write_all(b"raw pixels").unwrap();
    let compressed = encoder.finish().unwrap();
    assert_eq!(
        decode_stream_filters(&[StreamFilter::FlateDecode], &compressed),
        Some(b"raw pixels".to_vec())
    );
    assert_eq!(decode_stream_filters(&[StreamFilter::AsciiHexDecode], b"4142>"), Some(b"AB".to_vec()));
    assert_eq!(decode_stream_filters(&[], b"as is"), Some(b"as is".to_vec()));
    assert_eq!(decode_stream_filters(&[StreamFilter::DctDecode], b"x"), None);
    assert_eq!(decode_stream_filters(&[StreamFilter::FlateDecode], b"not zlib"), None);
}

#[test]
fn image_encoding_and_pixel_layout() {
    assert_eq!(image_encoding(&[StreamFilter::DctDecode]), ImageEncoding::Jpeg);
    assert_eq!(image_encoding(&[]), ImageEncoding::RawPixels);
    assert_eq!(image_encoding(&[StreamFilter::Ascii85Decode, StreamFilter::FlateDecode]), ImageEncoding::RawPixels);
    assert_eq!(image_encoding(&[StreamFilter::Ascii85Decode]), ImageEncoding::Unsupported);
    assert_eq!(channels_for_color_space(Some(b"DeviceGray")), Some(1));
    assert_eq!(channels_for_color_space(Some(b"DeviceRGB")), Some(3));
    assert_eq!(channels_for_color_space(Some(b"Indexed")), None);
    assert_eq!(channels_for_color_space(None), None);
    assert_eq!(raw_pixel_len(4, 3, 3), 36);
}

#[test]
fn ascii85_round_trip_examples() {
    assert_eq!(memori_vault::pdf_filters::ascii85_decode(b"9jqo^~>"), Some(b"Man ".to_vec()));
    assert_eq!(memori_vault::pdf_filters::ascii85_decode(b"9jqo~>"), Some(b"Man".to_vec()));
    assert_eq!(memori_vault::pdf_filters::ascii85_decode(b"z9jqo~>"), Some(b"\0\0\0\0Man".to_vec()));
}
