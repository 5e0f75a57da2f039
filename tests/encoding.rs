use pixelflut::color::Color;
use pixelflut::pixmap::Pixmap;
use pixelflut::state_encoding::{
    AutoEncoder, Encoder, EncodingError, MultiEncodersClient, Rgb64Encoder, Rgba64Encoder,
};

#[test]
fn rgb64_test_encoded_content_has_correct_length() {
    let pixmap = Pixmap::new(800, 600).unwrap();
    let (w, h) = pixmap.get_size();
    let encoded = Rgb64Encoder::encode(w, h, &pixmap.get_raw_data());
    let encoded_bytes = base64::decode(&encoded).unwrap();
    assert_eq!(encoded_bytes.len(), w * h * 3)
}

#[test]
fn rgba64_test_encoded_content_has_correct_length() {
    let pixmap = Pixmap::new(800, 600).unwrap();
    let (w, h) = pixmap.get_size();
    let encoded = Rgba64Encoder::encode(w, h, &pixmap.get_raw_data());
    let encoded_bytes = base64::decode(&encoded).unwrap();
    assert_eq!(encoded_bytes.len(), w * h * 4)
}

#[test]
fn rgb64_layout_per_pixel() {
    let mut pixmap = Pixmap::new(5, 4).unwrap();
    pixmap.set_pixel(3, 2, Color(0x12, 0x34, 0x56)).unwrap();
    pixmap.set_pixel(0, 0, Color(1, 2, 3)).unwrap();
    let data = pixmap.get_raw_data();
    let bytes = base64::decode(Rgb64Encoder::encode(5, 4, &data)).unwrap();
    assert_eq!(bytes.len(), 3 * 5 * 4);
    for (i, c) in data.iter().enumerate() {
        assert_eq!(&bytes[3 * i..3 * i + 3], &[c.0, c.1, c.2]);
    }
    let i = 2 * 5 + 3;
    assert_eq!(&bytes[3 * i..3 * i + 3], &[0x12, 0x34, 0x56]);
}

#[test]
fn rgba64_layout_per_pixel() {
    let data = vec![Color(1, 2, 3), Color(4, 5, 6)];
    let bytes = base64::decode(Rgba64Encoder::encode(2, 1, &data)).unwrap();
    assert_eq!(bytes, vec![1, 2, 3, 255, 4, 5, 6, 255]);
}

#[test]
fn encodings_are_standard_base64() {
    let data = vec![Color(0xAA, 0xBB, 0xCC)];
    assert_eq!(Rgb64Encoder::encode(1, 1, &data), "qrvM");
    assert_eq!(Rgba64Encoder::encode(1, 1, &data), "qrvM/w==");
    assert_eq!(Rgb64Encoder::encode(0, 0, &[]), "");
}

#[test]
fn decode_round_trips() {
    let data = vec![Color(1, 2, 3), Color(250, 251, 252), Color(0, 0, 0)];
    assert_eq!(Rgb64Encoder::decode(&Rgb64Encoder::encode(3, 1, &data)), Ok(data.clone()));
    assert_eq!(Rgba64Encoder::decode(&Rgba64Encoder::encode(3, 1, &data)), Ok(data));
}

#[test]
fn decode_drops_incomplete_group() {
    assert_eq!(Rgb64Encoder::decode(&"AQIDBA==".to_string()), Ok(vec![Color(1, 2, 3)]));
}

#[test]
fn decode_rejects_invalid_base64() {
    assert_eq!(Rgb64Encoder::decode(&"!!!".to_string()), Err(EncodingError::InvalidBase64));
    assert_eq!(Rgba64Encoder::decode(&"a".to_string()), Err(EncodingError::InvalidBase64));
}

#[test]
fn caches_start_empty_and_follow_updates() {
    let mut enc: AutoEncoder<Rgb64Encoder> = AutoEncoder::new();
    assert_eq!(enc.get_encoded_data(), "");
    enc.handle_trigger_encoding(1, 1, &[Color(0xAA, 0xBB, 0xCC)]);
    assert_eq!(enc.get_encoded_data(), "qrvM");

    let mut client = MultiEncodersClient::new();
    assert_eq!(client.get_rgb64_data(), "");
    assert_eq!(client.get_rgba64_data(), "");
    client.update(1, 1, &[Color(0xAA, 0xBB, 0xCC)]);
    assert_eq!(client.get_rgb64_data(), "qrvM");
    assert_eq!(client.get_rgba64_data(), "qrvM/w==");
}
