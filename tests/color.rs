use pixelflut::color::{Color, ColorError};

#[test]
fn test_u32_conversion() {
    assert_eq!(Color::from(0u32), Color(0, 0, 0));
    assert_eq!(Color::from(0xFFu32), Color(0, 0, 255));
    assert_eq!(Color::from(0x00FF00u32), Color(0, 255, 0));
    assert_eq!(Color::from(0xFF0000u32), Color(255, 0, 0));
}

#[test]
fn packed_form_is_00rrggbb() {
    assert_eq!(u32::from(Color(0xAA, 0xBB, 0xCC)), 0x00AABBCC);
    assert_eq!(Color::from(0xFFAABBCCu32), Color(0xAA, 0xBB, 0xCC));
    assert_eq!(Color(1, 2, 3).to_u32(), 0x010203);
}

#[test]
fn array_and_slice_conversions() {
    assert_eq!(Color::from([1u8, 2, 3]), Color(1, 2, 3));
    let a: [u8; 3] = Color(4, 5, 6).into();
    assert_eq!(a, [4, 5, 6]);
    assert_eq!(Color::try_from_slice(&[7, 8, 9]), Ok(Color(7, 8, 9)));
    assert_eq!(Color::try_from_slice(&[7, 8]), Err(ColorError::WrongLength));
    assert_eq!(Color::try_from_slice(&[7, 8, 9, 10]), Err(ColorError::WrongLength));
    assert_eq!(Color(1, 2, 3).to_vec(), vec![1, 2, 3]);
}

#[test]
fn default_color_is_black() {
    assert_eq!(Color::default(), Color(0, 0, 0));
}

#[test]
fn text_form() {
    assert_eq!(Color(0xAA, 0xBB, 0xCC).to_string(), "#AABBCC");
    assert_eq!(Color(0, 0x0F, 0xF0).to_string(), "#000FF0");
    assert_eq!(Color(1, 2, 3).to_upper_hex(), "010203");
}

#[test]
fn parse_text_form() {
    assert_eq!(Color::parse("#AABBCC"), Some(Color(0xAA, 0xBB, 0xCC)));
    assert_eq!(Color::parse("#aabbcc"), Some(Color(0xAA, 0xBB, 0xCC)));
    assert_eq!(Color::parse("AABBCC"), None);
    assert_eq!(Color::parse("#AABBC"), None);
    assert_eq!(Color::parse("#AABBCG"), None);
    assert_eq!(Color::parse_hex(b"010203"), Some(Color(1, 2, 3)));
    assert_eq!(Color::parse_hex(b"01020"), None);
}

#[test]
fn color_text_round_trip() {
    for v in [0u32, 1, 0xFF, 0x100, 0xABCDEF, 0x7F7F7F, 0xFFFFFF, 0x123456] {
        let c = Color::from(v);
        assert_eq!(Color::parse(&c.to_string()), Some(c));
    }
    fn prop(v: u32) -> bool {
        let c = Color::from(v);
        Color::parse(&c.to_string()) == Some(c)
    }
    quickcheck::quickcheck(prop as fn(u32) -> bool);
}
