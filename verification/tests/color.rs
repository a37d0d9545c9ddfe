use hypnagogic_core::util::color::{Color, ColorError, HexConversionError};

#[test]
fn hex_to_tuple_test() {
    let hex = "#ff0000";
    let color = Color::from_hex_str(hex).unwrap();
    assert_eq!(color, Color::new(255, 0, 0, 255));

    let hex = "#ff0000ff";
    let color = Color::from_hex_str(hex).unwrap();
    assert_eq!(color, Color::new(255, 0, 0, 255));

    let hex = "#f00";
    let color = Color::from_hex_str(hex).unwrap();
    assert_eq!(color, Color::new(255, 0, 0, 255));

    let hex = "#f00f";
    let color = Color::from_hex_str(hex).unwrap();
    assert_eq!(color, Color::new(255, 0, 0, 255));

    let hex = "#f00f0f";
    let color = Color::from_hex_str(hex).unwrap();
    assert_eq!(color, Color::new(240, 15, 15, 255));
}

#[test]
fn hex_with_opacity_and_mixed_case() {
    assert_eq!(Color::from_hex_str("#12AbcD80").unwrap(), Color::new(0x12, 0xab, 0xcd, 0x80));
    assert_eq!(Color::from_hex_str("#1a2b").unwrap(), Color::new(0x11, 0xaa, 0x22, 0xbb));
}

#[test]
fn hex_without_hash_is_refused() {
    match Color::from_hex_str("ff0000") {
        Err(HexConversionError::MissingHash(text)) => assert_eq!(text, "ff0000"),
        other => panic!("unexpected: {:?}", other),
    }
    assert!(matches!(Color::from_hex_str(""), Err(HexConversionError::MissingHash(_))));
}

#[test]
fn hex_of_a_wrong_length_is_refused() {
    match Color::from_hex_str("#ff000") {
        Err(HexConversionError::InvalidLength(text, length)) => {
            assert_eq!(text, "ff000");
            assert_eq!(length, 5);
        }
        other => panic!("unexpected: {:?}", other),
    }
    assert!(matches!(
        Color::from_hex_str("#"),
        Err(HexConversionError::InvalidLength(_, 0))
    ));
}

#[test]
fn hex_with_a_bad_digit_is_refused() {
    assert!(matches!(Color::from_hex_str("#gg0000"), Err(HexConversionError::BadHex(_))));
    assert!(matches!(Color::from_hex_str("#ff00zz"), Err(HexConversionError::BadHex(_))));
    // six bytes, five characters: the digits run out
    assert!(matches!(Color::from_hex_str("#abcd\u{e9}"), Err(HexConversionError::BadHex(_))));
}

#[test]
fn a_pair_may_be_a_sign_and_a_digit() {
    assert_eq!(Color::from_hex_str("#+f+0+a").unwrap(), Color::new(15, 0, 10, 255));
}

#[test]
fn colors_are_written_in_upper_case() {
    assert_eq!(Color::new(255, 0, 171, 5).to_hex_str(), "#FF00AB05");
    assert_eq!(Color::new_rgb(1, 2, 3).to_hex_str(), "#010203FF");
    let color = Color::new(18, 52, 86, 120);
    assert_eq!(Color::from_hex_str(&color.to_hex_str()).unwrap(), color);
}

#[test]
fn colors_convert_from_arrays_and_tuples() {
    assert_eq!(Color::from([1u8, 2, 3, 4]), Color::new(1, 2, 3, 4));
    assert_eq!(Color::from([1u8, 2, 3]), Color::new(1, 2, 3, 255));
    assert_eq!(Color::from((1u8, 2u8, 3u8, 4u8)), Color::new(1, 2, 3, 4));
    assert_eq!(Color::from((1u8, 2u8, 3u8)), Color::new(1, 2, 3, 255));
    assert_eq!(Color::new_rgb(9, 8, 7).to_rgb().unwrap(), [9, 8, 7]);
    assert!(matches!(Color::new(9, 8, 7, 6).to_rgb(), Err(ColorError::HasAlpha)));
    assert_eq!(Color::default(), Color::new(0, 0, 0, 0));
}
