use ratgames::color::hex::{ColorHexError, HexDigitsError};
use ratgames::color::Color;

#[test]
fn rgb_is_opaque_and_packs_channels() {
    let c = Color::rgb(0x39, 0xD3, 0x53);
    assert_eq!(c.alpha(), 0xFF);
    assert_eq!(c.packed(), 0x0039_D353);
    assert!(c.is_visible());
}

#[test]
fn transparent_is_invisible_and_packs_to_zero() {
    assert!(!Color::transparent().is_visible());
    assert_eq!(Color::transparent().packed(), 0);
}

#[test]
fn packed_discards_alpha() {
    assert_eq!(Color::argb(0x80, 0x11, 0x22, 0x33).packed(), 0x0011_2233);
}

#[test]
fn argb_places_each_channel_in_its_byte() {
    assert_eq!(Color::argb(0x12, 0x34, 0x56, 0x78).0, 0x1234_5678);
    assert_eq!(Color::argb(0x12, 0x34, 0x56, 0x78).alpha(), 0x12);
}

#[test]
fn hex_text_round_trips_and_rejects_junk() {
    let c = Color::rgb(0x39, 0xD3, 0x53);
    assert_eq!(c.to_hex(), "#39D353");
    assert_eq!(Color::from_hex("#39D353"), Ok(c));
    // Explicit alpha survives via #AARRGGBB.
    assert_eq!(Color::from_hex("#80112233"), Ok(Color::argb(0x80, 0x11, 0x22, 0x33)));
    assert_eq!(Color::argb(0x80, 0x11, 0x22, 0x33).to_hex(), "#80112233");
    // Bad hex is rejected, not silently defaulted.
    assert_eq!(Color::from_hex("#12"), Err(ColorHexError::BadLength));
    assert_eq!(
        Color::from_hex("nope"),
        Err(ColorHexError::Digits(HexDigitsError::InvalidDigit))
    );
}

#[test]
fn hex_reading_follows_from_str_radix() {
    // The `#` is optional and lowercase digits read too.
    assert_eq!(Color::from_hex("ff0000"), Ok(Color::rgb(0xFF, 0, 0)));
    assert_eq!(Color::from_hex(""), Err(ColorHexError::Digits(HexDigitsError::Empty)));
    assert_eq!(Color::from_hex("#"), Err(ColorHexError::Digits(HexDigitsError::Empty)));
    assert_eq!(
        Color::from_hex("#+"),
        Err(ColorHexError::Digits(HexDigitsError::InvalidDigit))
    );
    // A leading `+` is accepted by the digit reader and counts toward the length.
    assert_eq!(Color::from_hex("#+0000F"), Ok(Color(0xFF00_000F)));
    assert_eq!(
        Color::from_hex("#123456789"),
        Err(ColorHexError::Digits(HexDigitsError::PosOverflow))
    );
    assert_eq!(Color::from_hex("#000000000"), Err(ColorHexError::BadLength));
    assert_eq!(Color(0x00AB_CDEF).to_hex(), "#00ABCDEF");
    assert_eq!(Color::from_hex(&Color(0x00AB_CDEF).to_hex()), Ok(Color(0x00AB_CDEF)));
}
