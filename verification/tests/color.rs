use correct_bar::Color;

#[test]
fn from_hex() {
    assert_eq!(Color::from_hex(0xff8800), Color { r: 0xff, g: 0x88, b: 0x00 });
}

#[test]
fn fade() {
    assert_eq!(Color::white().fade(Color::black(), 128), Color::gray(128));
    assert_eq!(Color::white().fade(Color::black(), 255), Color::gray(255));
    assert_eq!(Color::black().fade(Color::white(), 255), Color::gray(0));
    assert_eq!(Color::black().fade(Color::white(), 128), Color::gray(127));
    assert_eq!(Color::black().fade(Color::white(), 0), Color::gray(255));
}

#[test]
fn fade_keeps_endpoints_for_mixed_channels() {
    let f = Color { r: 10, g: 200, b: 77 };
    let b = Color { r: 90, g: 20, b: 77 };
    assert_eq!(f.fade(b, 255), f);
    assert_eq!(f.fade(b, 0), b);
}

#[test]
fn from_hex_masks_high_bits() {
    assert_eq!(Color::from_hex(0xff123456), Color { r: 0x12, g: 0x34, b: 0x56 });
}
