use venus::color::{hex_channels, unit_scalar, Color};

#[test]
fn a_channel_out_of_255_is_the_nearest_scalar() {
    for n in 0..=255u8 {
        assert_eq!(unit_scalar(n), (n as f32 / 255.0).to_bits(), "channel {}", n);
    }
    assert_eq!(f32::from_bits(unit_scalar(0)), 0.0);
    assert_eq!(f32::from_bits(unit_scalar(255)), 1.0);
    assert_eq!(f32::from_bits(unit_scalar(51)), 0.2);
}

#[test]
fn from_rgba_scales_the_channels_and_keeps_alpha() {
    let c = Color::from_rgba(255, 0, 102, 0.25f32.to_bits());
    assert_eq!(f32::from_bits(c.r), 1.0);
    assert_eq!(f32::from_bits(c.g), 0.0);
    assert_eq!(f32::from_bits(c.b), 102.0 / 255.0);
    assert_eq!(f32::from_bits(c.a), 0.25);
}

#[test]
fn six_digits_name_a_colour() {
    assert_eq!(hex_channels("#ff8000"), Some((255, 128, 0)));
    assert_eq!(hex_channels("ff8000"), Some((255, 128, 0)));
    assert_eq!(hex_channels("#FF8000"), Some((255, 128, 0)));
    assert_eq!(hex_channels("#aBcDeF"), Some((0xAB, 0xCD, 0xEF)));
    assert_eq!(hex_channels("#000000"), Some((0, 0, 0)));
    assert_eq!(hex_channels("###123456"), Some((0x12, 0x34, 0x56)));
}

#[test]
fn three_digits_stand_for_themselves_twice() {
    assert_eq!(hex_channels("#f80"), Some((0xFF, 0x88, 0x00)));
    assert_eq!(hex_channels("abc"), Some((0xAA, 0xBB, 0xCC)));
    assert_eq!(hex_channels("#09F"), Some((0x00, 0x99, 0xFF)));
}

#[test]
fn a_plus_sign_may_stand_before_one_digit() {
    assert_eq!(hex_channels("#+f+0+a"), Some((15, 0, 10)));
    assert_eq!(hex_channels("#+f10ff"), Some((15, 16, 255)));
    assert_eq!(hex_channels("#f+10ff"), None);
    assert_eq!(hex_channels("#++0000"), None);
    assert_eq!(hex_channels("#+++"), None);
    assert_eq!(hex_channels("#-f0000"), None);
}

#[test]
fn other_texts_name_no_colour() {
    assert_eq!(hex_channels(""), None);
    assert_eq!(hex_channels("#"), None);
    assert_eq!(hex_channels("#ff"), None);
    assert_eq!(hex_channels("#ffff"), None);
    assert_eq!(hex_channels("#fffff"), None);
    assert_eq!(hex_channels("#fffffff"), None);
    assert_eq!(hex_channels("#ggg"), None);
    assert_eq!(hex_channels("#ff00gg"), None);
    assert_eq!(hex_channels("ff#000"), None);
    assert_eq!(hex_channels("#ff 000"), None);
    assert_eq!(hex_channels("#ééé"), None);
    assert_eq!(hex_channels("#€"), None);
    assert_eq!(hex_channels("#é1"), None);
    assert_eq!(hex_channels("#１２３"), None);
}

#[test]
fn from_hex_is_opaque() {
    let c = Color::from_hex("#336699");
    assert_eq!(c, Color::from_rgba(0x33, 0x66, 0x99, 1.0f32.to_bits()));
    assert_eq!(f32::from_bits(c.r), 0.2);
    assert_eq!(f32::from_bits(c.g), 0.4);
    assert_eq!(f32::from_bits(c.b), 0.6);
    assert_eq!(f32::from_bits(c.a), 1.0);
    assert_eq!(Color::from_hex("#fff"), Color::white());
    assert_eq!(Color::from_hex("000"), Color::black());
}
