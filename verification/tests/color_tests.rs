use svg2pdc::color::{Color, PebbleColor, TruncateColor};
use svg2pdc::error::Svg2PdcError;

#[test]
fn red_truncates_to_full_red() {
    let red = Color::try_from_hex("#ff0000").unwrap();
    assert_eq!(red, Color { r: 255, g: 0, b: 0, a: 255 });
    let packed = PebbleColor::from_color_with_truncate(red);
    assert_eq!(packed.get_a(), 3);
    assert_eq!(packed.get_r(), 3);
    assert_eq!(packed.get_g(), 0);
    assert_eq!(packed.get_b(), 0);
    assert_eq!(packed.inner(), 0xF0);
    assert_eq!(packed.inner(), 192 + 48);
}

#[test]
fn hex_with_and_without_alpha() {
    let red = Color::try_from_hex("#ff0000").unwrap();
    let red_with_alpha = Color::try_from_hex("#ff0000ff").unwrap();
    assert_eq!(red, red_with_alpha);
    assert_eq!(red.a, 255);
    assert_eq!(red.r, 255);
    assert_eq!(red.g, 0);
    assert_eq!(red.b, 0);

    let green_1 = Color::try_from_hex("00ff00f0").unwrap();
    assert_eq!(green_1.a, 240);
    let green_2 = Color::try_from_hex("00ff00").unwrap().with_opacity(0xf0);
    assert_eq!(green_2.a, 240);
    assert_eq!(green_1, green_2);
}

#[test]
fn with_opacity_replaces_only_alpha() {
    let red = Color::try_from_hex("#ff0000").unwrap();
    let red_with_alpha = red.with_opacity(128);
    assert_eq!(red_with_alpha, Color { r: 255, g: 0, b: 0, a: 128 });
    assert_eq!(red.with_opacity(255).a, 255);
}

#[test]
fn opacity_equals_alpha_digits_for_every_alpha() {
    for text in ["#123456", "#abcdef", "#ABCDEF87", "000000", "#ffffff00"] {
        let base = Color::try_from_hex(text).unwrap();
        let digits: String = text.trim_start_matches('#').chars().take(6).collect();
        for alpha in 0..=255u8 {
            let lower = format!("#{}{:02x}", digits, alpha);
            let upper = format!("{}{:02X}", digits, alpha);
            assert_eq!(base.with_opacity(alpha), Color::try_from_hex(&lower).unwrap());
            assert_eq!(base.with_opacity(alpha), Color::try_from_hex(&upper).unwrap());
        }
    }
}

#[test]
fn hex_digits_of_both_cases() {
    assert_eq!(
        Color::try_from_hex("#0A1b2C").unwrap(),
        Color { r: 0x0A, g: 0x1B, b: 0x2C, a: 255 }
    );
    assert_eq!(
        Color::try_from_hex("#09afAF3d").unwrap(),
        Color { r: 0x09, g: 0xAF, b: 0xAF, a: 0x3D }
    );
}

#[test]
fn any_number_of_hash_signs_is_dropped() {
    let expected = Color { r: 1, g: 2, b: 3, a: 255 };
    assert_eq!(Color::try_from_hex("010203").unwrap(), expected);
    assert_eq!(Color::try_from_hex("#010203").unwrap(), expected);
    assert_eq!(Color::try_from_hex("###010203").unwrap(), expected);
}

#[test]
fn alpha_is_read_only_from_exactly_eight_digits() {
    assert_eq!(Color::try_from_hex("#0102031").unwrap().a, 255);
    assert_eq!(Color::try_from_hex("#010203112").unwrap().a, 255);
    assert_eq!(Color::try_from_hex("#010203zz").unwrap().a, 255);
    assert_eq!(Color::try_from_hex("#0102031g").unwrap().a, 255);
    assert_eq!(Color::try_from_hex("#01020311").unwrap().a, 0x11);
}

fn invalid(text: &str) -> String {
    match Color::try_from_hex(text) {
        Err(Svg2PdcError::InvalidColor(held)) => held,
        other => panic!("unexpected result {:?}", other),
    }
}

#[test]
fn text_that_is_no_colour_is_rejected() {
    assert_eq!(invalid(""), "");
    assert_eq!(invalid("#"), "");
    assert_eq!(invalid("#12"), "12");
    assert_eq!(invalid("#12345"), "12345");
    assert_eq!(invalid("none"), "none");
    assert_eq!(invalid("#gg0000"), "gg0000");
    assert_eq!(invalid("##00gg00"), "00gg00");
    assert_eq!(invalid("#0000g0ff"), "0000g0ff");
    assert_eq!(invalid("#+f0000"), "+f0000");
    assert_eq!(invalid("red"), "red");
    assert_eq!(invalid("#ff 000"), "ff 000");
    assert_eq!(invalid("#ééé"), "ééé");
}

#[test]
fn white_converts_to_full_levels() {
    let white = Color::try_from_hex("#ffffff").unwrap();
    let packed = PebbleColor::from_color_with_convert(white);
    assert_eq!(packed.get_r(), 3);
    assert_eq!(packed.get_g(), 3);
    assert_eq!(packed.get_b(), 3);
    assert_eq!(packed.get_a(), 3);
    assert_eq!(packed.inner(), 0xFF);
}

#[test]
fn each_channel_has_its_own_two_bits() {
    let green = PebbleColor::from_color_with_truncate(Color::try_from_hex("#00ff00").unwrap());
    assert_eq!(green.get_g(), 3);
    assert_eq!(green.inner(), 0b11_00_11_00);
    let blue = PebbleColor::from_color_with_truncate(Color::try_from_hex("#0000ff").unwrap());
    assert_eq!(blue.get_b(), 3);
    assert_eq!(blue.inner(), 0b11_00_00_11);
    let mixed = PebbleColor::from_color_with_truncate(Color { r: 85, g: 170, b: 255, a: 170 });
    assert_eq!(mixed.inner(), 0b10_01_10_11);
    assert_eq!(
        (mixed.get_a(), mixed.get_r(), mixed.get_g(), mixed.get_b()),
        (2, 1, 2, 3)
    );
}

#[test]
fn truncate_goes_down_and_convert_goes_to_the_nearest() {
    let color = Color { r: 128, g: 127, b: 43, a: 255 };
    assert_eq!(PebbleColor::from_color_with_truncate(color).inner(), 212);
    assert_eq!(PebbleColor::from_color_with_convert(color).inner(), 229);
    assert_eq!(PebbleColor::quantize(color, &TruncateColor::Truncate).inner(), 212);
    assert_eq!(PebbleColor::quantize(color, &TruncateColor::Keep).inner(), 229);
}

#[test]
fn levels_change_at_their_thresholds() {
    let level = |value: u8, policy: TruncateColor| {
        PebbleColor::quantize(Color { r: value, g: 0, b: 0, a: 255 }, &policy).get_r()
    };
    for (value, truncated, nearest) in [
        (0, 0, 0),
        (42, 0, 0),
        (43, 0, 1),
        (84, 0, 1),
        (85, 1, 1),
        (127, 1, 1),
        (128, 1, 2),
        (169, 1, 2),
        (170, 2, 2),
        (212, 2, 2),
        (213, 2, 3),
        (254, 2, 3),
        (255, 3, 3),
    ] {
        assert_eq!(level(value, TruncateColor::Truncate), truncated);
        assert_eq!(level(value, TruncateColor::Keep), nearest);
    }
}

#[test]
fn alpha_at_level_zero_gives_nothing() {
    let faint = Color { r: 255, g: 255, b: 255, a: 84 };
    assert_eq!(PebbleColor::from_color_with_truncate(faint), PebbleColor::nothing());
    assert_eq!(PebbleColor::from_color_with_convert(faint).inner(), 127);
    let fainter = Color { r: 255, g: 255, b: 255, a: 42 };
    assert_eq!(PebbleColor::from_color_with_convert(fainter), PebbleColor::nothing());
    assert_eq!(PebbleColor::nothing().inner(), 0);
}

#[test]
fn black_is_told_by_red_green_and_blue_alone() {
    let red = Color::try_from_hex("#ff0000").unwrap().with_opacity(255);
    assert!(!PebbleColor::from_color_with_truncate(red).is_black());
    let black = Color::try_from_hex("#00000000").unwrap();
    assert!(PebbleColor::from_color_with_truncate(black).is_black());
    let opaque_black = PebbleColor::from_color_with_truncate(Color::try_from_hex("#000000").unwrap());
    assert_eq!(opaque_black.inner(), 0xC0);
    assert!(opaque_black.is_black());
    assert!(PebbleColor(0x40).is_black());
    assert!(!PebbleColor(0x41).is_black());
}

#[test]
fn quantizing_twice_changes_nothing() {
    for policy in [TruncateColor::Truncate, TruncateColor::Keep] {
        for again in [TruncateColor::Truncate, TruncateColor::Keep] {
            for value in (0..=255u8).step_by(5) {
                for alpha in [0u8, 42, 43, 85, 128, 200, 255] {
                    let color = Color { r: value, g: 255 - value, b: value / 2, a: alpha };
                    let once = PebbleColor::quantize(color, &policy);
                    let back = Color {
                        r: once.get_r() * 85,
                        g: once.get_g() * 85,
                        b: once.get_b() * 85,
                        a: once.get_a() * 85,
                    };
                    assert_eq!(PebbleColor::quantize(back, &again), once);
                }
            }
        }
    }
}

#[test]
fn packing_and_unpacking_round_trip() {
    for byte in 0..=255u8 {
        let color = PebbleColor(byte);
        let (a, r, g, b) = (color.get_a(), color.get_r(), color.get_g(), color.get_b());
        assert!(a < 4 && r < 4 && g < 4 && b < 4);
        assert_eq!((a << 6) | (r << 4) | (g << 2) | b, byte);
        let full = Color { r: r * 85, g: g * 85, b: b * 85, a: a * 85 };
        assert_eq!(PebbleColor::from_color(full), color);
    }
}

#[test]
fn bitdepth_of_palettes() {
    assert_eq!(PebbleColor::num_colors_to_bitdepth(0), None);
    assert_eq!(PebbleColor::num_colors_to_bitdepth(1), Some(1));
    assert_eq!(PebbleColor::num_colors_to_bitdepth(2), Some(1));
    assert_eq!(PebbleColor::num_colors_to_bitdepth(3), Some(2));
    assert_eq!(PebbleColor::num_colors_to_bitdepth(4), Some(2));
    assert_eq!(PebbleColor::num_colors_to_bitdepth(5), Some(4));
    assert_eq!(PebbleColor::num_colors_to_bitdepth(16), Some(4));
    assert_eq!(PebbleColor::num_colors_to_bitdepth(17), Some(8));
    assert_eq!(PebbleColor::num_colors_to_bitdepth(256), Some(8));
    assert_eq!(PebbleColor::num_colors_to_bitdepth(257), None);
    assert_eq!(PebbleColor::num_colors_to_bitdepth(u32::MAX), None);
}

#[test]
fn defaults_are_empty() {
    assert_eq!(Color::default(), Color { r: 0, g: 0, b: 0, a: 0 });
    assert_eq!(PebbleColor::default(), PebbleColor::nothing());
}
