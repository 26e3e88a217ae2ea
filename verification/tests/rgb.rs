use color_conv::{Cmyk, Color, Hsl, Rgb};

#[test]
fn rgb_test_to_string() {
    let rgb = Rgb::new(30, 50, 60);
    assert_eq!(rgb.to_string(), String::from("rgb(30, 50, 60)"));
}

#[test]
fn rgb_test_to_hex_string() {
    let hex = Rgb::new(30, 50, 60).to_hex_string();
    assert_eq!(hex, String::from("#1e323c"));
}

#[test]
fn test_to_cmyk() {
    let rgb = Rgb::new(30, 50, 60).to_cmyk();
    assert_eq!(rgb, Cmyk::new_unchecked(50, 17, 0, 76));
}

#[test]
fn test_to_hsl() {
    let hsl = Rgb::new(204, 153, 102).to_hsl();
    assert_eq!(hsl, Hsl::new_unchecked(30, 50, 60));
}

#[test]
fn rgb_new_keeps_the_channels() {
    let rgb = Rgb::new(0, 128, 255);
    assert_eq!((rgb.red, rgb.green, rgb.blue), (0, 128, 255));
}

#[test]
fn rgb_to_rgb_is_identity() {
    for level in 0..=255u8 {
        let rgb = Rgb::new(level, 255 - level, level / 2);
        assert_eq!(rgb.to_rgb(), rgb);
    }
}

#[test]
fn rgb_to_hex_string_pads_with_zeros() {
    assert_eq!(Rgb::new(0, 0, 0).to_hex_string(), "#000000");
    assert_eq!(Rgb::new(0, 255, 255).to_hex_string(), "#00ffff");
    assert_eq!(Rgb::new(1, 10, 16).to_hex_string(), "#010a10");
    assert_eq!(Rgb::new(9, 15, 171).to_hex_string(), "#090fab");
    assert_eq!(Rgb::new(205, 239, 254).to_hex_string(), "#cdeffe");
}

#[test]
fn rgb_hex_string_reads_back() {
    for level in 0..=255u8 {
        let rgb = Rgb::new(level, 255 - level, level.wrapping_mul(7));
        let hex = rgb.to_hex_string();
        assert_eq!(hex.len(), 7);
        assert!(hex.starts_with('#'));
        assert!(hex[1..].chars().all(|c| matches!(c, '0'..='9' | 'a'..='f')));
        assert_eq!(u8::from_str_radix(&hex[1..3], 16), Ok(rgb.red));
        assert_eq!(u8::from_str_radix(&hex[3..5], 16), Ok(rgb.green));
        assert_eq!(u8::from_str_radix(&hex[5..7], 16), Ok(rgb.blue));
        assert_eq!(hex, format!("#{:0>2x}{:0>2x}{:0>2x}", rgb.red, rgb.green, rgb.blue));
    }
}

#[test]
fn rgb_to_string_renders_every_width() {
    assert_eq!(Rgb::new(0, 9, 10).to_string(), "rgb(0, 9, 10)");
    assert_eq!(Rgb::new(99, 100, 255).to_string(), "rgb(99, 100, 255)");
    for level in 0..=255u8 {
        assert_eq!(
            Rgb::new(level, 0, 255 - level).to_string(),
            format!("rgb({}, 0, {})", level, 255 - level)
        );
    }
}

#[test]
fn rgb_black_to_cmyk_takes_no_ink() {
    assert_eq!(Rgb::new(0, 0, 0).to_cmyk(), Cmyk::new_unchecked(0, 0, 0, 100));
}

#[test]
fn rgb_to_cmyk_at_the_corners() {
    assert_eq!(Rgb::new(255, 255, 255).to_cmyk(), Cmyk::new_unchecked(0, 0, 0, 0));
    assert_eq!(Rgb::new(0, 255, 255).to_cmyk(), Cmyk::new_unchecked(100, 0, 0, 0));
    assert_eq!(Rgb::new(255, 0, 255).to_cmyk(), Cmyk::new_unchecked(0, 100, 0, 0));
    assert_eq!(Rgb::new(255, 255, 0).to_cmyk(), Cmyk::new_unchecked(0, 0, 100, 0));
    assert_eq!(Rgb::new(1, 1, 1).to_cmyk(), Cmyk::new_unchecked(0, 0, 0, 100));
    assert_eq!(Rgb::new(128, 128, 128).to_cmyk(), Cmyk::new_unchecked(0, 0, 0, 50));
}

#[test]
fn rgb_to_cmyk_rounds_the_key() {
    // (1 - 254/255) * 100 = 0.39, (1 - 253/255) * 100 = 0.78
    assert_eq!(Rgb::new(254, 254, 254).to_cmyk().key, 0);
    assert_eq!(Rgb::new(253, 253, 253).to_cmyk().key, 1);
    // (1 - 102/255) * 100 = 60
    assert_eq!(Rgb::new(102, 0, 0).to_cmyk(), Cmyk::new_unchecked(0, 100, 100, 60));
    // 100 * 5 / 8 = 62.5 rounds up
    assert_eq!(Rgb::new(3, 8, 8).to_cmyk(), Cmyk::new_unchecked(63, 0, 0, 97));
}

#[test]
fn rgb_to_cmyk_is_always_valid() {
    for red in (0..=255u8).step_by(5) {
        for green in (0..=255u8).step_by(3) {
            for blue in (0..=255u8).step_by(17) {
                let cmyk = Rgb::new(red, green, blue).to_cmyk();
                assert!(Cmyk::new(cmyk.cyan, cmyk.magenta, cmyk.yellow, cmyk.key).is_ok());
                assert!(cmyk.cyan == 0 || cmyk.magenta == 0 || cmyk.yellow == 0);
            }
        }
    }
}

#[test]
fn rgb_grays_to_hsl() {
    assert_eq!(Rgb::new(0, 0, 0).to_hsl(), Hsl::new_unchecked(0, 0, 0));
    assert_eq!(Rgb::new(255, 255, 255).to_hsl(), Hsl::new_unchecked(0, 0, 100));
    assert_eq!(Rgb::new(128, 128, 128).to_hsl(), Hsl::new_unchecked(0, 0, 50));
    assert_eq!(Rgb::new(51, 51, 51).to_hsl(), Hsl::new_unchecked(0, 0, 20));
}

#[test]
fn rgb_to_hsl_by_largest_channel() {
    assert_eq!(Rgb::new(255, 0, 0).to_hsl(), Hsl::new_unchecked(0, 100, 50));
    assert_eq!(Rgb::new(255, 255, 0).to_hsl(), Hsl::new_unchecked(60, 100, 50));
    assert_eq!(Rgb::new(0, 255, 0).to_hsl(), Hsl::new_unchecked(120, 100, 50));
    assert_eq!(Rgb::new(0, 255, 255).to_hsl(), Hsl::new_unchecked(180, 100, 50));
    assert_eq!(Rgb::new(0, 0, 255).to_hsl(), Hsl::new_unchecked(240, 100, 50));
    assert_eq!(Rgb::new(255, 0, 255).to_hsl(), Hsl::new_unchecked(300, 100, 50));
    assert_eq!(Rgb::new(0, 128, 255).to_hsl(), Hsl::new_unchecked(210, 100, 50));
    assert_eq!(Rgb::new(107, 77, 61).to_hsl(), Hsl::new_unchecked(21, 27, 33));
}

#[test]
fn rgb_to_hsl_wraps_a_hue_below_zero() {
    // red is largest and green < blue: 60 * (-128 / 255) + 360 = 329.88
    assert_eq!(Rgb::new(255, 0, 128).to_hsl(), Hsl::new_unchecked(330, 100, 50));
    // 360 - 60 / 255 = 359.76 rounds to a full turn
    assert_eq!(Rgb::new(255, 0, 1).to_hsl(), Hsl::new_unchecked(360, 100, 50));
    assert_eq!(Rgb::new(255, 0, 4).to_hsl(), Hsl::new_unchecked(359, 100, 50));
}

#[test]
fn rgb_to_hsl_saturation_above_half_lightness() {
    // delta = 0.2, l = 0.9: 0.2 / (1 - 0.8) = 100 %
    assert_eq!(Rgb::new(255, 204, 204).to_hsl(), Hsl::new_unchecked(0, 100, 90));
    // delta = 0.4, l = 0.6: 0.4 / 0.8 = 50 %
    assert_eq!(Rgb::new(102, 204, 153).to_hsl(), Hsl::new_unchecked(150, 50, 60));
}

#[test]
fn rgb_to_hsl_is_always_valid() {
    for red in (0..=255u8).step_by(3) {
        for green in (0..=255u8).step_by(5) {
            for blue in (0..=255u8).step_by(15) {
                let hsl = Rgb::new(red, green, blue).to_hsl();
                assert!(Hsl::new(hsl.hue, hsl.saturation, hsl.lightness).is_ok());
            }
        }
    }
}
