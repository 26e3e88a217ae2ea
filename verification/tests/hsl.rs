use color_conv::{Cmyk, Color, Error, Hsl, Rgb};

#[test]
fn hsl_test_to_string() {
    let hsl = Hsl::new_unchecked(100, 100, 100);
    assert_eq!(hsl.to_string(), String::from("hsl(100°, 100%, 100%)"));
}

#[test]
fn hsl_test_to_hex_string() {
    let hex = Hsl::new_unchecked(30, 50, 60).to_hex_string();
    assert_eq!(hex, String::from("#cc9966"));
}

#[test]
fn hsl_test_to_rgb() {
    let rgb = Hsl::new_unchecked(30, 50, 60).to_rgb();
    assert_eq!(rgb, Rgb::new(204, 153, 102));
}

#[should_panic]
#[test]
fn test_checked_hsl() {
    Hsl::new(361, 101, 101).unwrap();
}

#[test]
fn hsl_new_checks_percentages_before_degrees() {
    assert!(matches!(Hsl::new(361, 101, 101), Err(Error::PercentageOverflow)));
    assert!(matches!(Hsl::new(361, 101, 0), Err(Error::PercentageOverflow)));
    assert!(matches!(Hsl::new(361, 0, 101), Err(Error::PercentageOverflow)));
    assert!(matches!(Hsl::new(0, 101, 0), Err(Error::PercentageOverflow)));
    assert!(matches!(Hsl::new(0, 0, 101), Err(Error::PercentageOverflow)));
    assert!(matches!(Hsl::new(360, 255, 255), Err(Error::PercentageOverflow)));
}

#[test]
fn hsl_new_reports_degree_overflow() {
    assert!(matches!(Hsl::new(361, 100, 100), Err(Error::DegreeOverflow)));
    assert!(matches!(Hsl::new(361, 0, 0), Err(Error::DegreeOverflow)));
    assert!(matches!(Hsl::new(65535, 50, 50), Err(Error::DegreeOverflow)));
}

#[test]
fn hsl_new_accepts_the_bounds() {
    assert_eq!(Hsl::new(360, 100, 100).unwrap(), Hsl::new_unchecked(360, 100, 100));
    assert_eq!(Hsl::new(0, 0, 0).unwrap(), Hsl::new_unchecked(0, 0, 0));
    let hsl = Hsl::new(180, 100, 50).unwrap();
    assert_eq!((hsl.hue, hsl.saturation, hsl.lightness), (180, 100, 50));
}

#[test]
fn hsl_new_unchecked_keeps_any_fields() {
    let hsl = Hsl::new_unchecked(65535, 255, 254);
    assert_eq!((hsl.hue, hsl.saturation, hsl.lightness), (65535, 255, 254));
}

#[test]
fn hsl_black_to_rgb() {
    assert_eq!(Hsl::new(0, 0, 0).unwrap().to_rgb(), Rgb::new(0, 0, 0));
}

#[test]
fn hsl_full_turn_equals_no_turn() {
    assert_eq!(Hsl::new(360, 100, 50).unwrap().to_rgb(), Rgb::new(255, 0, 0));
    assert_eq!(
        Hsl::new(360, 100, 50).unwrap().to_rgb(),
        Hsl::new(0, 100, 50).unwrap().to_rgb()
    );
    for saturation in 0..=100u8 {
        for lightness in 0..=100u8 {
            assert_eq!(
                Hsl::new(360, saturation, lightness).unwrap().to_rgb(),
                Hsl::new(0, saturation, lightness).unwrap().to_rgb()
            );
        }
    }
}

#[test]
fn hsl_to_rgb_in_every_sector() {
    assert_eq!(Hsl::new(0, 100, 50).unwrap().to_rgb(), Rgb::new(255, 0, 0));
    assert_eq!(Hsl::new(59, 100, 50).unwrap().to_rgb(), Rgb::new(255, 251, 0));
    assert_eq!(Hsl::new(60, 100, 50).unwrap().to_rgb(), Rgb::new(255, 255, 0));
    assert_eq!(Hsl::new(90, 100, 50).unwrap().to_rgb(), Rgb::new(128, 255, 0));
    assert_eq!(Hsl::new(120, 100, 50).unwrap().to_rgb(), Rgb::new(0, 255, 0));
    assert_eq!(Hsl::new(150, 100, 50).unwrap().to_rgb(), Rgb::new(0, 255, 128));
    assert_eq!(Hsl::new(180, 100, 50).unwrap().to_rgb(), Rgb::new(0, 255, 255));
    assert_eq!(Hsl::new(210, 100, 50).unwrap().to_rgb(), Rgb::new(0, 128, 255));
    assert_eq!(Hsl::new(240, 100, 50).unwrap().to_rgb(), Rgb::new(0, 0, 255));
    assert_eq!(Hsl::new(270, 100, 50).unwrap().to_rgb(), Rgb::new(128, 0, 255));
    assert_eq!(Hsl::new(300, 100, 50).unwrap().to_rgb(), Rgb::new(255, 0, 255));
    assert_eq!(Hsl::new(330, 100, 50).unwrap().to_rgb(), Rgb::new(255, 0, 128));
    assert_eq!(Hsl::new(359, 100, 50).unwrap().to_rgb(), Rgb::new(255, 0, 4));
}

#[test]
fn hsl_grays_to_rgb() {
    assert_eq!(Hsl::new(123, 0, 100).unwrap().to_rgb(), Rgb::new(255, 255, 255));
    assert_eq!(Hsl::new(321, 100, 100).unwrap().to_rgb(), Rgb::new(255, 255, 255));
    assert_eq!(Hsl::new(200, 100, 0).unwrap().to_rgb(), Rgb::new(0, 0, 0));
    // 255 * 0.5 = 127.5 rounds up
    assert_eq!(Hsl::new(200, 0, 50).unwrap().to_rgb(), Rgb::new(128, 128, 128));
    assert_eq!(Hsl::new(0, 0, 20).unwrap().to_rgb(), Rgb::new(51, 51, 51));
}

#[test]
fn hsl_to_rgb_rounds_halves_up() {
    // c = 0.6, m = 0.1: the smallest channel is 255 * 0.1 = 25.5
    assert_eq!(Hsl::new(0, 75, 40).unwrap().to_rgb(), Rgb::new(179, 26, 26));
    // c = 0.8, m = 0.1
    assert_eq!(Hsl::new(0, 80, 50).unwrap().to_rgb(), Rgb::new(230, 26, 26));
}

#[test]
fn hsl_to_hsl_is_identity() {
    for hue in 0..=360u16 {
        let hsl = Hsl::new(hue, (hue % 101) as u8, (hue % 97) as u8).unwrap();
        assert_eq!(hsl.to_hsl(), hsl);
    }
}

#[test]
fn hsl_to_cmyk_goes_through_rgb() {
    assert_eq!(Hsl::new_unchecked(180, 100, 50).to_cmyk(), Cmyk::new_unchecked(100, 0, 0, 0));
    let hsl = Hsl::new(30, 50, 60).unwrap();
    assert_eq!(hsl.to_cmyk(), Rgb::new(204, 153, 102).to_cmyk());
    assert_eq!(hsl.to_cmyk(), Cmyk::new_unchecked(0, 25, 50, 20));
}

#[test]
fn hsl_to_hex_string_goes_through_rgb() {
    assert_eq!(Hsl::new(360, 100, 50).unwrap().to_hex_string(), "#ff0000");
    assert_eq!(Hsl::new(0, 0, 0).unwrap().to_hex_string(), "#000000");
    assert_eq!(Hsl::new(210, 100, 50).unwrap().to_hex_string(), "#0080ff");
}

#[test]
fn hsl_to_string_renders_every_width() {
    assert_eq!(Hsl::new(0, 5, 10).unwrap().to_string(), "hsl(0°, 5%, 10%)");
    assert_eq!(Hsl::new(360, 99, 100).unwrap().to_string(), "hsl(360°, 99%, 100%)");
    assert_eq!(Hsl::new_unchecked(65535, 255, 200).to_string(), "hsl(65535°, 255%, 200%)");
    assert_eq!(Hsl::new_unchecked(1000, 0, 0).to_string(), "hsl(1000°, 0%, 0%)");
    assert_eq!(Hsl::new_unchecked(10909, 0, 0).to_string(), "hsl(10909°, 0%, 0%)");
}

#[test]
fn hsl_round_trip_keeps_lightness() {
    for hue in (0..=360u16).step_by(7) {
        for saturation in 0..=100u8 {
            for lightness in 0..=100u8 {
                let hsl = Hsl::new(hue, saturation, lightness).unwrap();
                assert_eq!(hsl.to_rgb().to_hsl().lightness, lightness);
            }
        }
    }
}

#[test]
fn hsl_round_trip_of_a_gray_has_no_hue() {
    for hue in 0..=360u16 {
        for level in 0..=100u8 {
            let gray = Hsl::new(hue, 0, level).unwrap().to_rgb().to_hsl();
            assert_eq!(gray, Hsl::new_unchecked(0, 0, level));
            let black = Hsl::new(hue, level, 0).unwrap().to_rgb().to_hsl();
            assert_eq!(black, Hsl::new_unchecked(0, 0, 0));
            let white = Hsl::new(hue, level, 100).unwrap().to_rgb().to_hsl();
            assert_eq!(white, Hsl::new_unchecked(0, 0, 100));
        }
    }
}

#[test]
fn hsl_round_trip_keeps_saturation() {
    for hue in (0..=360u16).step_by(11) {
        for saturation in 0..=100u8 {
            for lightness in 12..=88u8 {
                let hsl = Hsl::new(hue, saturation, lightness).unwrap();
                let back = hsl.to_rgb().to_hsl();
                assert!((back.saturation as i32 - saturation as i32).abs() <= 1);
            }
        }
    }
}

#[test]
fn hsl_round_trip_keeps_hue() {
    for hue in 0..=360u16 {
        for saturation in (0..=100u8).step_by(3) {
            for lightness in (0..=100u8).step_by(3) {
                let width = 100 - (2 * lightness as i32 - 100).abs();
                if width * (saturation as i32) < 1569 {
                    continue;
                }
                let hsl = Hsl::new(hue, saturation, lightness).unwrap();
                let back = hsl.to_rgb().to_hsl();
                let near = (back.hue as i32 - hue as i32).abs() <= 1;
                assert!(near || (hue >= 359 && back.hue == 0));
                if hue == 360 {
                    assert_eq!(back.hue, 0);
                }
            }
        }
    }
}

#[test]
fn hsl_round_trip_wraps_at_the_end_of_the_wheel() {
    assert_eq!(Hsl::new(360, 100, 50).unwrap().to_rgb().to_hsl(), Hsl::new_unchecked(0, 100, 50));
    assert_eq!(Hsl::new(359, 100, 50).unwrap().to_rgb().to_hsl(), Hsl::new_unchecked(359, 100, 50));
    assert_eq!(Hsl::new(359, 17, 48).unwrap().to_rgb(), Rgb::new(143, 102, 102));
    assert_eq!(Hsl::new(359, 17, 48).unwrap().to_rgb().to_hsl().hue, 0);
}

#[test]
fn hsl_round_trip_loses_the_hue_of_a_pale_color() {
    let hsl = Hsl::new(10, 1, 50).unwrap();
    assert_eq!(hsl.to_rgb(), Rgb::new(129, 127, 126));
    assert_eq!(hsl.to_rgb().to_hsl(), Hsl::new_unchecked(20, 1, 50));
    let hsl = Hsl::new(352, 66, 11).unwrap();
    assert_eq!(hsl.to_rgb().to_hsl(), Hsl::new_unchecked(354, 65, 11));
}

#[test]
fn hsl_round_trip_loses_the_saturation_of_a_dark_color() {
    let hsl = Hsl::new(0, 50, 1).unwrap();
    assert_eq!(hsl.to_rgb(), Rgb::new(4, 1, 1));
    assert_eq!(hsl.to_rgb().to_hsl(), Hsl::new_unchecked(0, 60, 1));
    let hsl = Hsl::new(0, 2, 11).unwrap();
    assert_eq!(hsl.to_rgb(), Rgb::new(29, 27, 27));
    assert_eq!(hsl.to_rgb().to_hsl(), Hsl::new_unchecked(0, 4, 11));
    let hsl = Hsl::new(0, 2, 89).unwrap();
    assert_eq!(hsl.to_rgb(), Rgb::new(228, 226, 226));
    assert_eq!(hsl.to_rgb().to_hsl(), Hsl::new_unchecked(0, 4, 89));
}
