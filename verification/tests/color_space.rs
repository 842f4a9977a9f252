use ascim::color::{color_category, get_color_code, rgb_to_hsv, ColorCategory};
use ascim::ratio::Ratio;

fn as_float(r: Ratio) -> f64 {
    r.num() as f64 / r.den() as f64
}

fn float_hsv(red: f64, green: f64, blue: f64) -> (f64, f64, f64) {
    let max = red.max(green).max(blue);
    let min = red.min(green).min(blue);
    let value = max;
    let chroma = max - min;
    let saturation = if value.abs() < 1e-4 { 0.0 } else { chroma / value };
    let hue = if chroma < 1e-4 {
        0.0
    } else if (max - red).abs() < 1e-10 {
        let h = 60.0 * ((green - blue) / chroma % 6.0);
        if h < 0.0 {
            h + 360.0
        } else {
            h
        }
    } else if (max - green).abs() < 1e-10 {
        60.0 * (2.0 + (blue - red) / chroma)
    } else {
        60.0 * (4.0 + (red - green) / chroma)
    };
    (hue, saturation, value)
}

#[test]
fn pure_red_has_hue_zero_and_full_saturation_and_value() {
    let hsv = rgb_to_hsv(255, 0, 0);
    assert_eq!(hsv.hue().num(), 0);
    assert_eq!(as_float(hsv.saturation()), 1.0);
    assert_eq!(hsv.value().num(), 255);
    assert_eq!(hsv.value().den(), 255);
    assert_eq!(color_category(&hsv), ColorCategory::Red);
    assert_eq!(get_color_code(&hsv), "\x1B[31m");
}

#[test]
fn pure_green_has_hue_120() {
    let hsv = rgb_to_hsv(0, 255, 0);
    assert_eq!(as_float(hsv.hue()), 120.0);
    assert_eq!(as_float(hsv.saturation()), 1.0);
    assert_eq!(as_float(hsv.value()), 1.0);
    assert_eq!(get_color_code(&hsv), "\x1B[32m");
}

#[test]
fn pure_blue_has_hue_240() {
    let hsv = rgb_to_hsv(0, 0, 255);
    assert_eq!(as_float(hsv.hue()), 240.0);
    assert_eq!(get_color_code(&hsv), "\x1B[34m");
}

#[test]
fn grey_pixels_have_no_saturation_and_no_hue() {
    for level in 0..=255u8 {
        let hsv = rgb_to_hsv(level, level, level);
        assert_eq!(hsv.saturation().num(), 0);
        assert_eq!(hsv.hue().num(), 0);
        assert_eq!(hsv.value().num(), level as i32);
        assert_eq!(color_category(&hsv), ColorCategory::Neutral);
    }
}

#[test]
fn black_has_saturation_zero_and_value_zero() {
    let hsv = rgb_to_hsv(0, 0, 0);
    assert_eq!(hsv.saturation().num(), 0);
    assert_eq!(hsv.value().num(), 0);
    assert_eq!(hsv.luminance().num(), 0);
}

#[test]
fn hue_saturation_and_value_stay_in_range() {
    for r in (0..=255u16).step_by(5) {
        for g in (0..=255u16).step_by(3) {
            for b in (0..=255u16).step_by(7) {
                let hsv = rgb_to_hsv(r as u8, g as u8, b as u8);
                let hue = as_float(hsv.hue());
                let saturation = as_float(hsv.saturation());
                let value = as_float(hsv.value());
                assert!((0.0..360.0).contains(&hue));
                assert!((0.0..=1.0).contains(&saturation));
                assert!((0.0..=1.0).contains(&value));
            }
        }
    }
}

#[test]
fn exact_fractions_agree_with_floating_point_formulas() {
    for r in (0..=255u16).step_by(5) {
        for g in (0..=255u16).step_by(3) {
            for b in (0..=255u16).step_by(7) {
                let hsv = rgb_to_hsv(r as u8, g as u8, b as u8);
                let (hue, saturation, value) =
                    float_hsv(r as f64 / 255.0, g as f64 / 255.0, b as f64 / 255.0);
                assert!((as_float(hsv.hue()) - hue).abs() < 1e-9);
                assert!((as_float(hsv.saturation()) - saturation).abs() < 1e-12);
                assert!((as_float(hsv.value()) - value).abs() < 1e-12);
            }
        }
    }
}

#[test]
fn hue_in_each_sector() {
    // Red is the largest channel and green is below blue: folded by a full turn.
    let hsv = rgb_to_hsv(200, 0, 100);
    assert_eq!(hsv.hue().num(), 60 * (0 - 100) + 360 * 200);
    assert_eq!(hsv.hue().den(), 200);
    assert_eq!(as_float(hsv.hue()), 330.0);
    // Green is the largest channel.
    let hsv = rgb_to_hsv(50, 250, 150);
    assert_eq!(hsv.hue().num(), 60 * (2 * 200 + (150 - 50)));
    assert_eq!(hsv.hue().den(), 200);
    assert_eq!(as_float(hsv.hue()), 150.0);
    // Blue is the largest channel.
    let hsv = rgb_to_hsv(100, 50, 250);
    assert_eq!(hsv.hue().num(), 60 * (4 * 200 + (100 - 50)));
    assert_eq!(as_float(hsv.hue()), 255.0);
}

#[test]
fn ties_for_the_maximum_ask_red_before_green_before_blue() {
    // Red and green tie: the red sector gives sixty degrees.
    let yellow = rgb_to_hsv(255, 255, 0);
    assert_eq!(as_float(yellow.hue()), 60.0);
    // Green and blue tie: the green sector gives 180 degrees.
    let cyan = rgb_to_hsv(0, 255, 255);
    assert_eq!(as_float(cyan.hue()), 180.0);
    // Red and blue tie: the red sector, folded, gives 300 degrees.
    let magenta = rgb_to_hsv(255, 0, 255);
    assert_eq!(as_float(magenta.hue()), 300.0);
}

#[test]
fn saturation_is_chroma_over_value() {
    let hsv = rgb_to_hsv(200, 150, 100);
    assert_eq!(hsv.saturation().num(), 100);
    assert_eq!(hsv.saturation().den(), 200);
    assert_eq!(hsv.value().num(), 200);
}

#[test]
fn luminance_is_the_square_of_the_value() {
    let hsv = rgb_to_hsv(10, 128, 20);
    let luminance = hsv.luminance();
    assert_eq!(luminance.num(), 128 * 128);
    assert_eq!(luminance.den(), 255 * 255);
}

#[test]
fn categories_by_saturation_and_hue() {
    // Saturation just below and exactly at a quarter.
    assert_eq!(color_category(&rgb_to_hsv(200, 151, 151)), ColorCategory::Neutral);
    assert_eq!(color_category(&rgb_to_hsv(200, 150, 150)), ColorCategory::Red);
    // Hue of exactly 30 degrees starts the yellow sector.
    assert_eq!(color_category(&rgb_to_hsv(200, 100, 0)), ColorCategory::Yellow);
    assert_eq!(color_category(&rgb_to_hsv(200, 99, 0)), ColorCategory::Red);
    // Hue of exactly 90 degrees starts the green sector.
    assert_eq!(color_category(&rgb_to_hsv(100, 200, 0)), ColorCategory::Green);
    assert_eq!(color_category(&rgb_to_hsv(101, 200, 0)), ColorCategory::Yellow);
    assert_eq!(color_category(&rgb_to_hsv(0, 200, 100)), ColorCategory::Cyan);
    assert_eq!(color_category(&rgb_to_hsv(0, 100, 200)), ColorCategory::Blue);
    assert_eq!(color_category(&rgb_to_hsv(100, 0, 200)), ColorCategory::Magenta);
    // Hue of exactly 330 degrees wraps back to red.
    assert_eq!(color_category(&rgb_to_hsv(200, 0, 100)), ColorCategory::Red);
    assert_eq!(color_category(&rgb_to_hsv(200, 0, 101)), ColorCategory::Magenta);
}

#[test]
fn escape_codes_of_the_categories() {
    assert_eq!(ColorCategory::Neutral.escape(), "\x1B[37m");
    assert_eq!(ColorCategory::Yellow.escape(), "\x1B[33m");
    assert_eq!(ColorCategory::Green.escape(), "\x1B[32m");
    assert_eq!(ColorCategory::Cyan.escape(), "\x1B[36m");
    assert_eq!(ColorCategory::Blue.escape(), "\x1B[34m");
    assert_eq!(ColorCategory::Magenta.escape(), "\x1B[35m");
    assert_eq!(ColorCategory::Red.escape(), "\x1B[31m");
}

#[test]
fn ratios_compare_as_fractions() {
    let half = Ratio::new(1, 2).unwrap();
    let two_quarters = Ratio::of(2, 4);
    let third = Ratio::of(1, 3);
    assert!(Ratio::new(1, 0).is_none());
    assert!(third.lt(&half));
    assert!(!half.lt(&two_quarters));
    assert!(half.le(&two_quarters));
    assert!(half.ge(&third));
    assert!(half.gt(&third));
    assert!(half.within(&third, &Ratio::whole(1)));
    assert!(!Ratio::of(-1, 2).ge(&Ratio::whole(0)));
    assert!(Ratio::of(i32::MIN, u32::MAX).lt(&Ratio::of(i32::MAX, u32::MAX)));
}
