use raytracer::color::Color;
use raytracer::fx::{Fx, FX_SCALE};

fn fx(n: i64) -> Fx {
    Fx::from_int(n)
}

#[test]
fn named_colors_hold_their_channels() {
    let red = Color::red();
    assert_eq!((red.r.raw, red.g.raw, red.b.raw), (FX_SCALE, 0, 0));
    let white = Color::white();
    assert_eq!((white.r.raw, white.g.raw, white.b.raw), (FX_SCALE, FX_SCALE, FX_SCALE));
    let black = Color::black();
    assert_eq!((black.r.raw, black.g.raw, black.b.raw), (0, 0, 0));
    let gray = Color::gray();
    assert_eq!(gray.r.raw, 4 * FX_SCALE / 10);
    let green = Color::green();
    assert_eq!(green.r.raw, 2 * FX_SCALE / 10);
    assert_eq!(green.g.raw, 9 * FX_SCALE / 10);
    assert_eq!(green.b.raw, 1 * FX_SCALE / 10);
}

#[test]
fn color_arithmetic_matches_hand_values() {
    let a = Color::new(fx(1), fx(2), fx(3));
    let b = Color::new(fx(4), fx(5), fx(6));
    let s = a.add(b);
    assert_eq!((s.r.raw, s.g.raw, s.b.raw), (5 * FX_SCALE, 7 * FX_SCALE, 9 * FX_SCALE));
    let m = a.mul(b);
    assert_eq!((m.r.raw, m.g.raw, m.b.raw), (4 * FX_SCALE, 10 * FX_SCALE, 18 * FX_SCALE));
    let k = a.scale(fx(3));
    assert_eq!((k.r.raw, k.g.raw, k.b.raw), (3 * FX_SCALE, 6 * FX_SCALE, 9 * FX_SCALE));
}

#[test]
fn quantize_applies_average_gamma_clamp_and_floor() {
    // A full-white accumulation clamps at 0.999 and quantizes to 255.
    assert_eq!(Color::white().quantize(1), (255, 255, 255));
    // Black stays black.
    assert_eq!(Color::black().quantize(1), (0, 0, 0));
    // 0.4 gamma-corrects to sqrt(0.4) ~ 0.632, giving floor(255.999 * it).
    assert_eq!(Color::gray().quantize(1), (161, 161, 161));
    // 0.5 gamma-corrects to sqrt(0.5) ~ 0.707.
    let half = Color::new(Fx::from_ratio(1, 2), Fx::from_ratio(1, 2), Fx::from_ratio(1, 2));
    assert_eq!(half.quantize(1), (181, 181, 181));
    // Averaging four white samples over four samples is white again.
    let four = Color::new(fx(4), fx(4), fx(4));
    assert_eq!(four.quantize(4), (255, 255, 255));
    // The mixed green tone maps channelwise.
    assert_eq!(Color::green().quantize(1), (114, 242, 80));
}
