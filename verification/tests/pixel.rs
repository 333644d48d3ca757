use embargo::pixel::{PremultipliedColor, RgbaPixel};

#[test]
fn new_keeps_channels() {
    let p = RgbaPixel::new(1, 2, 3, 4);
    assert_eq!((p.red, p.green, p.blue, p.alpha), (1, 2, 3, 4));
}

#[test]
fn transparent_is_all_zero() {
    assert_eq!(RgbaPixel::transparent(), RgbaPixel::new(0, 0, 0, 0));
}

#[test]
fn default_is_opaque_black() {
    assert_eq!(RgbaPixel::default(), RgbaPixel::new(0, 0, 0, 255));
}

#[test]
fn from_rgb_is_opaque() {
    assert_eq!(RgbaPixel::from_rgb(9, 8, 7), RgbaPixel::new(9, 8, 7, 255));
}

#[test]
fn wire_order_is_blue_green_red_alpha() {
    assert_eq!(RgbaPixel::new(1, 2, 3, 4).wire_bytes(), [3, 2, 1, 4]);
}

#[test]
fn blend_opaque_replaces_colour() {
    let mut p = RgbaPixel::new(200, 100, 50, 255);
    let c = PremultipliedColor { red: 10, green: 20, blue: 30, alpha: 255 };
    assert!(p.can_blend(c));
    p.blend(c);
    assert_eq!(p, RgbaPixel::new(10, 20, 30, 255));
}

#[test]
fn blend_half_attenuates_background() {
    let mut p = RgbaPixel::new(255, 100, 0, 7);
    let c = PremultipliedColor { red: 0, green: 50, blue: 128, alpha: 128 };
    assert!(p.can_blend(c));
    p.blend(c);
    // 255 * 127 / 255 = 127; 100 * 127 / 255 = 49, plus 50; 0 plus 128.
    assert_eq!(p, RgbaPixel::new(127, 99, 128, 7));
}

#[test]
fn blend_that_would_overflow_is_told_apart() {
    let p = RgbaPixel::new(255, 0, 0, 255);
    let c = PremultipliedColor { red: 200, green: 0, blue: 0, alpha: 10 };
    assert!(!p.can_blend(c));
}
