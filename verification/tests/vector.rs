use oxideav_core::vector::{FillRule, LineCap, LineJoin, MaskKind, Rgba, SpreadMethod};

#[test]
fn rgba_constructors() {
    let c = Rgba::opaque(10, 20, 30);
    assert_eq!(c.a, 255);
    let c2 = Rgba::new(10, 20, 30, 128);
    assert_eq!(c2.a, 128);
}

#[test]
fn mask_kind_default_is_luminance() {
    assert_eq!(MaskKind::default(), MaskKind::Luminance);
}

#[test]
fn style_defaults_are_the_documented_ones() {
    assert_eq!(SpreadMethod::default(), SpreadMethod::Pad);
    assert_eq!(LineCap::default(), LineCap::Butt);
    assert_eq!(LineJoin::default(), LineJoin::Miter);
    assert_eq!(FillRule::default(), FillRule::NonZero);
    assert_eq!(Rgba::default(), Rgba::new(0, 0, 0, 0));
}

#[test]
fn opaque_keeps_the_channels() {
    let c = Rgba::opaque(1, 2, 3);
    assert_eq!((c.r, c.g, c.b), (1, 2, 3));
    assert_eq!(c, Rgba::new(1, 2, 3, 255));
}
