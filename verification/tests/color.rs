use gooey::Color;

#[test]
fn from_components_is_opaque() {
    let c = Color::from_components(10, 20, 30);
    assert_eq!(c.r, 10);
    assert_eq!(c.g, 20);
    assert_eq!(c.b, 30);
    assert_eq!(c.a, 255);
}

#[test]
fn from_rgba_unpacks_all_channels() {
    let c = Color::from_rgba(0x11223344);
    assert_eq!(c.r, 0x11);
    assert_eq!(c.g, 0x22);
    assert_eq!(c.b, 0x33);
    assert_eq!(c.a, 0x44);
}

#[test]
fn from_rgba_extremes() {
    let c = Color::from_rgba(0xFFFFFFFF);
    assert_eq!((c.r, c.g, c.b, c.a), (255, 255, 255, 255));
    let c = Color::from_rgba(0);
    assert_eq!((c.r, c.g, c.b, c.a), (0, 0, 0, 0));
}

#[test]
fn from_rgb_forces_opaque_alpha() {
    let c = Color::from_rgb(0x99999900);
    assert_eq!(c.r, 0x99);
    assert_eq!(c.g, 0x99);
    assert_eq!(c.b, 0x99);
    assert_eq!(c.a, 255);
    let c = Color::from_rgb(0xAABBCC00);
    assert_eq!((c.r, c.g, c.b, c.a), (0xAA, 0xBB, 0xCC, 0xFF));
}
