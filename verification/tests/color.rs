use raytracer::color::Color;

#[test]
fn new_keeps_the_channels() {
    let c = Color::new(10, 20, 30);
    assert_eq!((c.r, c.g, c.b), (10, 20, 30));
}

#[test]
fn to_hex_packs_red_green_blue() {
    assert_eq!(Color::new(0x12, 0x34, 0x56).to_hex(), 0x123456);
    assert_eq!(Color::new(255, 0, 0).to_hex(), 0xFF0000);
    assert_eq!(Color::new(0, 255, 0).to_hex(), 0x00FF00);
    assert_eq!(Color::new(0, 0, 255).to_hex(), 0x0000FF);
    assert_eq!(Color::new(0, 0, 0).to_hex(), 0);
    assert_eq!(Color::new(255, 255, 255).to_hex(), 0xFFFFFF);
}

#[test]
fn adding_colours_saturates_each_channel() {
    let sum = Color::new(200, 10, 255) + Color::new(100, 20, 1);
    assert_eq!((sum.r, sum.g, sum.b), (255, 30, 255));
}

#[test]
fn adding_colours_is_commutative_and_black_is_neutral() {
    let a = Color::new(120, 200, 3);
    let b = Color::new(150, 40, 250);
    assert_eq!((a + b).to_hex(), (b + a).to_hex());
    assert_eq!((a + Color::new(0, 0, 0)).to_hex(), a.to_hex());
    let c = Color::new(10, 20, 30);
    assert_eq!(((a + b) + c).to_hex(), (a + (b + c)).to_hex());
}
