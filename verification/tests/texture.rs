use raytracer::color::Color;
use raytracer::texture::{checker_color, ImageTexture, Texture};

fn two_by_two() -> ImageTexture {
    // Top row red and green, bottom row blue and white
    ImageTexture::from_rgb_bytes(2, 2, &[255, 0, 0, 0, 255, 0, 0, 0, 255, 255, 255, 255])
}

#[test]
fn an_image_keeps_its_size() {
    let image = two_by_two();
    assert_eq!((image.width(), image.height()), (2, 2));
}

#[test]
fn texel_gives_the_pixel_at_column_and_row() {
    let image = two_by_two();
    assert_eq!(image.texel(0, 0).to_hex(), 0xFF0000);
    assert_eq!(image.texel(1, 0).to_hex(), 0x00FF00);
    assert_eq!(image.texel(0, 1).to_hex(), 0x0000FF);
    assert_eq!(image.texel(1, 1).to_hex(), 0xFFFFFF);
}

#[test]
fn texel_past_the_edge_stays_in_the_image() {
    let image = two_by_two();
    assert_eq!(image.texel(1, 2).to_hex(), 0xFFFFFF);
    assert_eq!(image.texel(5, 0).to_hex(), 0x00FF00);
    assert_eq!(image.texel(usize::MAX, usize::MAX).to_hex(), 0xFFFFFF);
}

#[test]
fn checker_squares_alternate_between_neighbours() {
    let a = Color::new(255, 255, 255);
    let b = Color::new(0, 0, 0);
    assert_eq!(checker_color(a, b, 0, 0).to_hex(), a.to_hex());
    assert_eq!(checker_color(a, b, 1, 0).to_hex(), b.to_hex());
    assert_eq!(checker_color(a, b, 0, 1).to_hex(), b.to_hex());
    assert_eq!(checker_color(a, b, 1, 1).to_hex(), a.to_hex());
}

#[test]
fn checker_squares_alternate_on_negative_and_extreme_squares() {
    let a = Color::new(1, 2, 3);
    let b = Color::new(4, 5, 6);
    assert_eq!(checker_color(a, b, -1, 0).to_hex(), b.to_hex());
    assert_eq!(checker_color(a, b, -1, -1).to_hex(), a.to_hex());
    assert_eq!(checker_color(a, b, i32::MAX, i32::MAX).to_hex(), a.to_hex());
    assert_eq!(checker_color(a, b, i32::MIN, i32::MAX).to_hex(), b.to_hex());
}

#[test]
fn textures_are_plain_copies() {
    let t = Texture::Checker { a: Color::new(1, 1, 1), b: Color::new(2, 2, 2), tiles: 4 };
    let u = t;
    match (t, u) {
        (Texture::Checker { tiles: x, .. }, Texture::Checker { tiles: y, .. }) => assert_eq!(x, y),
        _ => panic!("the copy changed variant"),
    }
}
