use raytracer::color::Color;
use raytracer::framebuffer::Framebuffer;

#[test]
fn a_new_framebuffer_is_black_and_paints_white() {
    let mut fb = Framebuffer::new(3, 2);
    assert_eq!((fb.width, fb.height), (3, 2));
    assert_eq!(fb.buffer(), &[0u32; 6][..]);
    fb.point(2, 1);
    assert_eq!(fb.buffer()[5], 0xFFFFFF);
}

#[test]
fn point_paints_one_pixel_row_by_row() {
    let mut fb = Framebuffer::new(3, 2);
    fb.set_current_color(0x123456);
    fb.point(1, 1);
    assert_eq!(fb.buffer(), &[0, 0, 0, 0, 0x123456, 0][..]);
}

#[test]
fn point_outside_the_grid_changes_nothing() {
    let mut fb = Framebuffer::new(3, 2);
    fb.set_current_color(0xABCDEF);
    fb.point(3, 0);
    fb.point(0, 2);
    fb.point(usize::MAX, usize::MAX);
    assert_eq!(fb.buffer(), &[0u32; 6][..]);
}

#[test]
fn paint_fills_the_frame_in_order() {
    let mut fb = Framebuffer::new(2, 2);
    fb.paint(&[1, 2, 3, 4]);
    assert_eq!(fb.buffer(), &[1, 2, 3, 4][..]);
    // The current colour is the last one painted
    fb.point(0, 0);
    assert_eq!(fb.buffer()[0], 4);
}

#[test]
fn paint_with_fewer_or_more_colours_than_pixels() {
    let mut fb = Framebuffer::new(2, 2);
    fb.paint(&[7, 8]);
    assert_eq!(fb.buffer(), &[7, 8, 0, 0][..]);
    fb.paint(&[1, 2, 3, 4, 5, 6]);
    assert_eq!(fb.buffer(), &[1, 2, 3, 4][..]);
}

#[test]
fn an_empty_frame_paints_nothing() {
    let mut fb = Framebuffer::new(0, 0);
    fb.paint(&[]);
    assert!(fb.buffer().is_empty());
}

#[test]
fn rgb_bytes_read_back_the_painted_colours() {
    let mut fb = Framebuffer::new(2, 1);
    fb.set_current_color(Color::new(10, 20, 30).to_hex());
    fb.point(1, 0);
    assert_eq!(fb.to_rgb_bytes(), vec![0, 0, 0, 10, 20, 30]);
}
