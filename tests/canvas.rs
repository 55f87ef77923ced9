use rawproc::canvas::{Buffer, Color};
use rawproc::output::OutImage;

#[test]
fn colors_pack_as_0rgb() {
    assert_eq!(Color::new(0xDD, 0xAA, 0xFF).u32(), 0x00DDAAFF);
    assert_eq!(Color::new(0, 0, 1).u32(), 1);
}

#[test]
fn set_ignores_positions_outside() {
    let mut b = Buffer::new(3, 2);
    assert_eq!(b.data, vec![0; 6]);
    let white = Color::new(255, 255, 255);
    b.set(2, 1, white);
    b.set(3, 0, white);
    b.set(0, 2, white);
    assert_eq!(b.data, vec![0, 0, 0, 0, 0, 0xFFFFFF]);
    b.clear();
    assert_eq!(b.data, vec![0; 6]);
}

#[test]
fn lines_and_rectangles() {
    let c = Color::new(0, 0, 9);
    let mut b = Buffer::new(4, 3);
    b.hori(1, 3, 1, c);
    assert_eq!(b.data, vec![0, 0, 0, 0, 0, 9, 9, 0, 0, 0, 0, 0]);
    let mut b = Buffer::new(4, 3);
    b.vert(0, 1, 10, c);
    assert_eq!(b.data, vec![0, 0, 0, 0, 9, 0, 0, 0, 9, 0, 0, 0]);
    let mut b = Buffer::new(4, 3);
    b.rect(2, 1, 5, 5, c);
    assert_eq!(b.data, vec![0, 0, 0, 0, 0, 0, 9, 9, 0, 0, 9, 9]);
}

#[test]
fn resize_keeps_and_pads() {
    let mut b = Buffer::new(2, 1);
    b.set(1, 0, Color::new(0, 0, 5));
    b.resize(2, 2);
    assert_eq!((b.width, b.height), (2, 2));
    assert_eq!(b.data, vec![0, 5, 0, 0]);
    b.resize(1, 1);
    assert_eq!(b.data, vec![0]);
}

#[test]
fn out_image_keeps_its_bytes() {
    let img = OutImage::new(2, 1, vec![1, 2, 3, 4, 5, 6]);
    assert_eq!((img.width(), img.height()), (2, 1));
    assert_eq!(img.data(), &vec![1, 2, 3, 4, 5, 6]);
}
