use slowrx::image::SstvImage;
use slowrx::modespec::SstvMode;

#[test]
fn new_image_is_black() {
    let img = SstvImage::new(SstvMode::Robot36, 4, 2);
    assert_eq!(img.mode, SstvMode::Robot36);
    assert_eq!(img.width, 4);
    assert_eq!(img.height, 2);
    assert_eq!(img.pixels, vec![[0u8; 3]; 8]);
}

#[test]
fn put_pixel_then_row_reads_it_back() {
    let mut img = SstvImage::new(SstvMode::Pd120, 4, 2);
    img.put_pixel(1, 1, [1, 2, 3]);
    assert_eq!(img.pixels[5], [1, 2, 3]);
    assert_eq!(img.row(1), vec![[0, 0, 0], [1, 2, 3], [0, 0, 0], [0, 0, 0]]);
    assert_eq!(img.row(0), vec![[0u8; 3]; 4]);
}

#[test]
fn put_pixel_outside_is_ignored() {
    let mut img = SstvImage::new(SstvMode::Pd120, 4, 2);
    img.put_pixel(4, 0, [9, 9, 9]);
    img.put_pixel(0, 2, [9, 9, 9]);
    assert_eq!(img.pixels, vec![[0u8; 3]; 8]);
}
