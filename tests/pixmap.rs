use pixelflut::color::Color;
use pixelflut::pixmap::{Pixmap, PixmapError};

#[test]
fn new_pixmap_is_black() {
    let p = Pixmap::new(4, 3).unwrap();
    assert_eq!(p.get_size(), (4, 3));
    assert_eq!(p.get_raw_data(), vec![Color(0, 0, 0); 12]);
}

#[test]
fn new_pixmap_rejects_empty_dimensions() {
    assert_eq!(Pixmap::new(0, 3).err(), Some(PixmapError::InvalidSize));
    assert_eq!(Pixmap::new(3, 0).err(), Some(PixmapError::InvalidSize));
    assert_eq!(Pixmap::new(usize::MAX, 2).err(), Some(PixmapError::InvalidSize));
}

#[test]
fn set_then_get() {
    let mut p = Pixmap::new(10, 10).unwrap();
    assert_eq!(p.set_pixel(3, 4, Color(0xAA, 0xBB, 0xCC)), Ok(()));
    assert_eq!(p.get_pixel(3, 4), Ok(Color(0xAA, 0xBB, 0xCC)));
    assert_eq!(p.get_pixel(4, 3), Ok(Color(0, 0, 0)));
    assert_eq!(p.get_raw_data()[4 * 10 + 3], Color(0xAA, 0xBB, 0xCC));
}

#[test]
fn bounds_of_set_pixel() {
    let mut p = Pixmap::new(10, 7).unwrap();
    assert_eq!(p.set_pixel(9, 6, Color(1, 1, 1)), Ok(()));
    assert_eq!(p.set_pixel(10, 0, Color(1, 1, 1)), Err(PixmapError::OutOfBounds));
    assert_eq!(p.set_pixel(0, 7, Color(1, 1, 1)), Err(PixmapError::OutOfBounds));
    assert_eq!(p.get_pixel(10, 0), Err(PixmapError::OutOfBounds));
    assert_eq!(p.get_pixel(9, 6), Ok(Color(1, 1, 1)));
}

#[test]
fn put_raw_data() {
    let mut p = Pixmap::new(2, 1).unwrap();
    assert_eq!(p.put_raw_data(&[Color(1, 2, 3)]), Err(PixmapError::SizeMismatch));
    assert_eq!(p.get_raw_data(), vec![Color(0, 0, 0); 2]);
    assert_eq!(p.put_raw_data(&[Color(1, 2, 3), Color(4, 5, 6)]), Ok(()));
    assert_eq!(p.get_pixel(1, 0), Ok(Color(4, 5, 6)));
}
