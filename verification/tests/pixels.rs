use yasa::pixels::Color;
use yasa::pixels::PixelBuffer;

/// A buffer whose pixel in column `x` of row `y` is `(x, y, x + y, 255)`.
fn grid(width: u32, height: u32) -> PixelBuffer {
    let mut data = Vec::new();
    for y in 0..height {
        for x in 0..width {
            data.push(x as u8);
            data.push(y as u8);
            data.push((x + y) as u8);
            data.push(255);
        }
    }
    PixelBuffer::from_raw(width, height, data).unwrap()
}

#[test]
fn from_raw_wants_four_samples_a_pixel() {
    assert!(PixelBuffer::from_raw(2, 2, vec![0; 16]).is_some());
    assert!(PixelBuffer::from_raw(2, 2, vec![0; 15]).is_none());
    assert!(PixelBuffer::from_raw(2, 2, vec![0; 17]).is_some());
    assert!(PixelBuffer::from_raw(0, 0, vec![]).is_some());
    assert!(PixelBuffer::from_raw(u32::MAX, u32::MAX, vec![0; 16]).is_none());
}

#[test]
fn dimensions_are_those_given() {
    let b = grid(7, 3);
    assert_eq!(b.width(), 7);
    assert_eq!(b.height(), 3);
}

#[test]
fn pixels_are_read_row_by_row() {
    let b = grid(7, 3);
    assert_eq!(b.get_pixel(0, 0), Some(Color { r: 0, g: 0, b: 0, a: 255 }));
    assert_eq!(b.get_pixel(6, 2), Some(Color { r: 6, g: 2, b: 8, a: 255 }));
    assert_eq!(b.get_pixel(2, 1), Some(Color { r: 2, g: 1, b: 3, a: 255 }));
    assert_eq!(b.get_pixel(7, 0), None);
    assert_eq!(b.get_pixel(0, 3), None);
}

#[test]
fn to_raw_gives_the_samples_back() {
    let data: Vec<u8> = (0..24).collect();
    let b = PixelBuffer::from_raw(3, 2, data.clone()).unwrap();
    assert_eq!(b.to_raw(), data);
}

#[test]
fn crop_copies_the_rectangle() {
    let b = grid(10, 8);
    let c = b.crop(2, 3, 4, 5);
    assert_eq!((c.width(), c.height()), (4, 5));
    assert_eq!(c.to_raw().len(), 4 * 4 * 5);
    for j in 0..5 {
        for i in 0..4 {
            assert_eq!(c.get_pixel(i, j), b.get_pixel(2 + i, 3 + j));
        }
    }
    assert_eq!(c.get_pixel(0, 0), Some(Color { r: 2, g: 3, b: 5, a: 255 }));
}

#[test]
fn crop_is_cut_down_to_the_grid() {
    let b = grid(10, 8);
    let c = b.crop(8, 6, 5, 5);
    assert_eq!((c.width(), c.height()), (2, 2));
    assert_eq!(c.get_pixel(1, 1), Some(Color { r: 9, g: 7, b: 16, a: 255 }));
    let d = b.crop(20, 20, 5, 5);
    assert_eq!((d.width(), d.height()), (0, 0));
    let e = b.crop(10, 0, 1, 8);
    assert_eq!((e.width(), e.height()), (0, 8));
    let f = b.crop(0, 0, u32::MAX, u32::MAX);
    assert_eq!((f.width(), f.height()), (10, 8));
    assert_eq!(f.to_raw(), b.to_raw());
}
