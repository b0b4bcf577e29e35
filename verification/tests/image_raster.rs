use mandelbrot::image::{encode_pixel, ImageBuffer, RasterLayout};
use mandelbrot::kernel::Variant;

#[test]
fn escape_only_pixel() {
    assert_eq!(encode_pixel(Variant::EscapeOnly, 0), [0, 0, 0, 0]);
    assert_eq!(encode_pixel(Variant::EscapeOnly, 1), [1, 0, 0, 255]);
    assert_eq!(encode_pixel(Variant::EscapeOnly, 127), [127, 0, 0, 255]);
    assert_eq!(encode_pixel(Variant::EscapeOnly, 255), [255, 0, 0, 255]);
}

#[test]
fn distance_estimate_pixel() {
    assert_eq!(encode_pixel(Variant::DistanceEstimate, 0), [0, 0, 0, 0]);
    assert_eq!(encode_pixel(Variant::DistanceEstimate, 100), [0, 0, 0, 100]);
    assert_eq!(encode_pixel(Variant::DistanceEstimate, 255), [0, 0, 0, 255]);
}

#[test]
fn assemble_is_row_major_without_padding() {
    let shades: Vec<u8> = vec![0, 100, 255, 7, 8, 9];
    let image = ImageBuffer::assemble(&shades, 3, 2, Variant::DistanceEstimate).unwrap();
    assert_eq!(image.resolution_x(), 3);
    assert_eq!(image.resolution_y(), 2);
    assert_eq!(
        image.bytes(),
        &vec![0, 0, 0, 0, 0, 0, 0, 100, 0, 0, 0, 255, 0, 0, 0, 7, 0, 0, 0, 8, 0, 0, 0, 9]
    );
}

#[test]
fn assemble_escape_only() {
    let shades: Vec<u8> = vec![0, 127];
    let image = ImageBuffer::assemble(&shades, 2, 1, Variant::EscapeOnly).unwrap();
    assert_eq!(image.into_bytes(), vec![0, 0, 0, 0, 127, 0, 0, 255]);
}

#[test]
fn raster_length_is_four_bytes_a_pixel() {
    for (x, y) in [(0usize, 0usize), (1, 1), (5, 3), (3, 5), (16, 9), (0, 4), (4, 0)] {
        let shades: Vec<u8> = vec![9; x * y];
        let image = ImageBuffer::assemble(&shades, x, y, Variant::EscapeOnly).unwrap();
        assert_eq!(image.bytes().len(), 4 * x * y);
    }
}

#[test]
fn empty_grid_gives_an_empty_raster() {
    let image = ImageBuffer::assemble(&Vec::new(), 7, 0, Variant::DistanceEstimate).unwrap();
    assert!(image.bytes().is_empty());
    assert_eq!(image.resolution_x(), 7);
    assert_eq!(image.resolution_y(), 0);
}

#[test]
fn assemble_refuses_a_field_of_another_size() {
    let shades: Vec<u8> = vec![1, 2, 3];
    assert!(ImageBuffer::assemble(&shades, 2, 2, Variant::EscapeOnly).is_none());
    assert!(ImageBuffer::assemble(&shades, 1, 2, Variant::EscapeOnly).is_none());
    assert!(ImageBuffer::assemble(&shades, 0, 0, Variant::EscapeOnly).is_none());
    assert!(ImageBuffer::assemble(&shades, 3, 1, Variant::EscapeOnly).is_some());
}

#[test]
fn assemble_refuses_a_grid_beyond_the_address_space() {
    let shades: Vec<u8> = Vec::new();
    assert!(ImageBuffer::assemble(&shades, usize::MAX, 2, Variant::EscapeOnly).is_none());
    assert!(ImageBuffer::assemble(&shades, usize::MAX, usize::MAX, Variant::EscapeOnly).is_none());
}

#[test]
fn changing_one_shade_changes_one_pixel() {
    let mut shades: Vec<u8> = vec![10, 20, 30, 40];
    let before = ImageBuffer::assemble(&shades, 2, 2, Variant::EscapeOnly).unwrap().into_bytes();
    shades[2] = 0;
    let after = ImageBuffer::assemble(&shades, 2, 2, Variant::EscapeOnly).unwrap().into_bytes();
    assert_eq!(before[..8], after[..8]);
    assert_eq!(before[12..], after[12..]);
    assert_eq!(after[8..12], [0, 0, 0, 0]);
    assert_eq!(before[8..12], [30, 0, 0, 255]);
}

#[test]
fn layout_of_a_small_image() {
    let shades: Vec<u8> = vec![0; 6];
    let image = ImageBuffer::assemble(&shades, 3, 2, Variant::DistanceEstimate).unwrap();
    assert_eq!(
        image.layout(),
        Some(RasterLayout { width: 3, height: 2, row_stride: 12, bits_per_sample: 8, has_alpha: true })
    );
}

#[test]
fn layout_needs_a_row_stride_of_31_bits() {
    let empty: Vec<u8> = Vec::new();
    let widest = ImageBuffer::assemble(&empty, 0x1fff_ffff, 0, Variant::EscapeOnly).unwrap();
    assert_eq!(widest.layout().unwrap().row_stride, 0x7fff_fffc);
    let too_wide = ImageBuffer::assemble(&empty, 0x2000_0000, 0, Variant::EscapeOnly).unwrap();
    assert_eq!(too_wide.layout(), None);
    let too_tall = ImageBuffer::assemble(&empty, 0, 0x8000_0000, Variant::EscapeOnly).unwrap();
    assert_eq!(too_tall.layout(), None);
    let tallest = ImageBuffer::assemble(&empty, 0, 0x7fff_ffff, Variant::EscapeOnly).unwrap();
    assert_eq!(tallest.layout().unwrap().height, i32::MAX);
}
