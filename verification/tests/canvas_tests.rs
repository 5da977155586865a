use qr_render::render::canvas::Canvas;
use qr_render::render::image::{Image, Luma, LumaA, Rgb, Rgba};
use qr_render::types::RenderError;

#[test]
fn canvas_starts_light_all_over() {
    let canvas = Canvas::new(3, 2, Luma([0]), Luma([255])).unwrap();
    let image = canvas.into_image();
    assert_eq!(image.dimensions(), (3, 2));
    assert_eq!(image.into_raw(), vec![255; 6]);
}

#[test]
fn canvas_keeps_the_pixels_it_is_given() {
    let canvas = Canvas::new(2, 1, Rgb([1, 2, 3]), Rgb([4, 5, 6])).unwrap();
    assert_eq!(canvas.into_image().into_raw(), vec![4, 5, 6, 4, 5, 6]);
    let mut canvas = Canvas::new(2, 1, Rgb([1, 2, 3]), Rgb([4, 5, 6])).unwrap();
    canvas.draw_dark_pixel(1, 0);
    assert_eq!(canvas.into_image().into_raw(), vec![4, 5, 6, 1, 2, 3]);
}

#[test]
fn canvas_without_columns_or_rows_is_refused() {
    assert_eq!(
        Canvas::new(0, 2, Luma([0]), Luma([255])).err(),
        Some(RenderError::InvalidDimensions)
    );
    assert_eq!(
        Canvas::new(2, 0, Luma([0]), Luma([255])).err(),
        Some(RenderError::InvalidDimensions)
    );
    assert_eq!(
        Canvas::new(0, 0, Luma([0]), Luma([255])).err(),
        Some(RenderError::InvalidDimensions)
    );
    assert!(Canvas::new(1, 1, Luma([0]), Luma([255])).is_ok());
}

#[test]
fn draw_dark_pixel_changes_one_pixel() {
    let mut canvas = Canvas::new(3, 2, Luma([0]), Luma([255])).unwrap();
    canvas.draw_dark_pixel(2, 0);
    canvas.draw_dark_pixel(0, 1);
    let expected = [
        255, 255, 0, //
        0, 255, 255,
    ];
    assert_eq!(canvas.into_image().into_raw(), expected);
}

#[test]
fn draw_dark_pixel_reaches_every_corner() {
    let mut canvas = Canvas::new(3, 3, Luma([0]), Luma([255])).unwrap();
    canvas.draw_dark_pixel(0, 0);
    canvas.draw_dark_pixel(2, 0);
    canvas.draw_dark_pixel(0, 2);
    canvas.draw_dark_pixel(2, 2);
    let expected = [
        0, 255, 0, //
        255, 255, 255, //
        0, 255, 0,
    ];
    assert_eq!(canvas.into_image().into_raw(), expected);
}

#[test]
fn painting_order_makes_no_difference() {
    let mut first = Canvas::new(3, 2, Luma([0]), Luma([255])).unwrap();
    first.draw_dark_pixel(2, 0);
    first.draw_dark_pixel(0, 1);
    first.draw_dark_pixel(2, 0);
    let mut second = Canvas::new(3, 2, Luma([0]), Luma([255])).unwrap();
    second.draw_dark_pixel(0, 1);
    second.draw_dark_pixel(2, 0);
    assert_eq!(first.into_image().into_raw(), second.into_image().into_raw());
}

#[test]
fn draw_dark_rect_fills_its_block_only() {
    let mut canvas = Canvas::new(5, 4, Luma([0]), Luma([255])).unwrap();
    canvas.draw_dark_rect(1, 1, 3, 2);
    let expected = [
        255, 255, 255, 255, 255, //
        255, 0, 0, 0, 255, //
        255, 0, 0, 0, 255, //
        255, 255, 255, 255, 255,
    ];
    assert_eq!(canvas.into_image().into_raw(), expected);
}

#[test]
fn draw_dark_rect_may_be_empty_or_cover_all() {
    let mut canvas = Canvas::new(2, 2, Luma([0]), Luma([255])).unwrap();
    canvas.draw_dark_rect(1, 1, 0, 1);
    canvas.draw_dark_rect(0, 0, 2, 0);
    canvas.draw_dark_rect(2, 2, 0, 0);
    assert_eq!(canvas.into_image().into_raw(), vec![255; 4]);
    let mut canvas = Canvas::new(2, 2, Luma([0]), Luma([255])).unwrap();
    canvas.draw_dark_rect(0, 0, 2, 2);
    assert_eq!(canvas.into_image().into_raw(), vec![0; 4]);
}

#[test]
fn image_from_pixel_repeats_the_pixel() {
    let image = Image::from_pixel(2, 3, LumaA([7, 9]));
    assert_eq!(image.width(), 2);
    assert_eq!(image.height(), 3);
    assert_eq!(image.dimensions(), (2, 3));
    assert_eq!(image.get_pixel(1, 2), LumaA([7, 9]));
    assert_eq!(image.into_raw(), [7, 9, 7, 9, 7, 9, 7, 9, 7, 9, 7, 9]);
}

#[test]
fn image_may_be_empty() {
    let image = Image::from_pixel(0, 3, Luma([7]));
    assert_eq!(image.dimensions(), (0, 3));
    assert_eq!(image.into_raw(), Vec::<u8>::new());
    let image = Image::from_pixel(3, 0, Luma([7]));
    assert_eq!(image.dimensions(), (3, 0));
    assert_eq!(image.into_raw(), Vec::<u8>::new());
}

#[test]
fn image_put_pixel_is_row_major() {
    let mut image = Image::from_pixel(3, 2, Rgba([0, 0, 0, 0]));
    image.put_pixel(2, 0, Rgba([1, 2, 3, 4]));
    image.put_pixel(1, 1, Rgba([5, 6, 7, 8]));
    assert_eq!(image.get_pixel(2, 0), Rgba([1, 2, 3, 4]));
    assert_eq!(image.get_pixel(1, 1), Rgba([5, 6, 7, 8]));
    assert_eq!(image.get_pixel(0, 0), Rgba([0, 0, 0, 0]));
    let expected = [
        0, 0, 0, 0, 0, 0, 0, 0, 1, 2, 3, 4, //
        0, 0, 0, 0, 5, 6, 7, 8, 0, 0, 0, 0,
    ];
    assert_eq!(image.into_raw(), expected);
}
