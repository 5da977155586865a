use qr_render::render::image::{Luma, Rgba};
use qr_render::render::Renderer;
use qr_render::types::Color;

#[test]
fn test_render_luma8_unsized() {
    let image = Renderer::<Luma>::new(
        &[
            Color::Light,
            Color::Dark,
            Color::Dark,
            //
            Color::Dark,
            Color::Light,
            Color::Light,
            //
            Color::Light,
            Color::Dark,
            Color::Light,
        ],
        3,
        3,
        1,
    )
    .unwrap()
    .module_dimensions(1, 1)
    .build()
    .unwrap();

    let expected = [
        255, 255, 255, 255, 255,
        255, 255,   0,   0, 255,
        255,   0, 255, 255, 255,
        255, 255,   0, 255, 255,
        255, 255, 255, 255, 255,
    ];
    assert_eq!(image.into_raw(), expected);
}

#[test]
fn test_render_rgba_unsized() {
    let image = Renderer::<Rgba>::new(
        &[Color::Light, Color::Dark, Color::Dark, Color::Dark],
        2,
        2,
        1,
    )
    .unwrap()
    .module_dimensions(1, 1)
    .build()
    .unwrap();

    let expected: &[u8] = &[
        255,255,255,255, 255,255,255,255, 255,255,255,255, 255,255,255,255,
        255,255,255,255, 255,255,255,255,   0,  0,  0,255, 255,255,255,255,
        255,255,255,255,   0,  0,  0,255,   0,  0,  0,255, 255,255,255,255,
        255,255,255,255, 255,255,255,255, 255,255,255,255, 255,255,255,255,
    ];

    assert_eq!(image.into_raw(), expected);
}

#[test]
fn test_render_resized_min() {
    let image = Renderer::<Luma>::new(
        &[Color::Dark, Color::Light, Color::Light, Color::Dark],
        2,
        2,
        1,
    )
    .unwrap()
    .min_dimensions(10, 10)
    .build()
    .unwrap();

    let expected: &[u8] = &[
        255,255,255, 255,255,255, 255,255,255, 255,255,255,
        255,255,255, 255,255,255, 255,255,255, 255,255,255,
        255,255,255, 255,255,255, 255,255,255, 255,255,255,

        255,255,255,   0,  0,  0, 255,255,255, 255,255,255,
        255,255,255,   0,  0,  0, 255,255,255, 255,255,255,
        255,255,255,   0,  0,  0, 255,255,255, 255,255,255,

        255,255,255, 255,255,255,   0,  0,  0, 255,255,255,
        255,255,255, 255,255,255,   0,  0,  0, 255,255,255,
        255,255,255, 255,255,255,   0,  0,  0, 255,255,255,

        255,255,255, 255,255,255, 255,255,255, 255,255,255,
        255,255,255, 255,255,255, 255,255,255, 255,255,255,
        255,255,255, 255,255,255, 255,255,255, 255,255,255,
    ];

    assert_eq!(image.dimensions(), (12, 12));
    assert_eq!(image.into_raw(), expected);
}

#[test]
fn test_render_resized_max() {
    let image = Renderer::<Luma>::new(
        &[Color::Dark, Color::Light, Color::Light, Color::Dark],
        2,
        2,
        1,
    )
    .unwrap()
    .max_dimensions(10, 5)
    .build()
    .unwrap();

    let expected: &[u8] = &[
        255,255, 255,255, 255,255, 255,255,

        255,255,   0,  0, 255,255, 255,255,

        255,255, 255,255,   0,  0, 255,255,

        255,255, 255,255, 255,255, 255,255,
    ];

    assert_eq!(image.dimensions(), (8, 4));
    assert_eq!(image.into_raw(), expected);
}
