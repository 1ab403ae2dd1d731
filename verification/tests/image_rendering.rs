use hayro::render::{image_quality, SamplingQuality};
use hayro::image::{LumaData, RgbData, ScaleFactors};
use hayro::pixels::{div_255, premultiply_rgba};
use hayro::render::{
    alpha_fits_image, alpha_layer_image, stencil_color_image, stencil_pattern_image, gray_alpha_to_rgba, gray_to_rgba, image_rgba, pad_rgba, rgb_to_rgba, solid_alpha_to_rgba,
    solid_to_rgb, RenderImageData, SolidColorImage,
};
use hayro::resize::{resize_image_data, ImagePixelFormat};
use hayro::image::ImageData;
use pic_scale::{ResamplingFunction, Scaler};

fn scaler() -> Scaler {
    Scaler::new(ResamplingFunction::Hermite)
}

fn luma(data: Vec<u8>, width: u32, height: u32) -> LumaData {
    LumaData { data, width, height, interpolate: false, scale_factors: ScaleFactors::identity() }
}

fn rgb(data: Vec<u8>, width: u32, height: u32) -> RgbData {
    RgbData { data, width, height, interpolate: false, scale_factors: ScaleFactors::identity() }
}

#[test]
fn div_255_rounds_up_from_halfway() {
    assert_eq!(div_255(0), 0);
    assert_eq!(div_255(1), 1);
    assert_eq!(div_255(255 * 255), 255);
    assert_eq!(div_255(128 * 128), 64);
}

#[test]
fn premultiply_scales_colors_by_alpha() {
    let mut data = [255u8, 128, 0, 128, 10, 20, 30, 255, 9, 9];
    premultiply_rgba(&mut data);
    assert_eq!(data, [128, 64, 0, 128, 10, 20, 30, 255, 9, 9]);
}

#[test]
fn premultiply_transparent_pixel_is_black() {
    let mut data = [200u8, 100, 50, 0];
    premultiply_rgba(&mut data);
    assert_eq!(data, [0, 0, 0, 0]);
}

#[test]
fn premultiplied_color_never_exceeds_alpha() {
    for a in 0..=255u16 {
        let mut data = [255u8, 254, 1, a as u8];
        premultiply_rgba(&mut data);
        assert!(data[0] <= data[3] && data[1] <= data[3] && data[2] <= data[3]);
        assert_eq!(data[3], a as u8);
    }
}

#[test]
fn rgba_from_gray_and_rgb() {
    assert_eq!(gray_to_rgba(&[1, 2]), vec![1, 1, 1, 255, 2, 2, 2, 255]);
    assert_eq!(gray_alpha_to_rgba(&[1, 2, 3], &[9, 8]), vec![1, 1, 1, 9, 2, 2, 2, 8]);
    assert_eq!(solid_alpha_to_rgba([4, 5, 6], &[7]), vec![4, 5, 6, 7]);
    assert_eq!(rgb_to_rgba(&[1, 2, 3, 4, 5, 6, 7], None), vec![1, 2, 3, 255, 4, 5, 6, 255]);
    assert_eq!(rgb_to_rgba(&[1, 2, 3, 4, 5, 6], Some(&[9])), vec![1, 2, 3, 9]);
    assert_eq!(solid_to_rgb([1, 2, 3], 2), vec![1, 2, 3, 1, 2, 3]);
}

#[test]
fn padding_frames_rows_with_transparent_pixels() {
    let out = pad_rgba(&[1, 2, 3, 4], 1);
    assert_eq!(out.len(), 5 * 20);
    for (i, b) in out.iter().enumerate() {
        let (row, col) = (i / 20, i % 20);
        if row == 2 && (8..12).contains(&col) {
            assert_eq!(*b, (col - 7) as u8);
        } else {
            assert_eq!(*b, 0);
        }
    }
}

#[test]
fn render_image_data_accessors() {
    let image = RenderImageData::from_image(ImageData::Luma(luma(vec![1, 2], 2, 1)));
    assert_eq!(image.width(), 2);
    assert_eq!(image.height(), 1);
    assert!(!image.interpolate());
    let solid = RenderImageData::Solid(SolidColorImage { color: [1, 2, 3], width: 4, height: 5, interpolate: true });
    assert_eq!(solid.width(), 4);
    assert_eq!(solid.height(), 5);
    assert!(solid.interpolate());
}

#[test]
fn gray_image_without_alpha_is_opaque() {
    let r = image_rgba(&scaler(), RenderImageData::Luma(luma(vec![10, 20], 2, 1)), None, None, false);
    assert_eq!(r.data, vec![10, 10, 10, 255, 20, 20, 20, 255]);
    assert_eq!((r.width, r.height), (2, 1));
    assert!(!r.may_have_transparency);
}

#[test]
fn gray_image_with_alpha_is_premultiplied() {
    let r = image_rgba(
        &scaler(),
        RenderImageData::Luma(luma(vec![255, 255], 2, 1)),
        Some(luma(vec![128, 0], 2, 1)),
        None,
        false,
    );
    assert_eq!(r.data, vec![128, 128, 128, 128, 0, 0, 0, 0]);
    assert!(r.may_have_transparency);
}

#[test]
fn solid_image_through_its_mask() {
    let r = image_rgba(
        &scaler(),
        RenderImageData::Solid(SolidColorImage { color: [255, 0, 0], width: 1, height: 2, interpolate: false }),
        Some(luma(vec![255, 0], 1, 2)),
        None,
        false,
    );
    assert_eq!(r.data, vec![255, 0, 0, 255, 0, 0, 0, 0]);
}

#[test]
fn solid_image_without_mask_is_one_color() {
    let r = image_rgba(
        &scaler(),
        RenderImageData::Solid(SolidColorImage { color: [1, 2, 3], width: 2, height: 1, interpolate: false }),
        None,
        None,
        false,
    );
    assert_eq!(r.data, vec![1, 2, 3, 255, 1, 2, 3, 255]);
}

#[test]
fn resized_images_have_the_target_size() {
    let r = image_rgba(&scaler(), RenderImageData::Rgb(rgb(vec![9; 12], 2, 2)), None, Some((1, 1)), false);
    assert_eq!(r.data.len(), 4);
    assert_eq!(r.data[3], 255);
    assert_eq!((r.width, r.height), (1, 1));
    let r = image_rgba(
        &scaler(),
        RenderImageData::Rgb(rgb(vec![9; 12], 2, 2)),
        Some(luma(vec![255; 4], 2, 2)),
        Some((1, 2)),
        false,
    );
    assert_eq!(r.data.len(), 8);
}

#[test]
fn glyph_images_are_framed() {
    let r = image_rgba(&scaler(), RenderImageData::Luma(luma(vec![7], 1, 1)), None, None, true);
    assert_eq!((r.width, r.height), (5, 5));
    assert_eq!(r.data.len(), 5 * 20);
    assert!(r.may_have_transparency);
    assert_eq!(&r.data[48..52], &[7, 7, 7, 255]);
}

#[test]
fn resizing_keeps_an_image_of_equal_size() {
    let data = vec![1u8, 2, 3, 4];
    let out = resize_image_data(&scaler(), data.clone(), 2, 2, 2, 2, ImagePixelFormat::Luma);
    assert_eq!(out, data);
    let out = resize_image_data(&scaler(), vec![100u8; 16], 4, 4, 2, 2, ImagePixelFormat::Luma);
    assert_eq!(out.len(), 4);
}

#[test]
fn stencil_images() {
    let stencil = LumaData { data: vec![255, 0], width: 2, height: 1, interpolate: true, scale_factors: ScaleFactors::identity() };
    let (image, layer) = stencil_color_image([10, 20, 30, 255], &stencil, true);
    assert_eq!(image.color, [10, 20, 30]);
    assert_eq!((image.width, image.height, image.interpolate), (2, 1, true));
    assert!(!layer);
    assert!(stencil_color_image([10, 20, 30, 128], &stencil, true).1);
    assert!(stencil_color_image([10, 20, 30, 255], &stencil, false).1);
    let white = stencil_pattern_image(&stencil);
    assert_eq!(white.data, vec![255; 6]);
    let mask = alpha_layer_image(&stencil);
    assert_eq!(mask.color, [0, 0, 0]);
    assert_eq!((mask.width, mask.height, mask.interpolate), (2, 1, true));
}

#[test]
fn alpha_fits_only_the_same_size_and_interpolation() {
    let image = RenderImageData::Luma(luma(vec![1, 2], 2, 1));
    assert!(alpha_fits_image(&image, &luma(vec![1, 2], 2, 1)));
    assert!(!alpha_fits_image(&image, &luma(vec![1, 2], 1, 2)));
    let mut other = luma(vec![1, 2], 2, 1);
    other.interpolate = true;
    assert!(!alpha_fits_image(&image, &other));
}

#[test]
fn sampling_quality_of_images() {
    assert_eq!(image_quality(false, false, false), SamplingQuality::Low);
    assert_eq!(image_quality(true, false, false), SamplingQuality::Medium);
    assert_eq!(image_quality(true, true, false), SamplingQuality::Medium);
    assert_eq!(image_quality(false, true, true), SamplingQuality::High);
    assert_eq!(image_quality(true, false, true), SamplingQuality::Medium);
}

#[test]
fn resampling_a_gray_image_gives_target_pixels() {
    // A 4 x 1 gray image halved in width: the result is neither the source
    // nor its size.
    let out = resize_image_data(&scaler(), vec![10u8, 10, 200, 200], 4, 1, 2, 1, ImagePixelFormat::Luma);
    assert_eq!(out.len(), 2);
    assert!(out[0] < out[1]);
}
