use hayro::decode::{decode_converted, decoded_raster};
use hayro::image::{LumaData, RgbData};
use hayro::transfer::TransferFunction;
use hayro::bits::{unpack_samples, BitReader};
use hayro::decode::{
    color_key_mask_values, decode_bilevel_mask_data, decode_color_key_mask, decode_mask_data,
    alpha_source, embedded_alpha, AlphaSource, decode_native, decoded_size, image_color_family, mask_path, DecodeKind, ImageColorSpace, MaskPath,
};
use hayro::color::ColorFamily;
use hayro::image::{fix_image_length, invert_bytes, ImageData, ImageKind, ScaleFactors};

#[test]
fn bit_reader_reads_msb_first() {
    let data = [0b1010_1100u8, 0xff];
    let mut reader = BitReader::new(&data);
    assert_eq!(reader.read(3), Some(0b101));
    assert_eq!(reader.read(5), Some(0b01100));
    assert_eq!(reader.read(9), None);
    assert_eq!(reader.read(8), Some(255));
    assert_eq!(reader.read(1), None);
}

#[test]
fn bit_reader_align_skips_to_next_byte() {
    let data = [0b1000_0000u8, 0b0100_0000];
    let mut reader = BitReader::new(&data);
    assert_eq!(reader.read(1), Some(1));
    reader.align();
    assert_eq!(reader.read(2), Some(0b01));
    reader.align();
    reader.align();
    assert_eq!(reader.read(1), None);
}

#[test]
fn bit_reader_reads_32_bits() {
    let data = [0x12u8, 0x34, 0x56, 0x78];
    let mut reader = BitReader::new(&data);
    assert_eq!(reader.read(32), Some(0x1234_5678));
}

#[test]
fn unpack_one_bit_rows_start_at_bytes() {
    let data = [0b1010_0000u8, 0b0110_0000];
    assert_eq!(unpack_samples(&data, 3, 2, 1, 1), Some(vec![1, 0, 1, 0, 1, 1]));
}

#[test]
fn unpack_four_bit_components() {
    let data = [0x12u8, 0x30];
    assert_eq!(unpack_samples(&data, 1, 1, 3, 4), Some(vec![1, 2, 3]));
}

#[test]
fn unpack_pads_missing_samples_with_zero() {
    let data = [0b1110_0100u8];
    assert_eq!(unpack_samples(&data, 4, 2, 1, 2), Some(vec![3, 2, 1, 0, 0, 0, 0, 0]));
}

#[test]
fn unpack_eight_and_sixteen_bits() {
    assert_eq!(unpack_samples(&[5u8, 6, 7], 3, 1, 1, 8), Some(vec![5, 6, 7]));
    assert_eq!(unpack_samples(&[1u8, 2, 0xff, 0xff, 9], 2, 1, 1, 16), Some(vec![258, 65535]));
}

#[test]
fn unpack_refuses_other_depths() {
    assert_eq!(unpack_samples(&[1u8], 1, 1, 1, 0), None);
    assert_eq!(unpack_samples(&[1u8], 1, 1, 1, 17), None);
}

#[test]
fn fix_image_length_truncates() {
    let mut data = vec![1u8, 2, 3, 4, 5, 6, 7];
    let mut height = 1;
    assert_eq!(fix_image_length(&mut data, 2, &mut height, 0, 3), Some(()));
    assert_eq!(data, vec![1, 2, 3, 4, 5, 6]);
    assert_eq!(height, 1);
}

#[test]
fn fix_image_length_pads_last_row() {
    let mut data = vec![1u8, 2, 3];
    let mut height = 5;
    assert_eq!(fix_image_length(&mut data, 2, &mut height, 9, 1), Some(()));
    assert_eq!(data, vec![1, 2, 3, 9]);
    assert_eq!(height, 2);
}

#[test]
fn fix_image_length_fails_without_rows() {
    let mut data: Vec<u8> = vec![];
    let mut height = 3;
    assert_eq!(fix_image_length(&mut data, 2, &mut height, 0, 1), None);
    assert_eq!(height, 0);
    let mut data = vec![1u8];
    let mut height = 3;
    assert_eq!(fix_image_length(&mut data, 0, &mut height, 0, 1), None);
}

#[test]
fn invert_bytes_reverses_values() {
    let mut data = [0u8, 1, 128, 255];
    invert_bytes(&mut data);
    assert_eq!(data, [255, 254, 127, 0]);
}

#[test]
fn image_kind_is_mask() {
    assert!(!ImageKind::Image.is_mask());
    assert!(ImageKind::Mask.is_mask());
    assert!(ImageKind::StencilMask.is_mask());
}

#[test]
fn color_key_marks_pixels_outside_the_ranges() {
    let samples = [10u16, 20, 30, 200];
    let key = [0u16, 50, 0, 100];
    assert_eq!(color_key_mask_values(&samples, 2, &key), vec![0, 255]);
}

#[test]
fn color_key_uses_only_the_pairs_there_are() {
    let samples = [10u16, 200, 60, 0];
    let key = [0u16, 50];
    assert_eq!(color_key_mask_values(&samples, 2, &key), vec![0, 255]);
}

#[test]
fn color_key_mask_of_eight_bit_data() {
    let mask = decode_color_key_mask(&[10u8, 200, 30], &[0, 100], 2, 2, 1, 8, ScaleFactors::identity(), true)
        .unwrap();
    assert_eq!(mask.data, vec![0, 255, 0, 0]);
    assert_eq!(mask.width, 2);
    assert_eq!(mask.height, 2);
    assert!(mask.interpolate);
}

#[test]
fn color_key_mask_needs_a_known_depth() {
    assert!(decode_color_key_mask(&[1u8], &[0, 1], 1, 1, 1, 20, ScaleFactors::identity(), false).is_none());
}

#[test]
fn bilevel_mask_expands_bits() {
    let data = [0b1010_0000u8, 0b0100_0000];
    assert_eq!(decode_bilevel_mask_data(&data, 3, 2, false), vec![255, 0, 255, 0, 255, 0]);
    assert_eq!(decode_bilevel_mask_data(&data, 3, 2, true), vec![0, 255, 0, 255, 0, 255]);
}

#[test]
fn bilevel_mask_short_last_row() {
    let data = [0xffu8, 0xc0, 0x0f];
    let out = decode_bilevel_mask_data(&data, 10, 2, false);
    assert_eq!(
        out,
        vec![255, 255, 255, 255, 255, 255, 255, 255, 255, 255, 0, 0, 0, 0, 255, 255, 255, 255]
    );
}

#[test]
fn bilevel_mask_takes_at_most_height_rows() {
    let data = [0x80u8, 0x80, 0x80];
    assert_eq!(decode_bilevel_mask_data(&data, 1, 2, false), vec![255, 255]);
}

#[test]
fn mask_paths() {
    assert_eq!(mask_path(1, 1, DecodeKind::Default), MaskPath::Bilevel);
    assert_eq!(mask_path(1, 1, DecodeKind::InvertedDefault), MaskPath::Bilevel);
    assert_eq!(mask_path(8, 3, DecodeKind::InvertedDefault), MaskPath::Bytes);
    assert_eq!(mask_path(8, 1, DecodeKind::Other), MaskPath::Interpolated);
    assert_eq!(mask_path(4, 1, DecodeKind::Default), MaskPath::Interpolated);
}

#[test]
fn stencil_mask_bytes_are_inverted() {
    let (data, h) = decode_mask_data(vec![0, 128, 255, 7], 2, 2, 1, 8, DecodeKind::Default, true).unwrap();
    assert_eq!(data, vec![255, 127, 0, 248]);
    assert_eq!(h, 2);
    let (data, _) =
        decode_mask_data(vec![0, 128, 255, 7], 2, 2, 1, 8, DecodeKind::InvertedDefault, true).unwrap();
    assert_eq!(data, vec![0, 128, 255, 7]);
}

#[test]
fn mask_bytes_are_fixed_to_whole_rows() {
    let (data, h) = decode_mask_data(vec![1, 2, 3], 2, 5, 1, 8, DecodeKind::Default, false).unwrap();
    assert_eq!(data, vec![1, 2, 3, 0]);
    assert_eq!(h, 2);
}

#[test]
fn bilevel_mask_data_with_reversed_decode() {
    let (data, h) =
        decode_mask_data(vec![0b1000_0000, 0b0000_0000], 1, 2, 1, 1, DecodeKind::InvertedDefault, false)
            .unwrap();
    assert_eq!(data, vec![0, 255]);
    assert_eq!(h, 2);
}

#[test]
fn native_gray_image() {
    let (image, alpha) = decode_native(vec![1, 2, 3, 4, 5], 2, 2, true, None, false, false, ScaleFactors::identity())
        .unwrap();
    assert!(alpha.is_none());
    match image {
        ImageData::Luma(l) => {
            assert_eq!(l.data, vec![1, 2, 3, 4]);
            assert_eq!(l.height, 2);
        }
        ImageData::Rgb(_) => panic!("expected a gray image"),
    }
}

#[test]
fn native_rgb_image_with_color_key_and_inversion() {
    let key = [0u16, 10, 0, 10, 0, 10];
    let (image, alpha) = decode_native(
        vec![5, 5, 5, 50, 5, 5],
        2,
        1,
        false,
        Some(&key),
        true,
        false,
        ScaleFactors::identity(),
    )
    .unwrap();
    match image {
        ImageData::Rgb(c) => assert_eq!(c.data, vec![250, 250, 250, 205, 250, 250]),
        ImageData::Luma(_) => panic!("expected an RGB image"),
    }
    assert_eq!(alpha.unwrap().data, vec![0, 255]);
}

#[test]
fn native_image_without_data_fails() {
    assert!(decode_native(vec![], 2, 2, true, None, false, false, ScaleFactors::identity()).is_none());
}

#[test]
fn decode_geometry() {
    let (w, h, sf) = decoded_size(100, 50, Some((25, 10)));
    assert_eq!((w, h), (25, 10));
    assert_eq!((sf.declared_width, sf.decoded_width, sf.declared_height, sf.decoded_height), (100, 25, 50, 10));
    let (w, h, sf) = decoded_size(100, 50, None);
    assert_eq!((w, h), (100, 50));
    assert_eq!(sf, ScaleFactors::identity());
}

#[test]
fn decode_color_families() {
    assert_eq!(image_color_family(Some(ColorFamily::Lab), Some(ImageColorSpace::Rgb)), ColorFamily::Lab);
    assert_eq!(image_color_family(None, Some(ImageColorSpace::Cmyk)), ColorFamily::DeviceCmyk);
    assert_eq!(image_color_family(None, Some(ImageColorSpace::Unknown)), ColorFamily::DeviceGray);
    assert_eq!(image_color_family(None, None), ColorFamily::DeviceGray);
}

#[test]
fn alpha_sources_in_order() {
    assert_eq!(alpha_source(true, Some(1), true, true), AlphaSource::Matte);
    assert_eq!(alpha_source(false, Some(1), true, true), AlphaSource::EmbeddedSoftMask);
    assert_eq!(alpha_source(false, Some(0), true, true), AlphaSource::MaskStream);
    assert_eq!(alpha_source(false, None, false, true), AlphaSource::ColorKey);
    assert_eq!(alpha_source(false, None, false, false), AlphaSource::Opaque);
}

#[test]
fn embedded_alpha_is_fixed_to_rows() {
    let a = embedded_alpha(Some(vec![1, 2, 3]), 2, 4, true, ScaleFactors::identity()).unwrap();
    assert_eq!(a.data, vec![1, 2, 3, 0]);
    assert_eq!(a.height, 2);
    assert!(embedded_alpha(None, 2, 4, true, ScaleFactors::identity()).is_none());
    assert!(embedded_alpha(Some(vec![]), 2, 4, true, ScaleFactors::identity()).is_none());
}

fn luma(data: Vec<u8>, width: u32, height: u32) -> LumaData {
    LumaData { data, width, height, interpolate: false, scale_factors: ScaleFactors::identity() }
}

#[test]
fn raster_keeps_image_when_alpha_fails() {
    let image = ImageData::Luma(luma(vec![1, 2], 2, 1));
    let r = decoded_raster(Some(image), Some(None)).unwrap();
    assert!(r.alpha.is_none());
    assert!(matches!(r.image, ImageData::Luma(ref l) if l.data == vec![1, 2]));
    let image = ImageData::Luma(luma(vec![1, 2], 2, 1));
    let r = decoded_raster(Some(image), Some(Some(luma(vec![9, 8], 2, 1)))).unwrap();
    assert_eq!(r.alpha.unwrap().data, vec![9, 8]);
    let image = ImageData::Luma(luma(vec![1, 2], 2, 1));
    assert!(decoded_raster(Some(image), None).unwrap().alpha.is_none());
    assert!(decoded_raster(None, Some(Some(luma(vec![9], 1, 1)))).is_none());
}

fn gray_to_rgb(input: &[u8], output: &mut [u8]) -> Option<()> {
    for (i, o) in input.iter().zip(output.chunks_exact_mut(3)) {
        o.copy_from_slice(&[*i, *i, *i]);
    }
    Some(())
}

#[test]
fn converted_image_is_fixed_converted_and_transferred() {
    let r: RgbData = decode_converted(vec![1, 2, 3], 2, 2, 1, gray_to_rgb, None, true, ScaleFactors::identity()).unwrap();
    // The last row is padded with zeros.
    assert_eq!(r.data, vec![1, 1, 1, 2, 2, 2, 3, 3, 3, 0, 0, 0]);
    assert_eq!((r.width, r.height, r.interpolate), (2, 2, true));
    let mut samples = [0u8; 256];
    for (i, s) in samples.iter_mut().enumerate() {
        *s = 255 - i as u8;
    }
    let tf = TransferFunction::new(samples);
    let r = decode_converted(vec![1, 2], 2, 1, 1, gray_to_rgb, Some(&tf), false, ScaleFactors::identity()).unwrap();
    assert_eq!(r.data, vec![254, 254, 254, 253, 253, 253]);
}

#[test]
fn converted_image_failures() {
    assert!(decode_converted(vec![1, 2], 2, 1, 1, |_: &[u8], _: &mut [u8]| None, None, false, ScaleFactors::identity()).is_none());
    assert!(decode_converted(vec![1, 2], 2, 1, 0, gray_to_rgb, None, false, ScaleFactors::identity()).is_none());
    assert!(decode_converted(vec![], 2, 1, 1, gray_to_rgb, None, false, ScaleFactors::identity()).is_none());
    assert!(decode_converted(vec![1, 2], 0, 1, 1, gray_to_rgb, None, false, ScaleFactors::identity()).is_none());
}
