use hayro::bits::{unpack_samples, BitReader};
use hayro::color::{family_from_array_head, family_from_name};
use hayro::ops::{op_kind, OpKind};
use hayro::content::TypedIter;
use hayro::decode::{decode_bilevel_mask_data, decode_mask_data, decode_native, DecodeKind};
use hayro::image::{fix_image_length, ImageData, LumaData, ScaleFactors};
use hayro::render::{image_rgba, RenderImageData};
use pic_scale::{ResamplingFunction, Scaler};

#[test]
fn stencil_inverts_each_mask_byte() {
    let data = vec![0u8, 17, 128, 255, 3, 9];
    let (soft, _) = decode_mask_data(data.clone(), 3, 2, 1, 8, DecodeKind::Default, false).unwrap();
    let (stencil, _) = decode_mask_data(data, 3, 2, 1, 8, DecodeKind::Default, true).unwrap();
    for (a, b) in soft.iter().zip(&stencil) {
        assert_eq!(*b, 255 - *a);
    }
    let bits = vec![0b1010_0000u8, 0b0110_0000];
    let (soft, _) = decode_mask_data(bits.clone(), 3, 2, 1, 1, DecodeKind::Default, false).unwrap();
    let (stencil, _) = decode_mask_data(bits, 3, 2, 1, 1, DecodeKind::Default, true).unwrap();
    for (a, b) in soft.iter().zip(&stencil) {
        assert_eq!(*b, 255 - *a);
    }
}

#[test]
fn reversed_decode_cancels_stencil_inversion() {
    let data = vec![0u8, 17, 128, 255];
    assert_eq!(
        decode_mask_data(data.clone(), 2, 2, 1, 8, DecodeKind::InvertedDefault, true),
        decode_mask_data(data, 2, 2, 1, 8, DecodeKind::Default, false)
    );
}

#[test]
fn bilevel_masks_have_two_values() {
    let out = decode_bilevel_mask_data(&[0x5a, 0xc3, 0x0f], 7, 3, true);
    assert!(out.iter().all(|b| *b == 0 || *b == 255));
}

#[test]
fn native_images_have_whole_rows() {
    for len in 0..20usize {
        let data: Vec<u8> = (0..len as u8).collect();
        if let Some((image, _)) = decode_native(data, 2, 3, false, None, false, false, ScaleFactors::identity()) {
            match image {
                ImageData::Rgb(c) => {
                    assert_eq!(c.data.len(), 2 * 3 * c.height as usize);
                    assert!(c.height <= 3);
                }
                ImageData::Luma(_) => panic!("expected an RGB image"),
            }
        }
    }
}

#[test]
fn fixing_twice_is_fixing_once() {
    let mut data = vec![1u8, 2, 3, 4, 5];
    let mut height = 7;
    fix_image_length(&mut data, 3, &mut height, 0, 1);
    let (once, h_once) = (data.clone(), height);
    fix_image_length(&mut data, 3, &mut height, 0, 1);
    assert_eq!(data, once);
    assert_eq!(height, h_once);
}

#[test]
fn split_reads_match_one_read() {
    let data = [0b1011_0110u8, 0b0101_1100];
    let mut a = BitReader::new(&data);
    let first = a.read(5).unwrap();
    let second = a.read(7).unwrap();
    let mut b = BitReader::new(&data);
    let whole = b.read(12).unwrap();
    assert_eq!(whole, (first << 7) + second);
}

#[test]
fn samples_fit_their_depth() {
    let data = [0xffu8; 5];
    for bpc in [1u8, 2, 3, 5, 7, 12, 15] {
        let samples = unpack_samples(&data, 3, 2, 1, bpc).unwrap();
        assert!(samples.iter().all(|s| (*s as u32) < (1u32 << bpc)));
    }
}

#[test]
fn drawn_images_have_four_bytes_per_pixel() {
    let scaler = Scaler::new(ResamplingFunction::Hermite);
    let luma = LumaData { data: vec![1, 2, 3, 4, 5, 6], width: 3, height: 2, interpolate: false, scale_factors: ScaleFactors::identity() };
    for (target, pad) in [(None, false), (None, true), (Some((2, 1)), false), (Some((1, 1)), true)] {
        let r = image_rgba(&scaler, RenderImageData::Luma(luma.clone()), None, target, pad);
        assert_eq!(r.data.len(), 4 * r.width as usize * r.height as usize);
    }
}

#[test]
fn iteration_ends() {
    let mut iter = TypedIter::new(b"q 1 0 0 1 0 0 cm /a gs Q BI /W 1 /H 1 ID x EI 0 g");
    let mut count = 0;
    while iter.next().is_some() {
        count += 1;
        assert!(count < 100);
    }
    assert_eq!(count, 6);
    assert!(iter.next().is_none());
}

#[test]
fn named_and_array_color_spaces_agree() {
    for name in [&b"DeviceRGB"[..], b"RGB", b"DeviceGray", b"G", b"DeviceCMYK", b"CMYK", b"CalCMYK", b"Pattern"] {
        assert!(family_from_name(name).is_some());
        assert_eq!(family_from_array_head(name), family_from_name(name));
    }
}

#[test]
fn number_text_reads_back() {
    for token in [&b"0"[..], b"-17", b"3.25", b"-0.5", b"12.", b"0.0", b"2147483647", b"2147483648", b"-.5", b"+007.100"] {
        let n = hayro::number::parse_number(token, 0, token.len()).unwrap();
        let mut text = Vec::new();
        hayro::number::push_number(&mut text, &n);
        assert_eq!(hayro::number::parse_number(&text, 0, text.len()), Some(n));
    }
}

#[test]
fn null_text_reads_back() {
    let text = hayro::reader::Null.to_string();
    let mut reader = hayro::reader::Reader::new(text.as_bytes());
    assert_eq!(reader.read_without_context::<hayro::reader::Null>(), Some(hayro::reader::Null));
    assert_eq!(reader.position(), text.len());
}

#[test]
fn decoded_images_draw_whole_pixels() {
    let scaler = Scaler::new(ResamplingFunction::Hermite);
    for (gray, len) in [(true, 5usize), (false, 17)] {
        let data: Vec<u8> = (0..len as u8).collect();
        let (image, _) = decode_native(data, 3, 4, gray, None, false, false, ScaleFactors::identity()).unwrap();
        for (target, pad) in [(None, false), (None, true), (Some((2, 1)), true)] {
            let r = image_rgba(&scaler, RenderImageData::from_image(image.clone()), None, target, pad);
            assert_eq!(r.data.len(), 4 * r.width as usize * r.height as usize);
        }
    }
}

#[test]
fn operators_are_recognised_by_their_spelling_only() {

    assert_eq!(op_kind(b"cm"), Some(OpKind::Transform));
    assert_eq!(op_kind(b"Tj"), Some(OpKind::ShowText));
    assert_eq!(op_kind(b"BDC"), Some(OpKind::BeginMarkedContentWithProperties));
    assert_eq!(op_kind(b"cmx"), None);
    assert_eq!(op_kind(b"Cm"), None);
    assert_eq!(op_kind(b""), None);
    assert_eq!(op_kind(b"BDCX"), None);
}
