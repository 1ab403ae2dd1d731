use hayro::color::{color_space_choice, ColorSpaceChoice};
use hayro::number::Number;
use hayro::object::{Name, Object, PdfArray};
use hayro::color::{
    convert_gray_u8, convert_rgb_u8, family_from_array_head, family_from_name, fixed_components,
    icc_family, is_srgb_profile, ColorFamily,
};
use hayro::icc::{icc_layout, IccLayout, ICCProfile};
use hayro::color::IndexedPalette;
use hayro::lookup::U8Lookup;

#[test]
fn families_of_names() {
    assert_eq!(family_from_name(b"DeviceRGB"), Some(ColorFamily::DeviceRgb));
    assert_eq!(family_from_name(b"RGB"), Some(ColorFamily::DeviceRgb));
    assert_eq!(family_from_name(b"G"), Some(ColorFamily::DeviceGray));
    assert_eq!(family_from_name(b"CMYK"), Some(ColorFamily::DeviceCmyk));
    assert_eq!(family_from_name(b"CalCMYK"), Some(ColorFamily::DeviceCmyk));
    assert_eq!(family_from_name(b"Pattern"), Some(ColorFamily::Pattern));
    assert_eq!(family_from_name(b"Indexed"), None);
    assert_eq!(family_from_name(b"DeviceRGBX"), None);
}

#[test]
fn families_of_arrays() {
    assert_eq!(family_from_array_head(b"ICCBased"), Some(ColorFamily::IccBased));
    assert_eq!(family_from_array_head(b"CalCMYK"), Some(ColorFamily::DeviceCmyk));
    assert_eq!(family_from_array_head(b"CalRGB"), Some(ColorFamily::CalRgb));
    assert_eq!(family_from_array_head(b"CalGray"), Some(ColorFamily::CalGray));
    assert_eq!(family_from_array_head(b"Lab"), Some(ColorFamily::Lab));
    assert_eq!(family_from_array_head(b"I"), Some(ColorFamily::Indexed));
    assert_eq!(family_from_array_head(b"Separation"), Some(ColorFamily::Separation));
    assert_eq!(family_from_array_head(b"DeviceN"), Some(ColorFamily::DeviceN));
    assert_eq!(family_from_array_head(b"Foo"), None);
}

#[test]
fn icc_resolution() {
    assert_eq!(icc_family(Some(true), None, Some(3)), Some(ColorFamily::DeviceRgb));
    assert_eq!(icc_family(Some(false), Some(ColorFamily::Lab), Some(3)), Some(ColorFamily::IccBased));
    assert_eq!(icc_family(None, Some(ColorFamily::Lab), Some(1)), Some(ColorFamily::Lab));
    assert_eq!(icc_family(None, None, Some(1)), Some(ColorFamily::DeviceGray));
    assert_eq!(icc_family(None, None, Some(4)), Some(ColorFamily::DeviceCmyk));
    assert_eq!(icc_family(None, None, Some(2)), None);
    assert_eq!(icc_family(None, None, None), None);
}

#[test]
fn component_counts() {
    assert_eq!(fixed_components(ColorFamily::DeviceCmyk), Some(4));
    assert_eq!(fixed_components(ColorFamily::Lab), Some(3));
    assert_eq!(fixed_components(ColorFamily::Separation), Some(1));
    assert_eq!(fixed_components(ColorFamily::DeviceN), None);
}

#[test]
fn gray_and_rgb_conversion() {
    let mut out = [0u8; 7];
    convert_gray_u8(&[7, 9, 11], &mut out);
    assert_eq!(out, [7, 7, 7, 9, 9, 9, 0]);
    let mut out = [1u8; 4];
    convert_rgb_u8(&[5, 6], &mut out);
    assert_eq!(out, [5, 6, 1, 1]);
}

#[test]
fn srgb_marker() {
    let mut profile = vec![0u8; 60];
    assert!(!is_srgb_profile(&profile));
    profile[52..56].copy_from_slice(b"sRGB");
    assert!(is_srgb_profile(&profile));
    assert!(!is_srgb_profile(&profile[..55]));
}

#[test]
fn icc_layouts() {
    assert_eq!(icc_layout(1), Some(IccLayout::Gray));
    assert_eq!(icc_layout(3), Some(IccLayout::Rgb));
    assert_eq!(icc_layout(4), Some(IccLayout::Rgba));
    assert_eq!(icc_layout(2), None);
}

#[test]
fn unreadable_icc_profiles_are_refused() {
    assert!(ICCProfile::new(&[0u8; 10], 3).is_none());
    assert!(ICCProfile::new(&[0u8; 200], 2).is_none());
}

#[test]
fn palette_lookup_clamps_indices() {
    let palette = IndexedPalette::new(&[1, 2, 3, 4, 5, 6, 7], 1, 3).unwrap();
    assert_eq!(palette.components(&[0, 1, 9]), vec![1, 2, 3, 4, 5, 6, 4, 5, 6]);
    assert!(IndexedPalette::new(&[1, 2, 3], 1, 3).is_none());
    let big = vec![7u8; 256 * 2];
    let palette = IndexedPalette::new(&big, 1000, 2).unwrap();
    assert_eq!(palette.components(&[255]), vec![7, 7]);
}

#[test]
fn lookup_is_computed_once() {
    let mut lookup: U8Lookup<u16> = U8Lookup::new();
    let table = lookup.get_or_init_with(|input| Some(input.iter().map(|b| *b as u16 * 2).collect()));
    assert_eq!(table.unwrap()[255], 510);
    let table = lookup.get_or_init_with(|_| None);
    assert_eq!(table.unwrap()[3], 6);
}

#[test]
fn lookup_keeps_a_failed_computation() {
    let mut lookup: U8Lookup<u8> = U8Lookup::default();
    assert!(lookup.get_or_init_with(|_| None).is_none());
    assert!(lookup.get_or_init_with(|_| Some(vec![1; 256])).is_none());
}

#[test]
fn rgb_lookup_from_conversion() {
    let mut lookup: U8Lookup<[u8; 3]> = U8Lookup::new();
    let table = lookup
        .get_or_init(|input, output| {
            convert_gray_u8(input, output);
            Some(())
        })
        .unwrap();
    assert_eq!(table.len(), 256);
    assert_eq!(table[17], [17, 17, 17]);
}

#[test]
fn icc_profile_converts_to_srgb() {
    let bytes = moxcms::ColorProfile::new_srgb().encode().unwrap();
    let profile = ICCProfile::new(&bytes, 3).unwrap();
    assert_eq!(profile.number_components(), 3);
    assert!(!profile.is_lab());
    assert!(ICCProfile::new(&bytes, 2).is_none());
    let mut out = [0u8; 6];
    assert!(profile.convert_u8(&[255, 0, 0, 0, 0, 255], &mut out).is_some());
    assert!(out[0] > 250 && out[1] < 5 && out[2] < 5);
    assert!(out[3] < 5 && out[4] < 5 && out[5] > 250);
}

#[test]
fn color_space_choice_by_object_kind() {
    let name = |s: &[u8]| Object::Name(Name(s.to_vec()));
    assert_eq!(
        color_space_choice(&name(b"DeviceGray")),
        Some(ColorSpaceChoice { family: ColorFamily::DeviceGray, pattern_base: None })
    );
    assert_eq!(
        color_space_choice(&name(b"Pattern")),
        Some(ColorSpaceChoice { family: ColorFamily::Pattern, pattern_base: Some(ColorFamily::DeviceRgb) })
    );
    assert_eq!(color_space_choice(&name(b"Foo")), None);
    assert_eq!(
        color_space_choice(&Object::Array(PdfArray(vec![name(b"CalCMYK")]))),
        Some(ColorSpaceChoice { family: ColorFamily::DeviceCmyk, pattern_base: None })
    );
    assert_eq!(
        color_space_choice(&Object::Array(PdfArray(vec![name(b"Pattern")]))),
        Some(ColorSpaceChoice { family: ColorFamily::Pattern, pattern_base: Some(ColorFamily::DeviceRgb) })
    );
    assert_eq!(
        color_space_choice(&Object::Array(PdfArray(vec![
            name(b"Pattern"),
            name(b"P0"),
            Object::Array(PdfArray(vec![name(b"DeviceGray")])),
        ]))),
        Some(ColorSpaceChoice { family: ColorFamily::Pattern, pattern_base: Some(ColorFamily::DeviceGray) })
    );
    assert_eq!(color_space_choice(&Object::Array(PdfArray(vec![]))), None);
    assert_eq!(color_space_choice(&Object::Number(Number::from_i32(1))), None);
    assert_eq!(color_space_choice(&Object::Null), None);
}
