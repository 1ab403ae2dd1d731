use hayro::image::ImageKind;
use hayro::image_dict::{
    has_mask, color_space_entry, declared_bits_per_component, image_props, resolve_bits_per_component,
};
use hayro::object::{Dict, Object};

#[test]
fn inline_image_abbreviations() {
    let dict = Dict::from_bytes(b"<< /W 4 /H 2 /IM true /I true /BPC 1 /CS /G >>").unwrap();
    let props = image_props(&dict, ImageKind::Image).unwrap();
    assert_eq!(props.width, 4);
    assert_eq!(props.height, 2);
    assert!(props.interpolate);
    assert_eq!(props.kind, ImageKind::StencilMask);
    assert_eq!(declared_bits_per_component(&dict), Some(1));
    assert!(matches!(color_space_entry(&dict), Some(Object::Name(n)) if n.as_ref() == b"G"));
}

#[test]
fn full_keys_and_defaults() {
    let dict = Dict::from_bytes(b"<< /Width 3 /Height 5 /BitsPerComponent 8 >>").unwrap();
    let props = image_props(&dict, ImageKind::Mask).unwrap();
    assert_eq!((props.width, props.height), (3, 5));
    assert!(!props.interpolate);
    assert_eq!(props.kind, ImageKind::Mask);
    assert_eq!(declared_bits_per_component(&dict), Some(8));
    assert!(color_space_entry(&dict).is_none());
}

#[test]
fn short_key_wins() {
    let dict = Dict::from_bytes(b"<< /Width 3 /W 7 /H 1 >>").unwrap();
    assert_eq!(image_props(&dict, ImageKind::Image).unwrap().width, 7);
}

#[test]
fn images_need_a_positive_size() {
    let dict = Dict::from_bytes(b"<< /W 0 /H 2 >>").unwrap();
    assert!(image_props(&dict, ImageKind::Image).is_none());
    let dict = Dict::from_bytes(b"<< /W 2 >>").unwrap();
    assert!(image_props(&dict, ImageKind::Image).is_none());
    let dict = Dict::from_bytes(b"<< /W -2 /H 2 >>").unwrap();
    assert!(image_props(&dict, ImageKind::Image).is_none());
    let dict = Dict::from_bytes(b"<< /W 2.5 /H 2 >>").unwrap();
    assert!(image_props(&dict, ImageKind::Image).is_none());
}

#[test]
fn bits_per_component_fallbacks() {
    assert_eq!(resolve_bits_per_component(Some(4), Some(8), true), 4);
    assert_eq!(resolve_bits_per_component(None, Some(2), true), 2);
    assert_eq!(resolve_bits_per_component(None, None, true), 1);
    assert_eq!(resolve_bits_per_component(None, None, false), 8);
}

#[test]
fn dict_lookup_takes_the_first_entry() {
    let dict = Dict::from_bytes(b"<< /A 1 /A 2 /B true >>").unwrap();
    assert_eq!(dict.get_u32(b"A"), Some(1));
    assert_eq!(dict.get_bool(b"B"), Some(true));
    assert_eq!(dict.get_bool(b"A"), None);
    assert_eq!(dict.get_u8(b"C"), None);
}

#[test]
fn images_with_their_own_alpha() {
    assert!(has_mask(&Dict::from_bytes(b"<< /SMask 5 >>").unwrap()));
    assert!(has_mask(&Dict::from_bytes(b"<< /Mask [0 1] >>").unwrap()));
    assert!(has_mask(&Dict::from_bytes(b"<< /SMaskInData 1 >>").unwrap()));
    assert!(!has_mask(&Dict::from_bytes(b"<< /W 1 >>").unwrap()));
    assert!(Dict::from_bytes(b"<< /W 1 >>").unwrap().contains_key(b"W"));
}
