use hayro::content::TypedIter;
use hayro::lexer::{hex_string_exec, lit_string_exec, parse_object_exec, MAX_DEPTH};
use hayro::object::{Dict, Object};
use hayro::ops::{ShowText, TypedInstruction};

#[test]
fn literal_string_escapes() {
    let s = b"(a\\nb\\051\\101c(d)e\\\nf)";
    let (bytes, end) = lit_string_exec(s, 1).unwrap();
    assert_eq!(bytes, b"a\nb)Ac(d)ef".to_vec());
    assert_eq!(end, s.len());
}

#[test]
fn literal_string_needs_its_close() {
    assert!(lit_string_exec(b"(abc", 1).is_none());
}

#[test]
fn hex_string_with_spaces_and_odd_digit() {
    let s = b"<41 4>";
    let (bytes, end) = hex_string_exec(s, 1).unwrap();
    assert_eq!(bytes, vec![0x41, 0x40]);
    assert_eq!(end, s.len());
    assert!(hex_string_exec(b"<4G>", 1).is_none());
}

#[test]
fn names_decode_hex_escapes() {
    let d = Dict::from_bytes(b"<< /A#20B 1 >>").unwrap();
    assert_eq!(d.get_u32(b"A B"), Some(1));
}

#[test]
fn comments_are_skipped() {
    let mut iter = TypedIter::new(b"% a comment\n(x) Tj % another\n");
    assert!(matches!(
        iter.next(),
        Some(TypedInstruction::ShowText(ShowText(t))) if t.as_bytes() == b"x"
    ));
    assert!(iter.next().is_none());
}

#[test]
fn nesting_is_limited() {
    let mut deep = vec![b'['; MAX_DEPTH + 1];
    deep.extend(vec![b']'; MAX_DEPTH + 1]);
    assert!(parse_object_exec(&deep, 0, 0).is_none());
    let mut ok = vec![b'['; MAX_DEPTH];
    ok.extend(vec![b']'; MAX_DEPTH]);
    assert!(matches!(parse_object_exec(&ok, 0, 0), Some((Object::Array(_), _))));
}

#[test]
fn keywords_and_numbers() {
    assert_eq!(parse_object_exec(b"true", 0, 0), Some((Object::Boolean(true), 4)));
    assert_eq!(parse_object_exec(b"nullx", 0, 0), None);
    let d = Dict::from_bytes(b"<< /T true /F false /N null /R -1.50 >>").unwrap();
    assert_eq!(d.get_bool(b"T"), Some(true));
    assert_eq!(d.get_bool(b"F"), Some(false));
    assert!(matches!(d.get(b"N"), Some(Object::Null)));
    assert!(matches!(d.get(b"R"), Some(Object::Number(n)) if n.to_parts() == (false, -15, 1)));
}
