use hayro::reader::{Null, Reader};

#[test]
fn display() {
    assert_eq!(Null.to_string(), "null");
}

#[test]
fn null() {
    assert_eq!(
        Reader::new("null".as_bytes())
            .read_without_context::<Null>()
            .unwrap(),
        Null
    );
}

#[test]
fn null_trailing() {
    assert_eq!(
        Reader::new("nullabs".as_bytes())
            .read_without_context::<Null>()
            .unwrap(),
        Null
    );
}
