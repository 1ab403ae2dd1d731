use hayro::content::TypedIter;
use hayro::number::Number;
use hayro::object::{Dict, Name, Object};
use hayro::ops::{
    BeginMarkedContentWithProperties, ClosePath, EndMarkedContent, FillPathNonZero, LineTo,
    MarkedContentPointWithProperties, MoveTo, NonStrokeColorDeviceRgb, NonStrokeColorNamed,
    SetGraphicsState, StrokeColorNamed, Transform, TypedInstruction,
};

fn n(num: i32) -> Number {
    Number::from_i32(num)
}

#[test]
fn basic_ops_1() {
    let input = b"
1 0 0 -1 0 200 cm
/g0 gs
1 0 0 rg
";

    let mut iter = TypedIter::new(input);

    assert!(matches!(
        iter.next(),
        Some(TypedInstruction::Transform(Transform(a, b, c, d, e, f)))
            if [a, b, c, d, e, f] == [n(1), n(0), n(0), n(-1), n(0), n(200)]
    ));
    assert!(matches!(
        iter.next(),
        Some(TypedInstruction::SetGraphicsState(SetGraphicsState(name)))
            if name.as_ref() == b"g0"
    ));
    assert!(matches!(
        iter.next(),
        Some(TypedInstruction::NonStrokeColorDeviceRgb(NonStrokeColorDeviceRgb(r, g, b)))
            if [r, g, b] == [n(1), n(0), n(0)]
    ));
    assert!(iter.next().is_none());
}

#[test]
fn basic_ops_2() {
    let input = b"
20 20 m
180 20 l
180 180 l
20 180 l
h
f
";

    let mut iter = TypedIter::new(input);

    assert!(matches!(
        iter.next(),
        Some(TypedInstruction::MoveTo(MoveTo(x, y))) if [x, y] == [n(20), n(20)]
    ));
    assert!(matches!(
        iter.next(),
        Some(TypedInstruction::LineTo(LineTo(x, y))) if [x, y] == [n(180), n(20)]
    ));
    assert!(matches!(
        iter.next(),
        Some(TypedInstruction::LineTo(LineTo(x, y))) if [x, y] == [n(180), n(180)]
    ));
    assert!(matches!(
        iter.next(),
        Some(TypedInstruction::LineTo(LineTo(x, y))) if [x, y] == [n(20), n(180)]
    ));
    assert!(matches!(
        iter.next(),
        Some(TypedInstruction::ClosePath(ClosePath))
    ));
    assert!(matches!(
        iter.next(),
        Some(TypedInstruction::FillPathNonZero(FillPathNonZero))
    ));
    assert!(iter.next().is_none());
}

#[test]
fn display_ops() {
    let mut iter = TypedIter::new(
        b"h 2 w 1 0 0 RG 0 0 10 20 re 10 20 m 30 20 60 40 90 80 c \
          0.1 0.2 SC 0.0 scn 1.0 /Spot SCN (Hello) Tj <00FF> Tj foo",
    );

    assert_eq!(iter.next().unwrap().to_string(), "ClosePath");
    assert_eq!(iter.next().unwrap().to_string(), "LineWidth(2)");
    assert_eq!(
        iter.next().unwrap().to_string(),
        "StrokeColorDeviceRgb(1 0 0)"
    );
    assert_eq!(iter.next().unwrap().to_string(), "RectPath(0 0 10 20)");
    assert_eq!(iter.next().unwrap().to_string(), "MoveTo(10 20)");
    assert_eq!(
        iter.next().unwrap().to_string(),
        "CubicTo(30 20 60 40 90 80)"
    );
    assert_eq!(iter.next().unwrap().to_string(), "StrokeColor(0.1 0.2)");
    assert_eq!(
        iter.next().unwrap().to_string(),
        "NonStrokeColorNamed(0.0)"
    );
    assert_eq!(
        iter.next().unwrap().to_string(),
        "StrokeColorNamed(1.0 /Spot)"
    );
    assert_eq!(iter.next().unwrap().to_string(), "ShowText(\"Hello\")");
    assert_eq!(iter.next().unwrap().to_string(), "ShowText([0, 255])");
    assert_eq!(iter.next().unwrap().to_string(), "Fallback(foo)");
    assert!(iter.next().is_none());
}

#[test]
fn scn() {
    let input = b"
0.0 scn
1.0 1.0 1.0 /DeviceRgb SCN
";

    let mut iter = TypedIter::new(input);

    match iter.next() {
        Some(TypedInstruction::NonStrokeColorNamed(NonStrokeColorNamed(nums, None))) => {
            assert_eq!(nums.as_slice(), &[Number::from_decimal(0, 1)]);
        }
        other => panic!("unexpected instruction: {other:?}"),
    }

    match iter.next() {
        Some(TypedInstruction::StrokeColorNamed(StrokeColorNamed(nums, Some(name)))) => {
            assert_eq!(
                nums.as_slice(),
                &[
                    Number::from_decimal(10, 1),
                    Number::from_decimal(10, 1),
                    Number::from_decimal(10, 1)
                ]
            );
            assert_eq!(name.as_ref(), b"DeviceRgb");
        }
        other => panic!("unexpected instruction: {other:?}"),
    }

    assert!(iter.next().is_none());
}

#[test]
fn dp() {
    let input = b"/Attribute<</ShowCenterPoint false >> DP";

    let mut iter = TypedIter::new(input);

    match iter.next() {
        Some(TypedInstruction::MarkedContentPointWithProperties(
            MarkedContentPointWithProperties(name, object),
        )) => {
            assert_eq!(name.as_ref(), b"Attribute");
            assert_eq!(
                &object,
                &Object::Dict(Dict::from_bytes(b"<</ShowCenterPoint false >>").unwrap())
            );
        }
        other => panic!("unexpected instruction: {other:?}"),
    }

    assert!(iter.next().is_none());
}

#[test]
fn bdc_with_dict() {
    let input = b"/Span << /MCID 0 /Alt (Alt)>> BDC EMC";

    let mut iter = TypedIter::new(input);

    match iter.next() {
        Some(TypedInstruction::BeginMarkedContentWithProperties(
            BeginMarkedContentWithProperties(name, object),
        )) => {
            assert_eq!(name.as_ref(), b"Span");
            assert_eq!(
                &object,
                &Object::Dict(Dict::from_bytes(b"<< /MCID 0 /Alt (Alt)>>").unwrap())
            );
        }
        other => panic!("unexpected instruction: {other:?}"),
    }

    assert!(matches!(
        iter.next(),
        Some(TypedInstruction::EndMarkedContent(EndMarkedContent))
    ));
    assert!(iter.next().is_none());
}

#[test]
fn bdc_with_name() {
    let input = b"/Span /Name BDC EMC";

    let mut iter = TypedIter::new(input);

    match iter.next() {
        Some(TypedInstruction::BeginMarkedContentWithProperties(
            BeginMarkedContentWithProperties(name, object),
        )) => {
            assert_eq!(name.as_ref(), b"Span");
            assert_eq!(&object, &Object::Name(Name::new_unescaped(b"Name")));
        }
        other => panic!("unexpected instruction: {other:?}"),
    }

    assert!(matches!(
        iter.next(),
        Some(TypedInstruction::EndMarkedContent(EndMarkedContent))
    ));
    assert!(iter.next().is_none());
}

#[test]
fn dispatch_refuses_operands_that_do_not_fit() {
    assert!(hayro::ops::dispatch(b"cm".to_vec(), vec![]).is_none());
    assert!(hayro::ops::dispatch(b"rg".to_vec(), vec![Object::Number(n(1)), Object::Number(n(0))]).is_none());
}

#[test]
fn dispatch_unknown_operator_falls_back() {
    assert!(matches!(
        hayro::ops::dispatch(b"xyz".to_vec(), vec![Object::Number(n(1))]),
        Some(TypedInstruction::Fallback(hayro::ops::Operator(op))) if op == b"xyz".to_vec()
    ));
}

#[test]
fn dispatch_known_operator_with_its_operands() {
    assert!(matches!(
        hayro::ops::dispatch(b"q".to_vec(), vec![]),
        Some(TypedInstruction::SaveState(_))
    ));
}

#[test]
fn iterator_skips_refused_instruction() {
    let mut iter = TypedIter::new(b"cm q");
    assert!(matches!(iter.next(), Some(TypedInstruction::SaveState(_))));
    assert!(iter.next().is_none());
}
