use jsi::{decode, encode, JsiDeserializeError, JsiDeserializer, JsiSerializeError, JsiSerializer, JsiValue, NativeValue, RuntimeHandle, Shape, ValueKind};

fn s(x: &str) -> String {
    x.to_string()
}

fn round_trip(v: NativeValue, shape: Shape) -> NativeValue {
    let js = match encode(&v) {
        Ok(js) => js,
        Err(_) => panic!("encoding failed"),
    };
    match decode(&shape, &js) {
        Ok(back) => back,
        Err(_) => panic!("decoding failed"),
    }
}

fn same(a: &NativeValue, b: &NativeValue) -> bool {
    show(a) == show(b)
}

fn show_all(xs: &[NativeValue]) -> String {
    xs.iter().map(show).collect::<Vec<_>>().join(",")
}

fn show(v: &NativeValue) -> String {
    match v {
        NativeValue::Bool(b) => format!("Bool({})", b),
        NativeValue::Int(n) => format!("Int({})", n),
        NativeValue::Str(x) => format!("Str({:?})", x),
        NativeValue::Bytes(b) => format!("Bytes({:?})", b),
        NativeValue::Char(c) => format!("Char({:?})", c),
        NativeValue::Absent => format!("Absent"),
        NativeValue::Present(x) => format!("Present({})", show(x)),
        NativeValue::Unit => format!("Unit"),
        NativeValue::List(xs) => format!("List({})", show_all(xs)),
        NativeValue::Stream(xs) => format!("Stream({})", show_all(xs)),
        NativeValue::Tuple(xs) => format!("Tuple({})", show_all(xs)),
        NativeValue::Entries(es) => format!(
            "Entries({})",
            es.iter().map(|(k, v)| format!("{}={}", show(k), show(v))).collect::<Vec<_>>().join(",")
        ),
        NativeValue::Record(fs) => format!(
            "Record({})",
            fs.iter().map(|(k, v)| format!("{}={}", k, show(v))).collect::<Vec<_>>().join(",")
        ),
        NativeValue::UnitVariant(n) => format!("UnitVariant({:?})", n),
        NativeValue::Variant(n, p) => format!("Variant({:?}, {})", n, show(p)),
    }
}

fn color_shape() -> Shape {
    Shape::Enum(vec![
        (s("Red"), None),
        (s("Green"), None),
        (s("Rgb"), Some(Shape::Tuple(vec![Shape::Int, Shape::Int, Shape::Int]))),
        (s("Named"), Some(Shape::Record(vec![(s("name"), Shape::Str)]))),
    ])
}

#[test]
fn encodes_primitives() {
    assert!(matches!(encode(&NativeValue::Bool(true)), Ok(JsiValue::Bool(true))));
    assert!(matches!(encode(&NativeValue::Int(-7)), Ok(JsiValue::Number(-7))));
    assert!(matches!(encode(&NativeValue::Absent), Ok(JsiValue::Null)));
    match encode(&NativeValue::Str(s("hi"))) {
        Ok(JsiValue::String(t)) => assert_eq!(t, "hi"),
        _ => panic!("expected a string"),
    }
    match encode(&NativeValue::Bytes(vec![1, 2, 3])) {
        Ok(JsiValue::ArrayBuffer(b)) => assert_eq!(b, vec![1, 2, 3]),
        _ => panic!("expected an array buffer"),
    }
}

#[test]
fn tuple_encodes_to_positional_keys() {
    let v = NativeValue::Tuple((0..12).map(NativeValue::Int).collect());
    match encode(&v) {
        Ok(JsiValue::Object(props)) => {
            let keys: Vec<String> = props.iter().map(|p| p.0.clone()).collect();
            assert_eq!(keys, vec!["0", "1", "2", "3", "4", "5", "6", "7", "8", "9", "10", "11"]);
            assert!(matches!(props[11].1, JsiValue::Number(11)));
        },
        _ => panic!("expected an object"),
    }
}

#[test]
fn enum_encodings() {
    assert!(matches!(encode(&NativeValue::UnitVariant(s("Red"))), Ok(JsiValue::String(ref n)) if n == "Red"));
    let v = NativeValue::Variant(s("Rgb"), Box::new(NativeValue::Tuple(vec![NativeValue::Int(1), NativeValue::Int(2), NativeValue::Int(3)])));
    match encode(&v) {
        Ok(JsiValue::Object(props)) => {
            assert_eq!(props.len(), 1);
            assert_eq!(props[0].0, "Rgb");
        },
        _ => panic!("expected a single-property object"),
    }
}

#[test]
fn unsized_sequence_is_refused() {
    let v = NativeValue::List(vec![NativeValue::Stream(vec![NativeValue::Int(1)])]);
    assert!(matches!(encode(&v), Err(JsiSerializeError::UnsizedSequence)));
}

#[test]
fn serializer_encodes_through_runtime_handle() {
    let mut rt = RuntimeHandle::new_unchecked(9);
    let ser = JsiSerializer::new(&mut rt);
    assert!(matches!(ser.serialize(&NativeValue::Int(5)), Ok(JsiValue::Number(5))));
}

#[test]
fn round_trips_every_shape() {
    let cases: Vec<(NativeValue, Shape)> = vec![
        (NativeValue::Bool(false), Shape::Bool),
        (NativeValue::Int(42), Shape::Int),
        (NativeValue::Str(s("text")), Shape::Str),
        (NativeValue::Bytes(vec![0, 255]), Shape::Bytes),
        (NativeValue::Char('é'), Shape::Char),
        (NativeValue::Absent, Shape::Optional(Box::new(Shape::Int))),
        (NativeValue::Present(Box::new(NativeValue::Int(3))), Shape::Optional(Box::new(Shape::Int))),
        (NativeValue::Unit, Shape::Unit),
        (NativeValue::List(vec![NativeValue::Int(1), NativeValue::Int(2)]), Shape::List(Box::new(Shape::Int))),
        (
            NativeValue::Tuple(vec![NativeValue::Int(1), NativeValue::Str(s("a"))]),
            Shape::Tuple(vec![Shape::Int, Shape::Str]),
        ),
        (
            NativeValue::Entries(vec![(NativeValue::Str(s("k")), NativeValue::Int(1))]),
            Shape::Entries(Box::new(Shape::Str), Box::new(Shape::Int)),
        ),
        (
            NativeValue::Record(vec![(s("x"), NativeValue::Int(1)), (s("y"), NativeValue::Str(s("b")))]),
            Shape::Record(vec![(s("x"), Shape::Int), (s("y"), Shape::Str)]),
        ),
        (NativeValue::UnitVariant(s("Green")), color_shape()),
        (
            NativeValue::Variant(
                s("Rgb"),
                Box::new(NativeValue::Tuple(vec![NativeValue::Int(1), NativeValue::Int(2), NativeValue::Int(3)])),
            ),
            color_shape(),
        ),
        (
            NativeValue::Variant(s("Named"), Box::new(NativeValue::Record(vec![(s("name"), NativeValue::Str(s("teal")))]))),
            color_shape(),
        ),
    ];
    for (v, shape) in cases {
        let back = round_trip(clone_native(&v), shape);
        assert!(same(&v, &back), "{} came back as {}", show(&v), show(&back));
    }
}

fn clone_native(v: &NativeValue) -> NativeValue {
    match v {
        NativeValue::Bool(b) => NativeValue::Bool(*b),
        NativeValue::Int(n) => NativeValue::Int(*n),
        NativeValue::Str(x) => NativeValue::Str(x.clone()),
        NativeValue::Bytes(b) => NativeValue::Bytes(b.clone()),
        NativeValue::Char(c) => NativeValue::Char(*c),
        NativeValue::Absent => NativeValue::Absent,
        NativeValue::Present(x) => NativeValue::Present(Box::new(clone_native(x))),
        NativeValue::Unit => NativeValue::Unit,
        NativeValue::List(xs) => NativeValue::List(xs.iter().map(clone_native).collect()),
        NativeValue::Stream(xs) => NativeValue::Stream(xs.iter().map(clone_native).collect()),
        NativeValue::Tuple(xs) => NativeValue::Tuple(xs.iter().map(clone_native).collect()),
        NativeValue::Entries(es) => NativeValue::Entries(es.iter().map(|(k, v)| (clone_native(k), clone_native(v))).collect()),
        NativeValue::Record(fs) => NativeValue::Record(fs.iter().map(|(k, v)| (k.clone(), clone_native(v))).collect()),
        NativeValue::UnitVariant(n) => NativeValue::UnitVariant(n.clone()),
        NativeValue::Variant(n, p) => NativeValue::Variant(n.clone(), Box::new(clone_native(p))),
    }
}

#[test]
fn decode_wrong_kind() {
    let r = decode(&Shape::Int, &JsiValue::String(s("oops")));
    assert!(matches!(r, Err(JsiDeserializeError::WrongKind(ValueKind::Number))));
    assert_eq!(ValueKind::Number.name(), "number");
}

#[test]
fn decode_missing_field() {
    let v = JsiValue::Object(vec![(s("x"), JsiValue::Number(1))]);
    let shape = Shape::Record(vec![(s("x"), Shape::Int), (s("y"), Shape::Int)]);
    match decode(&shape, &v) {
        Err(JsiDeserializeError::MissingField(n)) => assert_eq!(n, "y"),
        _ => panic!("expected a missing field"),
    }
}

#[test]
fn decode_missing_optional_field_is_absent() {
    let v = JsiValue::Object(vec![(s("x"), JsiValue::Number(1))]);
    let shape = Shape::Record(vec![(s("x"), Shape::Int), (s("y"), Shape::Optional(Box::new(Shape::Int)))]);
    match decode(&shape, &v) {
        Ok(NativeValue::Record(fs)) => {
            assert_eq!(fs.len(), 2);
            assert!(matches!(fs[1].1, NativeValue::Absent));
        },
        _ => panic!("expected a record"),
    }
}

#[test]
fn decode_symbol_is_unsupported() {
    assert!(matches!(decode(&Shape::Str, &JsiValue::Symbol(1)), Err(JsiDeserializeError::Unsupported)));
}

#[test]
fn decode_unknown_variant() {
    match decode(&color_shape(), &JsiValue::String(s("Blue"))) {
        Err(JsiDeserializeError::UnknownVariant(n)) => assert_eq!(n, "Blue"),
        _ => panic!("expected an unknown variant"),
    }
}

#[test]
fn decode_enum_by_index_and_by_object() {
    assert!(matches!(decode(&color_shape(), &JsiValue::Number(1)), Ok(NativeValue::UnitVariant(ref n)) if n == "Green"));
    assert!(matches!(decode(&color_shape(), &JsiValue::Number(2)), Err(JsiDeserializeError::WrongKind(ValueKind::Enum))));
    let two = JsiValue::Object(vec![(s("Red"), JsiValue::Object(vec![])), (s("Green"), JsiValue::Object(vec![]))]);
    assert!(matches!(decode(&color_shape(), &two), Err(JsiDeserializeError::WrongKind(ValueKind::Enum))));
}

#[test]
fn decode_map_from_plain_object() {
    let v = JsiValue::Object(vec![(s("a"), JsiValue::Number(1)), (s("b"), JsiValue::Number(2))]);
    match decode(&Shape::Entries(Box::new(Shape::Str), Box::new(Shape::Int)), &v) {
        Ok(NativeValue::Entries(es)) => {
            assert_eq!(es.len(), 2);
            assert!(matches!(es[1].0, NativeValue::Str(ref k) if k == "b"));
            assert!(matches!(es[1].1, NativeValue::Int(2)));
        },
        _ => panic!("expected entries"),
    }
}

#[test]
fn decode_tuple_from_array() {
    let v = JsiValue::Array(vec![JsiValue::Number(4), JsiValue::Bool(true)]);
    match decode(&Shape::Tuple(vec![Shape::Int, Shape::Bool]), &v) {
        Ok(NativeValue::Tuple(xs)) => {
            assert!(matches!(xs[0], NativeValue::Int(4)));
            assert!(matches!(xs[1], NativeValue::Bool(true)));
        },
        _ => panic!("expected a tuple"),
    }
    match decode(&Shape::Tuple(vec![Shape::Int, Shape::Bool, Shape::Int]), &v) {
        Err(JsiDeserializeError::MissingField(n)) => assert_eq!(n, "2"),
        _ => panic!("expected a missing position"),
    }
}

#[test]
fn deserializer_decodes_its_value() {
    let mut rt = RuntimeHandle::new_unchecked(3);
    let de = JsiDeserializer::new(JsiValue::Bool(true), &mut rt);
    assert!(matches!(de.deserialize(&Shape::Bool), Ok(NativeValue::Bool(true))));
    assert!(matches!(de.deserialize(&Shape::Str), Err(JsiDeserializeError::WrongKind(ValueKind::String))));
}

#[test]
fn sequence_decodes_from_set_and_map() {
    let set = JsiValue::SetObject(vec![JsiValue::Number(1), JsiValue::Number(2)]);
    match decode(&Shape::List(Box::new(Shape::Int)), &set) {
        Ok(NativeValue::List(xs)) => {
            assert_eq!(xs.len(), 2);
            assert!(matches!(xs[1], NativeValue::Int(2)));
        },
        _ => panic!("a set is iterable"),
    }
    let map = JsiValue::MapObject(vec![(JsiValue::String(s("a")), JsiValue::Number(1))]);
    match decode(&Shape::List(Box::new(Shape::Tuple(vec![Shape::Str, Shape::Int]))), &map) {
        Ok(NativeValue::List(xs)) => match &xs[0] {
            NativeValue::Tuple(p) => {
                assert!(matches!(p[0], NativeValue::Str(ref k) if k == "a"));
                assert!(matches!(p[1], NativeValue::Int(1)));
            },
            _ => panic!("each entry is a pair"),
        },
        _ => panic!("a map iterates its entries"),
    }
    assert!(matches!(
        decode(&Shape::List(Box::new(Shape::Int)), &JsiValue::MapObject(vec![])),
        Ok(NativeValue::List(ref xs)) if xs.is_empty()
    ));
    assert!(matches!(
        decode(&Shape::List(Box::new(Shape::Int)), &JsiValue::Number(1)),
        Err(JsiDeserializeError::WrongKind(ValueKind::Array))
    ));
}

#[test]
fn record_decodes_from_map_with_string_keys() {
    let map = JsiValue::MapObject(vec![(JsiValue::String(s("count")), JsiValue::Number(3))]);
    let shape = Shape::Record(vec![(s("count"), Shape::Int)]);
    match decode(&shape, &map) {
        Ok(NativeValue::Record(fs)) => {
            assert_eq!(fs[0].0, "count");
            assert!(matches!(fs[0].1, NativeValue::Int(3)));
        },
        _ => panic!("a map with string keys holds fields"),
    }
    let bad = JsiValue::MapObject(vec![(JsiValue::Number(1), JsiValue::Number(3))]);
    assert!(matches!(decode(&shape, &bad), Err(JsiDeserializeError::WrongKind(ValueKind::String))));
}

#[test]
fn char_encodes_to_one_character_string() {
    match encode(&NativeValue::Char('x')) {
        Ok(JsiValue::String(t)) => assert_eq!(t, "x"),
        _ => panic!("a char becomes a string"),
    }
    assert!(matches!(decode(&Shape::Char, &JsiValue::String(s("ab"))), Ok(NativeValue::Char('a'))));
    assert!(matches!(decode(&Shape::Char, &JsiValue::String(s(""))), Err(JsiDeserializeError::WrongKind(ValueKind::Character))));
    assert!(matches!(decode(&Shape::Char, &JsiValue::Number(1)), Err(JsiDeserializeError::WrongKind(ValueKind::Character))));
}

#[test]
fn any_shape_follows_the_value() {
    let v = JsiValue::Object(vec![
        (s("n"), JsiValue::Number(2)),
        (s("tags"), JsiValue::Array(vec![JsiValue::String(s("a")), JsiValue::Null])),
    ]);
    match decode(&Shape::Any, &v) {
        Ok(NativeValue::Record(fs)) => {
            assert_eq!(fs[0].0, "n");
            assert!(matches!(fs[0].1, NativeValue::Int(2)));
            match &fs[1].1 {
                NativeValue::List(xs) => {
                    assert!(matches!(xs[0], NativeValue::Str(ref t) if t == "a"));
                    assert!(matches!(xs[1], NativeValue::Absent));
                },
                _ => panic!("tags is a list"),
            }
        },
        _ => panic!("an object reads as a record"),
    }
    let m = JsiValue::MapObject(vec![(JsiValue::Number(1), JsiValue::Bool(true))]);
    assert!(matches!(decode(&Shape::Any, &m), Ok(NativeValue::Entries(ref es)) if es.len() == 1));
    assert!(matches!(decode(&Shape::Any, &JsiValue::Function(3)), Err(JsiDeserializeError::Unsupported)));
    assert!(matches!(decode(&Shape::Any, &JsiValue::Symbol(3)), Err(JsiDeserializeError::Unsupported)));
}
