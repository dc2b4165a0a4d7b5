use vstd::prelude::*;

verus! {

/// Native structured data as mathematics: what a [`NativeValue`] denotes.
pub enum NativeModel {
    Bool(bool),
    Int(int),
    Str(Seq<char>),
    Bytes(Seq<u8>),
    Char(char),
    Absent,
    Present(Box<NativeModel>),
    Unit,
    List(Seq<NativeModel>),
    Stream(Seq<NativeModel>),
    Tuple(Seq<NativeModel>),
    Entries(Seq<(NativeModel, NativeModel)>),
    Record(Seq<(Seq<char>, NativeModel)>),
    UnitVariant(Seq<char>),
    Variant(Seq<char>, Box<NativeModel>),
}

/// Native structured data in the serialization data model.
///
/// `Absent` / `Present` are an optional value; `List` is a sequence whose
/// length is known up front and `Stream` one whose length is not; `Entries`
/// is a key-value map and `Record` a struct with named fields, both in order;
/// `UnitVariant` and `Variant` are enum variants without and with a payload
/// (a newtype, tuple or struct payload is the payload value itself).
pub enum NativeValue {
    Bool(bool),
    Int(i64),
    Str(String),
    Bytes(Vec<u8>),
    Char(char),
    Absent,
    Present(Box<NativeValue>),
    Unit,
    List(Vec<NativeValue>),
    Stream(Vec<NativeValue>),
    Tuple(Vec<NativeValue>),
    Entries(Vec<(NativeValue, NativeValue)>),
    Record(Vec<(String, NativeValue)>),
    UnitVariant(String),
    Variant(String, Box<NativeValue>),
}

/// The shape a decoder is asked to produce: the native type, as far as
/// decoding needs it.
pub enum ShapeModel {
    Bool,
    Int,
    Str,
    Bytes,
    Char,
    Any,
    Optional(Box<ShapeModel>),
    Unit,
    List(Box<ShapeModel>),
    Tuple(Seq<ShapeModel>),
    Entries(Box<ShapeModel>, Box<ShapeModel>),
    Record(Seq<(Seq<char>, ShapeModel)>),
    Enum(Seq<(Seq<char>, Option<ShapeModel>)>),
}

/// The type that a decoded value must have. An `Enum` lists its variants by
/// name, each with the shape of its payload or none for a unit variant; `Any`
/// takes whatever the value's own kind gives.
pub enum Shape {
    Bool,
    Int,
    Str,
    Bytes,
    Char,
    Any,
    Optional(Box<Shape>),
    Unit,
    List(Box<Shape>),
    Tuple(Vec<Shape>),
    Entries(Box<Shape>, Box<Shape>),
    Record(Vec<(String, Shape)>),
    Enum(Vec<(String, Option<Shape>)>),
}

pub open spec fn native_models(s: Seq<NativeValue>) -> Seq<NativeModel>
    decreases s,
{
    Seq::new(s.len(), |i: int| if 0 <= i < s.len() { s[i].model() } else { NativeModel::Unit })
}

pub open spec fn native_entry_models(s: Seq<(NativeValue, NativeValue)>) -> Seq<
    (NativeModel, NativeModel),
>
    decreases s,
{
    Seq::new(
        s.len(),
        |i: int|
            if 0 <= i < s.len() {
                (s[i].0.model(), s[i].1.model())
            } else {
                (NativeModel::Unit, NativeModel::Unit)
            },
    )
}

pub open spec fn native_field_models(s: Seq<(String, NativeValue)>) -> Seq<(Seq<char>, NativeModel)>
    decreases s,
{
    Seq::new(
        s.len(),
        |i: int|
            if 0 <= i < s.len() {
                (s[i].0@, s[i].1.model())
            } else {
                (Seq::empty(), NativeModel::Unit)
            },
    )
}

impl NativeValue {
    pub open spec fn model(&self) -> NativeModel
        decreases self,
    {
        match self {
            NativeValue::Bool(b) => NativeModel::Bool(*b),
            NativeValue::Int(n) => NativeModel::Int(*n as int),
            NativeValue::Str(s) => NativeModel::Str(s@),
            NativeValue::Bytes(b) => NativeModel::Bytes(b@),
            NativeValue::Char(c) => NativeModel::Char(*c),
            NativeValue::Absent => NativeModel::Absent,
            NativeValue::Present(x) => NativeModel::Present(Box::new(x.model())),
            NativeValue::Unit => NativeModel::Unit,
            NativeValue::List(xs) => NativeModel::List(native_models(xs@)),
            NativeValue::Stream(xs) => NativeModel::Stream(native_models(xs@)),
            NativeValue::Tuple(xs) => NativeModel::Tuple(native_models(xs@)),
            NativeValue::Entries(es) => NativeModel::Entries(native_entry_models(es@)),
            NativeValue::Record(fs) => NativeModel::Record(native_field_models(fs@)),
            NativeValue::UnitVariant(n) => NativeModel::UnitVariant(n@),
            NativeValue::Variant(n, p) => NativeModel::Variant(n@, Box::new(p.model())),
        }
    }
}

pub open spec fn shape_models(s: Seq<Shape>) -> Seq<ShapeModel>
    decreases s,
{
    Seq::new(s.len(), |i: int| if 0 <= i < s.len() { s[i].model() } else { ShapeModel::Unit })
}

pub open spec fn shape_field_models(s: Seq<(String, Shape)>) -> Seq<(Seq<char>, ShapeModel)>
    decreases s,
{
    Seq::new(
        s.len(),
        |i: int|
            if 0 <= i < s.len() {
                (s[i].0@, s[i].1.model())
            } else {
                (Seq::empty(), ShapeModel::Unit)
            },
    )
}

pub open spec fn variant_models(s: Seq<(String, Option<Shape>)>) -> Seq<
    (Seq<char>, Option<ShapeModel>),
>
    decreases s,
{
    Seq::new(
        s.len(),
        |i: int|
            if 0 <= i < s.len() {
                (
                    s[i].0@,
                    match s[i].1 {
                        Some(p) => Some(p.model()),
                        None => None,
                    },
                )
            } else {
                (Seq::empty(), None)
            },
    )
}

impl Shape {
    pub open spec fn model(&self) -> ShapeModel
        decreases self,
    {
        match self {
            Shape::Bool => ShapeModel::Bool,
            Shape::Int => ShapeModel::Int,
            Shape::Str => ShapeModel::Str,
            Shape::Bytes => ShapeModel::Bytes,
            Shape::Char => ShapeModel::Char,
            Shape::Any => ShapeModel::Any,
            Shape::Optional(x) => ShapeModel::Optional(Box::new(x.model())),
            Shape::Unit => ShapeModel::Unit,
            Shape::List(x) => ShapeModel::List(Box::new(x.model())),
            Shape::Tuple(xs) => ShapeModel::Tuple(shape_models(xs@)),
            Shape::Entries(k, v) => ShapeModel::Entries(Box::new(k.model()), Box::new(v.model())),
            Shape::Record(fs) => ShapeModel::Record(shape_field_models(fs@)),
            Shape::Enum(vs) => ShapeModel::Enum(variant_models(vs@)),
        }
    }
}

} // verus!
