use vstd::prelude::*;

use crate::keys::{decimal, decimal_string};
use crate::runtime::copy_value;
use crate::native::{
    native_entry_models, native_field_models, native_models, shape_field_models, shape_models,
    variant_models, NativeModel, NativeValue, Shape, ShapeModel,
};
use crate::value::{
    entry_models, find_key, first_index, js_models, key_seq, lemma_first_index,
    lemma_first_index_absent, lookup, prop_models, string_keys, JsModel, JsiValue, ValueKind,
};

verus! {

/// Why an interpreter value could not be decoded, as mathematics.
pub enum DecodeErrorModel {
    WrongKind(ValueKind),
    MissingField(Seq<char>),
    UnknownVariant(Seq<char>),
    Unsupported,
    Custom(Seq<char>),
}

/// Why an interpreter value could not be decoded.
pub enum JsiDeserializeError {
    /// The value is not of the kind that the shape asks for.
    WrongKind(ValueKind),
    /// A record field or tuple position that the value lacks.
    MissingField(String),
    /// An enum variant name that the shape does not list.
    UnknownVariant(String),
    /// A value that cannot cross to native code (a symbol, or a function
    /// where no shape asks for one).
    Unsupported,
    /// A message from the native side's own deserialization logic.
    Custom(String),
}

impl JsiDeserializeError {
    pub open spec fn model(&self) -> DecodeErrorModel {
        match self {
            JsiDeserializeError::WrongKind(k) => DecodeErrorModel::WrongKind(*k),
            JsiDeserializeError::MissingField(n) => DecodeErrorModel::MissingField(n@),
            JsiDeserializeError::UnknownVariant(n) => DecodeErrorModel::UnknownVariant(n@),
            JsiDeserializeError::Unsupported => DecodeErrorModel::Unsupported,
            JsiDeserializeError::Custom(m) => DecodeErrorModel::Custom(m@),
        }
    }
}

pub open spec fn is_empty_object(v: JsModel) -> bool {
    v matches JsModel::Object(p) && p.len() == 0
}

/// The element at position `i` of a tuple-like value: the property named
/// by the decimal form of `i`, or the array element.
pub open spec fn positional(v: JsModel, i: nat) -> Option<JsModel> {
    match v {
        JsModel::Object(props) => lookup(props, decimal(i)),
        JsModel::Array(items) => if i < items.len() {
            Some(items[i as int])
        } else {
            None
        },
        _ => None,
    }
}

/// The native data that `v` decodes to under shape `s`, or why it does not.
pub open spec fn dec(s: ShapeModel, v: JsModel) -> Result<NativeModel, DecodeErrorModel>
    decreases s, v,
{
    if v is Symbol {
        Err(DecodeErrorModel::Unsupported)
    } else {
        match s {
            ShapeModel::Bool => match v {
                JsModel::Bool(b) => Ok(NativeModel::Bool(b)),
                _ => Err(DecodeErrorModel::WrongKind(ValueKind::Boolean)),
            },
            ShapeModel::Int => match v {
                JsModel::Number(n) => Ok(NativeModel::Int(n)),
                _ => Err(DecodeErrorModel::WrongKind(ValueKind::Number)),
            },
            ShapeModel::Str => match v {
                JsModel::Str(t) => Ok(NativeModel::Str(t)),
                _ => Err(DecodeErrorModel::WrongKind(ValueKind::String)),
            },
            ShapeModel::Any => match v {
                JsModel::Undefined | JsModel::Null => Ok(NativeModel::Absent),
                JsModel::Bool(b) => Ok(NativeModel::Bool(b)),
                JsModel::Number(n) => Ok(NativeModel::Int(n)),
                JsModel::Str(t) => Ok(NativeModel::Str(t)),
                JsModel::ArrayBuffer(b) => Ok(NativeModel::Bytes(b)),
                JsModel::Array(items) => match dec_list(s, items) {
                    Ok(xs) => Ok(NativeModel::List(xs)),
                    Err(x) => Err(x),
                },
                JsModel::SetObject(items) => match dec_list(s, items) {
                    Ok(xs) => Ok(NativeModel::List(xs)),
                    Err(x) => Err(x),
                },
                JsModel::Object(props) => match dec_any_fields(s, props) {
                    Ok(xs) => Ok(NativeModel::Record(xs)),
                    Err(x) => Err(x),
                },
                JsModel::MapObject(es) => match dec_entries(s, es) {
                    Ok(xs) => Ok(NativeModel::Entries(xs)),
                    Err(x) => Err(x),
                },
                _ => Err(DecodeErrorModel::Unsupported),
            },
            ShapeModel::Char => match v {
                JsModel::Str(t) => if t.len() > 0 {
                    Ok(NativeModel::Char(t[0]))
                } else {
                    Err(DecodeErrorModel::WrongKind(ValueKind::Character))
                },
                _ => Err(DecodeErrorModel::WrongKind(ValueKind::Character)),
            },
            ShapeModel::Bytes => match v {
                JsModel::ArrayBuffer(b) => Ok(NativeModel::Bytes(b)),
                _ => Err(DecodeErrorModel::WrongKind(ValueKind::ArrayBuffer)),
            },
            ShapeModel::Optional(inner) => if v is Null || v is Undefined {
                Ok(NativeModel::Absent)
            } else {
                match dec(*inner, v) {
                    Ok(x) => Ok(NativeModel::Present(Box::new(x))),
                    Err(e) => Err(e),
                }
            },
            ShapeModel::Unit => if is_empty_object(v) {
                Ok(NativeModel::Unit)
            } else {
                Err(DecodeErrorModel::WrongKind(ValueKind::EmptyObject))
            },
            ShapeModel::List(e) => match v {
                JsModel::Array(items) => match dec_list(*e, items) {
                    Ok(xs) => Ok(NativeModel::List(xs)),
                    Err(x) => Err(x),
                },
                JsModel::SetObject(items) => match dec_list(*e, items) {
                    Ok(xs) => Ok(NativeModel::List(xs)),
                    Err(x) => Err(x),
                },
                JsModel::MapObject(es) => match dec_pairs(s, es) {
                    Ok(xs) => Ok(NativeModel::List(xs)),
                    Err(x) => Err(x),
                },
                _ => Err(DecodeErrorModel::WrongKind(ValueKind::Array)),
            },
            ShapeModel::Tuple(shapes) => if v is Object || v is Array {
                match dec_tuple(shapes, v) {
                    Ok(xs) => Ok(NativeModel::Tuple(xs)),
                    Err(x) => Err(x),
                }
            } else {
                Err(DecodeErrorModel::WrongKind(ValueKind::Object))
            },
            ShapeModel::Entries(_, _) => match v {
                JsModel::MapObject(es) => match dec_entries(s, es) {
                    Ok(xs) => Ok(NativeModel::Entries(xs)),
                    Err(x) => Err(x),
                },
                JsModel::Object(props) => match dec_props(s, props) {
                    Ok(xs) => Ok(NativeModel::Entries(xs)),
                    Err(x) => Err(x),
                },
                _ => Err(DecodeErrorModel::WrongKind(ValueKind::Object)),
            },
            ShapeModel::Record(fields) => match v {
                JsModel::Object(props) => match dec_fields(fields, props) {
                    Ok(xs) => Ok(NativeModel::Record(xs)),
                    Err(x) => Err(x),
                },
                JsModel::MapObject(es) => if string_keyed(es) {
                    match dec_fields(fields, string_props(es)) {
                        Ok(xs) => Ok(NativeModel::Record(xs)),
                        Err(x) => Err(x),
                    }
                } else {
                    Err(DecodeErrorModel::WrongKind(ValueKind::String))
                },
                _ => Err(DecodeErrorModel::WrongKind(ValueKind::Object)),
            },
            ShapeModel::Enum(vs) => match v {
                JsModel::Number(n) => if 0 <= n < vs.len() && vs[n].1 is None {
                    Ok(NativeModel::UnitVariant(vs[n].0))
                } else {
                    Err(DecodeErrorModel::WrongKind(ValueKind::Enum))
                },
                JsModel::Str(name) => {
                    let k = first_index(key_seq(vs), name);
                    if 0 <= k < vs.len() {
                        if vs[k].1 is None {
                            Ok(NativeModel::UnitVariant(name))
                        } else {
                            Err(DecodeErrorModel::WrongKind(ValueKind::Object))
                        }
                    } else {
                        Err(DecodeErrorModel::UnknownVariant(name))
                    }
                },
                JsModel::Object(props) => if props.len() == 1 {
                    let name = props[0].0;
                    let k = first_index(key_seq(vs), name);
                    if 0 <= k < vs.len() {
                        match vs[k].1 {
                            None => if is_empty_object(props[0].1) {
                                Ok(NativeModel::UnitVariant(name))
                            } else {
                                Err(DecodeErrorModel::WrongKind(ValueKind::EmptyObject))
                            },
                            Some(ps) => match dec(ps, props[0].1) {
                                Ok(x) => Ok(NativeModel::Variant(name, Box::new(x))),
                                Err(e) => Err(e),
                            },
                        }
                    } else {
                        Err(DecodeErrorModel::UnknownVariant(name))
                    }
                } else {
                    Err(DecodeErrorModel::WrongKind(ValueKind::Enum))
                },
                _ => Err(DecodeErrorModel::WrongKind(ValueKind::Enum)),
            },
        }
    }
}

/// Each of `items` decoded under `e`, or the first failure.
pub open spec fn dec_list(e: ShapeModel, items: Seq<JsModel>) -> Result<
    Seq<NativeModel>,
    DecodeErrorModel,
>
    decreases e, items,
{
    if items.len() == 0 {
        Ok(Seq::empty())
    } else {
        let n = items.len() - 1;
        match dec_list(e, items.subrange(0, n)) {
            Err(x) => Err(x),
            Ok(xs) => match dec(e, items[n]) {
                Ok(y) => Ok(xs.push(y)),
                Err(x) => Err(x),
            },
        }
    }
}

/// The entries of a `Map` instance, iterated as a sequence under the list
/// shape `s`: each entry is the two-element array `[key, value]`.
pub open spec fn dec_pairs(s: ShapeModel, es: Seq<(JsModel, JsModel)>) -> Result<
    Seq<NativeModel>,
    DecodeErrorModel,
>
    decreases s, es,
{
    if es.len() == 0 {
        Ok(Seq::empty())
    } else {
        let n = es.len() - 1;
        match dec_pairs(s, es.subrange(0, n)) {
            Err(x) => Err(x),
            Ok(xs) => match s {
                ShapeModel::List(e) => match dec(*e, JsModel::Array(seq![es[n].0, es[n].1])) {
                    Ok(y) => Ok(xs.push(y)),
                    Err(x) => Err(x),
                },
                _ => Ok(xs),
            },
        }
    }
}

/// Every key of the `Map` entries `es` is a string.
pub open spec fn string_keyed(es: Seq<(JsModel, JsModel)>) -> bool {
    forall|i: int| 0 <= i < es.len() ==> (#[trigger] es[i]).0 is Str
}

/// The `Map` entries `es`, with string keys, as named properties.
pub open spec fn string_props(es: Seq<(JsModel, JsModel)>) -> Seq<(Seq<char>, JsModel)> {
    Seq::new(es.len(), |i: int| (es[i].0->Str_0, es[i].1))
}

/// The positions of a tuple-like value decoded under `shapes`, or the first failure.
pub open spec fn dec_tuple(shapes: Seq<ShapeModel>, v: JsModel) -> Result<
    Seq<NativeModel>,
    DecodeErrorModel,
>
    decreases shapes, v,
{
    if shapes.len() == 0 {
        Ok(Seq::empty())
    } else {
        let n = (shapes.len() - 1) as nat;
        match dec_tuple(shapes.subrange(0, n as int), v) {
            Err(x) => Err(x),
            Ok(xs) => match positional(v, n) {
                None => Err(DecodeErrorModel::MissingField(decimal(n))),
                Some(x) => match dec(shapes[n as int], x) {
                    Ok(y) => Ok(xs.push(y)),
                    Err(e) => Err(e),
                },
            },
        }
    }
}

/// The fields of a record read from `props` by name, or the first failure; an
/// optional field that is missing is absent.
pub open spec fn dec_fields(fields: Seq<(Seq<char>, ShapeModel)>, props: Seq<(Seq<char>, JsModel)>) -> Result<
    Seq<(Seq<char>, NativeModel)>,
    DecodeErrorModel,
>
    decreases fields, props,
{
    if fields.len() == 0 {
        Ok(Seq::empty())
    } else {
        let n = fields.len() - 1;
        match dec_fields(fields.subrange(0, n), props) {
            Err(x) => Err(x),
            Ok(xs) => match lookup(props, fields[n].0) {
                None => if fields[n].1 is Optional {
                    Ok(xs.push((fields[n].0, NativeModel::Absent)))
                } else {
                    Err(DecodeErrorModel::MissingField(fields[n].0))
                },
                Some(x) => match dec(fields[n].1, x) {
                    Ok(y) => Ok(xs.push((fields[n].0, y))),
                    Err(e) => Err(e),
                },
            },
        }
    }
}

/// The entries of a `Map` instance decoded under the map shape `s`.
pub open spec fn dec_entries(s: ShapeModel, es: Seq<(JsModel, JsModel)>) -> Result<
    Seq<(NativeModel, NativeModel)>,
    DecodeErrorModel,
>
    decreases s, es,
{
    if es.len() == 0 {
        Ok(Seq::empty())
    } else {
        let n = es.len() - 1;
        match dec_entries(s, es.subrange(0, n)) {
            Err(x) => Err(x),
            Ok(xs) => match s {
                ShapeModel::Entries(k, w) => match dec(*k, es[n].0) {
                    Err(x) => Err(x),
                    Ok(a) => match dec(*w, es[n].1) {
                        Err(x) => Err(x),
                        Ok(b) => Ok(xs.push((a, b))),
                    },
                },
                ShapeModel::Any => match dec(s, es[n].0) {
                    Err(x) => Err(x),
                    Ok(a) => match dec(s, es[n].1) {
                        Err(x) => Err(x),
                        Ok(b) => Ok(xs.push((a, b))),
                    },
                },
                _ => Ok(xs),
            },
        }
    }
}

/// The properties of a plain object decoded as record fields, each under
/// the shape `s` (which is `Any`).
pub open spec fn dec_any_fields(s: ShapeModel, props: Seq<(Seq<char>, JsModel)>) -> Result<
    Seq<(Seq<char>, NativeModel)>,
    DecodeErrorModel,
>
    decreases s, props,
{
    if props.len() == 0 {
        Ok(Seq::empty())
    } else {
        let n = props.len() - 1;
        match dec_any_fields(s, props.subrange(0, n)) {
            Err(x) => Err(x),
            Ok(xs) => match dec(s, props[n].1) {
                Ok(y) => Ok(xs.push((props[n].0, y))),
                Err(x) => Err(x),
            },
        }
    }
}

/// The properties of a plain object decoded as map entries under the map shape `s`.
pub open spec fn dec_props(s: ShapeModel, props: Seq<(Seq<char>, JsModel)>) -> Result<
    Seq<(NativeModel, NativeModel)>,
    DecodeErrorModel,
>
    decreases s, props,
{
    if props.len() == 0 {
        Ok(Seq::empty())
    } else {
        let n = props.len() - 1;
        match dec_props(s, props.subrange(0, n)) {
            Err(x) => Err(x),
            Ok(xs) => match s {
                ShapeModel::Entries(k, w) => match dec(*k, JsModel::Str(props[n].0)) {
                    Err(x) => Err(x),
                    Ok(a) => match dec(*w, props[n].1) {
                        Err(x) => Err(x),
                        Ok(b) => Ok(xs.push((a, b))),
                    },
                },
                _ => Ok(xs),
            },
        }
    }
}


pub open spec fn native_result(r: Result<NativeValue, JsiDeserializeError>) -> Result<
    NativeModel,
    DecodeErrorModel,
> {
    match r {
        Ok(x) => Ok(x.model()),
        Err(e) => Err(e.model()),
    }
}

pub open spec fn list_result(r: Result<Vec<NativeValue>, JsiDeserializeError>) -> Result<
    Seq<NativeModel>,
    DecodeErrorModel,
> {
    match r {
        Ok(xs) => Ok(native_models(xs@)),
        Err(e) => Err(e.model()),
    }
}

pub open spec fn pairs_result(r: Result<Vec<(NativeValue, NativeValue)>, JsiDeserializeError>) -> Result<
    Seq<(NativeModel, NativeModel)>,
    DecodeErrorModel,
> {
    match r {
        Ok(xs) => Ok(native_entry_models(xs@)),
        Err(e) => Err(e.model()),
    }
}

pub open spec fn fields_result(r: Result<Vec<(String, NativeValue)>, JsiDeserializeError>) -> Result<
    Seq<(Seq<char>, NativeModel)>,
    DecodeErrorModel,
> {
    match r {
        Ok(xs) => Ok(native_field_models(xs@)),
        Err(e) => Err(e.model()),
    }
}

pub open spec fn value_option(r: Option<&JsiValue>) -> Option<JsModel> {
    match r {
        Some(x) => Some(x.model()),
        None => None,
    }
}

proof fn lemma_prop_keys(props: Seq<(String, JsiValue)>)
    ensures
        key_seq(prop_models(props)) == string_keys(props),
{
    assert(key_seq(prop_models(props)) =~= string_keys(props));
}

proof fn lemma_variant_keys(vs: Seq<(String, Option<Shape>)>)
    ensures
        key_seq(variant_models(vs)) == string_keys(vs),
{
    assert(key_seq(variant_models(vs)) =~= string_keys(vs));
}

/// The value of the first property of `props` named `key`.
fn lookup_prop<'a>(props: &'a Vec<(String, JsiValue)>, key: &String) -> (r: Option<&'a JsiValue>)
    ensures
        value_option(r) == lookup(prop_models(props@), key@),
{
    proof {
        lemma_prop_keys(props@);
    }
    match find_key(props, key) {
        Some(i) => {
            proof {
                lemma_first_index(key_seq(prop_models(props@)), key@, i as int);
            }
            Some(&props[i].1)
        },
        None => {
            proof {
                lemma_first_index_absent(key_seq(prop_models(props@)), key@);
            }
            None
        },
    }
}

/// The element at position `i` of a tuple-like value.
fn positional_value(v: &JsiValue, i: usize) -> (r: Option<&JsiValue>)
    ensures
        value_option(r) == positional(v.model(), i as nat),
{
    match v {
        JsiValue::Object(props) => {
            let key = decimal_string(i as u64);
            lookup_prop(props, &key)
        },
        JsiValue::Array(items) => if i < items.len() {
            Some(&items[i])
        } else {
            None
        },
        _ => None,
    }
}

proof fn lemma_dec_list_err(e: ShapeModel, items: Seq<JsModel>, n: int)
    requires
        0 <= n <= items.len(),
        dec_list(e, items.subrange(0, n)) is Err,
    ensures
        dec_list(e, items) == dec_list(e, items.subrange(0, n)),
    decreases items.len(),
{
    if n == items.len() {
        assert(items.subrange(0, n) =~= items);
    } else {
        let p = items.subrange(0, items.len() - 1);
        assert(p.subrange(0, n) =~= items.subrange(0, n));
        lemma_dec_list_err(e, p, n);
    }
}

proof fn lemma_dec_tuple_err(shapes: Seq<ShapeModel>, v: JsModel, n: int)
    requires
        0 <= n <= shapes.len(),
        dec_tuple(shapes.subrange(0, n), v) is Err,
    ensures
        dec_tuple(shapes, v) == dec_tuple(shapes.subrange(0, n), v),
    decreases shapes.len(),
{
    if n == shapes.len() {
        assert(shapes.subrange(0, n) =~= shapes);
    } else {
        let p = shapes.subrange(0, shapes.len() - 1);
        assert(p.subrange(0, n) =~= shapes.subrange(0, n));
        lemma_dec_tuple_err(p, v, n);
    }
}

proof fn lemma_dec_fields_err(
    fields: Seq<(Seq<char>, ShapeModel)>,
    props: Seq<(Seq<char>, JsModel)>,
    n: int,
)
    requires
        0 <= n <= fields.len(),
        dec_fields(fields.subrange(0, n), props) is Err,
    ensures
        dec_fields(fields, props) == dec_fields(fields.subrange(0, n), props),
    decreases fields.len(),
{
    if n == fields.len() {
        assert(fields.subrange(0, n) =~= fields);
    } else {
        let p = fields.subrange(0, fields.len() - 1);
        assert(p.subrange(0, n) =~= fields.subrange(0, n));
        lemma_dec_fields_err(p, props, n);
    }
}

proof fn lemma_dec_entries_err(s: ShapeModel, es: Seq<(JsModel, JsModel)>, n: int)
    requires
        0 <= n <= es.len(),
        dec_entries(s, es.subrange(0, n)) is Err,
    ensures
        dec_entries(s, es) == dec_entries(s, es.subrange(0, n)),
    decreases es.len(),
{
    if n == es.len() {
        assert(es.subrange(0, n) =~= es);
    } else {
        let p = es.subrange(0, es.len() - 1);
        assert(p.subrange(0, n) =~= es.subrange(0, n));
        lemma_dec_entries_err(s, p, n);
    }
}

proof fn lemma_dec_props_err(s: ShapeModel, props: Seq<(Seq<char>, JsModel)>, n: int)
    requires
        0 <= n <= props.len(),
        dec_props(s, props.subrange(0, n)) is Err,
    ensures
        dec_props(s, props) == dec_props(s, props.subrange(0, n)),
    decreases props.len(),
{
    if n == props.len() {
        assert(props.subrange(0, n) =~= props);
    } else {
        let p = props.subrange(0, props.len() - 1);
        assert(p.subrange(0, n) =~= props.subrange(0, n));
        lemma_dec_props_err(s, p, n);
    }
}

#[verifier::loop_isolation(false)]
fn decode_list(e: &Shape, items: &Vec<JsiValue>) -> (r: Result<Vec<NativeValue>, JsiDeserializeError>)
    ensures
        list_result(r) == dec_list(e.model(), js_models(items@)),
    decreases e, items,
{
    let ghost all = js_models(items@);
    let mut out: Vec<NativeValue> = Vec::new();
    let mut i: usize = 0;
    assert(all.subrange(0, 0) =~= Seq::<JsModel>::empty());
    assert(native_models(out@) =~= Seq::<NativeModel>::empty());
    while i < items.len()
        invariant
            i <= items@.len(),
            dec_list(e.model(), all.subrange(0, i as int)) == Ok::<Seq<NativeModel>, DecodeErrorModel>(native_models(out@)),
        decreases items@.len() - i,
    {
        proof {
            vstd::std_specs::vec::axiom_vec_index_decreases(*items, i as int);
            let sub = all.subrange(0, i + 1);
            assert(sub.subrange(0, i as int) =~= all.subrange(0, i as int));
            assert(sub[i as int] == items@[i as int].model());
        }
        match decode(e, &items[i]) {
            Ok(y) => {
                let ghost before = out@;
                out.push(y);
                proof {
                    assert(native_models(out@) =~= native_models(before).push(y.model()));
                }
            },
            Err(x) => {
                proof {
                    lemma_dec_list_err(e.model(), all, i + 1);
                }
                return Err(x);
            },
        }
        i = i + 1;
    }
    assert(all.subrange(0, items@.len() as int) =~= all);
    Ok(out)
}

#[verifier::loop_isolation(false)]
fn decode_tuple(shapes: &Vec<Shape>, v: &JsiValue) -> (r: Result<Vec<NativeValue>, JsiDeserializeError>)
    ensures
        list_result(r) == dec_tuple(shape_models(shapes@), v.model()),
    decreases shapes, v,
{
    let ghost all = shape_models(shapes@);
    let mut out: Vec<NativeValue> = Vec::new();
    let mut i: usize = 0;
    assert(all.subrange(0, 0) =~= Seq::<ShapeModel>::empty());
    assert(native_models(out@) =~= Seq::<NativeModel>::empty());
    while i < shapes.len()
        invariant
            i <= shapes@.len(),
            dec_tuple(all.subrange(0, i as int), v.model()) == Ok::<Seq<NativeModel>, DecodeErrorModel>(native_models(out@)),
        decreases shapes@.len() - i,
    {
        proof {
            vstd::std_specs::vec::axiom_vec_index_decreases(*shapes, i as int);
            let sub = all.subrange(0, i + 1);
            assert(sub.subrange(0, i as int) =~= all.subrange(0, i as int));
            assert(sub[i as int] == shapes@[i as int].model());
        }
        match positional_value(v, i) {
            None => {
                proof {
                    lemma_dec_tuple_err(all, v.model(), i + 1);
                }
                return Err(JsiDeserializeError::MissingField(decimal_string(i as u64)));
            },
            Some(x) => match decode(&shapes[i], x) {
                Ok(y) => {
                    let ghost before = out@;
                    out.push(y);
                    proof {
                        assert(native_models(out@) =~= native_models(before).push(y.model()));
                    }
                },
                Err(e) => {
                    proof {
                        lemma_dec_tuple_err(all, v.model(), i + 1);
                    }
                    return Err(e);
                },
            },
        }
        i = i + 1;
    }
    assert(all.subrange(0, shapes@.len() as int) =~= all);
    Ok(out)
}

#[verifier::loop_isolation(false)]
fn decode_fields(fields: &Vec<(String, Shape)>, props: &Vec<(String, JsiValue)>) -> (r: Result<
    Vec<(String, NativeValue)>,
    JsiDeserializeError,
>)
    ensures
        fields_result(r) == dec_fields(shape_field_models(fields@), prop_models(props@)),
    decreases fields, props,
{
    let ghost all = shape_field_models(fields@);
    let ghost pm = prop_models(props@);
    let mut out: Vec<(String, NativeValue)> = Vec::new();
    let mut i: usize = 0;
    assert(all.subrange(0, 0) =~= Seq::<(Seq<char>, ShapeModel)>::empty());
    assert(native_field_models(out@) =~= Seq::<(Seq<char>, NativeModel)>::empty());
    while i < fields.len()
        invariant
            i <= fields@.len(),
            dec_fields(all.subrange(0, i as int), pm) == Ok::<Seq<(Seq<char>, NativeModel)>, DecodeErrorModel>(native_field_models(out@)),
        decreases fields@.len() - i,
    {
        proof {
            vstd::std_specs::vec::axiom_vec_index_decreases(*fields, i as int);
            let sub = all.subrange(0, i + 1);
            assert(sub.subrange(0, i as int) =~= all.subrange(0, i as int));
            assert(sub[i as int] == (fields@[i as int].0@, fields@[i as int].1.model()));
        }
        let field = &fields[i];
        let ghost before = out@;
        match lookup_prop(props, &field.0) {
            None => {
                if let Shape::Optional(_) = &field.1 {
                    out.push((field.0.clone(), NativeValue::Absent));
                    proof {
                        assert(native_field_models(out@) =~= native_field_models(before).push((field.0@, NativeModel::Absent)));
                    }
                } else {
                    proof {
                        lemma_dec_fields_err(all, pm, i + 1);
                    }
                    return Err(JsiDeserializeError::MissingField(field.0.clone()));
                }
            },
            Some(x) => match decode(&field.1, x) {
                Ok(y) => {
                    out.push((field.0.clone(), y));
                    proof {
                        assert(native_field_models(out@) =~= native_field_models(before).push((field.0@, y.model())));
                    }
                },
                Err(e) => {
                    proof {
                        lemma_dec_fields_err(all, pm, i + 1);
                    }
                    return Err(e);
                },
            },
        }
        i = i + 1;
    }
    assert(all.subrange(0, fields@.len() as int) =~= all);
    Ok(out)
}

#[verifier::loop_isolation(false)]
fn decode_entries(s: &Shape, es: &Vec<(JsiValue, JsiValue)>) -> (r: Result<
    Vec<(NativeValue, NativeValue)>,
    JsiDeserializeError,
>)
    requires
        s is Entries || s is Any,
    ensures
        pairs_result(r) == dec_entries(s.model(), entry_models(es@)),
    decreases s, es,
{
    let any = Shape::Any;
    let (k, w): (&Shape, &Shape) = match s {
        Shape::Entries(k, w) => (k, w),
        _ => (&any, &any),
    };
    assert(s is Any ==> any == *s);
    let ghost all = entry_models(es@);
    let mut out: Vec<(NativeValue, NativeValue)> = Vec::new();
    let mut i: usize = 0;
    assert(all.subrange(0, 0) =~= Seq::<(JsModel, JsModel)>::empty());
    assert(native_entry_models(out@) =~= Seq::<(NativeModel, NativeModel)>::empty());
    while i < es.len()
        invariant
            i <= es@.len(),
            dec_entries(s.model(), all.subrange(0, i as int)) == Ok::<Seq<(NativeModel, NativeModel)>, DecodeErrorModel>(native_entry_models(out@)),
        decreases es@.len() - i,
    {
        proof {
            let sub = all.subrange(0, i + 1);
            assert(sub.subrange(0, i as int) =~= all.subrange(0, i as int));
            assert(sub[i as int] == (es@[i as int].0.model(), es@[i as int].1.model()));
        }
        let entry = &es[i];
        let a = match decode(k, &entry.0) {
            Ok(a) => a,
            Err(e) => {
                proof {
                    lemma_dec_entries_err(s.model(), all, i + 1);
                }
                return Err(e);
            },
        };
        let b = match decode(w, &entry.1) {
            Ok(b) => b,
            Err(e) => {
                proof {
                    lemma_dec_entries_err(s.model(), all, i + 1);
                }
                return Err(e);
            },
        };
        let ghost before = out@;
        out.push((a, b));
        proof {
            assert(native_entry_models(out@) =~= native_entry_models(before).push((a.model(), b.model())));
        }
        i = i + 1;
    }
    assert(all.subrange(0, es@.len() as int) =~= all);
    Ok(out)
}

#[verifier::loop_isolation(false)]
fn decode_props(s: &Shape, props: &Vec<(String, JsiValue)>) -> (r: Result<
    Vec<(NativeValue, NativeValue)>,
    JsiDeserializeError,
>)
    requires
        s is Entries,
    ensures
        pairs_result(r) == dec_props(s.model(), prop_models(props@)),
    decreases s, props,
{
    let (k, w) = match s {
        Shape::Entries(k, w) => (k, w),
        _ => {
            return Err(JsiDeserializeError::WrongKind(ValueKind::Object));
        },
    };
    let ghost all = prop_models(props@);
    let mut out: Vec<(NativeValue, NativeValue)> = Vec::new();
    let mut i: usize = 0;
    assert(all.subrange(0, 0) =~= Seq::<(Seq<char>, JsModel)>::empty());
    assert(native_entry_models(out@) =~= Seq::<(NativeModel, NativeModel)>::empty());
    while i < props.len()
        invariant
            i <= props@.len(),
            dec_props(s.model(), all.subrange(0, i as int)) == Ok::<Seq<(NativeModel, NativeModel)>, DecodeErrorModel>(native_entry_models(out@)),
        decreases props@.len() - i,
    {
        proof {
            let sub = all.subrange(0, i + 1);
            assert(sub.subrange(0, i as int) =~= all.subrange(0, i as int));
            assert(sub[i as int] == (props@[i as int].0@, props@[i as int].1.model()));
        }
        let prop = &props[i];
        let name = JsiValue::String(prop.0.clone());
        let a = match decode(k, &name) {
            Ok(a) => a,
            Err(e) => {
                proof {
                    lemma_dec_props_err(s.model(), all, i + 1);
                }
                return Err(e);
            },
        };
        let b = match decode(w, &prop.1) {
            Ok(b) => b,
            Err(e) => {
                proof {
                    lemma_dec_props_err(s.model(), all, i + 1);
                }
                return Err(e);
            },
        };
        let ghost before = out@;
        out.push((a, b));
        proof {
            assert(native_entry_models(out@) =~= native_entry_models(before).push((a.model(), b.model())));
        }
        i = i + 1;
    }
    assert(all.subrange(0, props@.len() as int) =~= all);
    Ok(out)
}

proof fn lemma_dec_pairs_err(s: ShapeModel, es: Seq<(JsModel, JsModel)>, n: int)
    requires
        0 <= n <= es.len(),
        dec_pairs(s, es.subrange(0, n)) is Err,
    ensures
        dec_pairs(s, es) == dec_pairs(s, es.subrange(0, n)),
    decreases es.len(),
{
    if n == es.len() {
        assert(es.subrange(0, n) =~= es);
    } else {
        let p = es.subrange(0, es.len() - 1);
        assert(p.subrange(0, n) =~= es.subrange(0, n));
        lemma_dec_pairs_err(s, p, n);
    }
}

#[verifier::loop_isolation(false)]
fn decode_pairs(s: &Shape, es: &Vec<(JsiValue, JsiValue)>) -> (r: Result<Vec<NativeValue>, JsiDeserializeError>)
    requires
        s is List,
    ensures
        list_result(r) == dec_pairs(s.model(), entry_models(es@)),
    decreases s, es,
{
    let e = match s {
        Shape::List(e) => e,
        _ => {
            return Err(JsiDeserializeError::WrongKind(ValueKind::Array));
        },
    };
    let ghost all = entry_models(es@);
    let mut out: Vec<NativeValue> = Vec::new();
    let mut i: usize = 0;
    assert(all.subrange(0, 0) =~= Seq::<(JsModel, JsModel)>::empty());
    assert(native_models(out@) =~= Seq::<NativeModel>::empty());
    while i < es.len()
        invariant
            i <= es@.len(),
            dec_pairs(s.model(), all.subrange(0, i as int)) == Ok::<Seq<NativeModel>, DecodeErrorModel>(native_models(out@)),
        decreases es@.len() - i,
    {
        proof {
            let sub = all.subrange(0, i + 1);
            assert(sub.subrange(0, i as int) =~= all.subrange(0, i as int));
            assert(sub[i as int] == (es@[i as int].0.model(), es@[i as int].1.model()));
        }
        let entry = &es[i];
        let mut pair: Vec<JsiValue> = Vec::new();
        pair.push(copy_value(&entry.0));
        pair.push(copy_value(&entry.1));
        let pair = JsiValue::Array(pair);
        assert(pair.model() == JsModel::Array(seq![es@[i as int].0.model(), es@[i as int].1.model()])) by {
            if let JsiValue::Array(p) = pair {
                assert(js_models(p@) =~= seq![es@[i as int].0.model(), es@[i as int].1.model()]);
            }
        }
        match decode(e, &pair) {
            Ok(y) => {
                let ghost before = out@;
                out.push(y);
                proof {
                    assert(native_models(out@) =~= native_models(before).push(y.model()));
                }
            },
            Err(x) => {
                proof {
                    lemma_dec_pairs_err(s.model(), all, i + 1);
                }
                return Err(x);
            },
        }
        i = i + 1;
    }
    assert(all.subrange(0, es@.len() as int) =~= all);
    Ok(out)
}

/// The entries of a `Map` instance as named properties, when every key is a string.
fn string_props_of(es: &Vec<(JsiValue, JsiValue)>) -> (r: Option<Vec<(String, JsiValue)>>)
    ensures
        r is Some <==> string_keyed(entry_models(es@)),
        r matches Some(props) ==> prop_models(props@) == string_props(entry_models(es@)),
{
    let ghost all = entry_models(es@);
    let mut out: Vec<(String, JsiValue)> = Vec::new();
    let mut i: usize = 0;
    while i < es.len()
        invariant
            i <= es@.len(),
            all == entry_models(es@),
            out@.len() == i,
            forall|j: int| 0 <= j < i ==> (#[trigger] all[j]).0 is Str,
            forall|j: int|
                0 <= j < i ==> (#[trigger] out@[j]).0@ == all[j].0->Str_0 && out@[j].1.model() == all[j].1,
        decreases es@.len() - i,
    {
        let entry = &es[i];
        assert(all[i as int] == (entry.0.model(), entry.1.model()));
        match &entry.0 {
            JsiValue::String(k) => {
                out.push((k.clone(), copy_value(&entry.1)));
            },
            _ => {
                return None;
            },
        }
        i = i + 1;
    }
    assert(prop_models(out@) =~= string_props(all));
    Some(out)
}

proof fn lemma_dec_any_fields_err(s: ShapeModel, props: Seq<(Seq<char>, JsModel)>, n: int)
    requires
        0 <= n <= props.len(),
        dec_any_fields(s, props.subrange(0, n)) is Err,
    ensures
        dec_any_fields(s, props) == dec_any_fields(s, props.subrange(0, n)),
    decreases props.len(),
{
    if n == props.len() {
        assert(props.subrange(0, n) =~= props);
    } else {
        let p = props.subrange(0, props.len() - 1);
        assert(p.subrange(0, n) =~= props.subrange(0, n));
        lemma_dec_any_fields_err(s, p, n);
    }
}

#[verifier::loop_isolation(false)]
fn decode_any_fields(s: &Shape, props: &Vec<(String, JsiValue)>) -> (r: Result<
    Vec<(String, NativeValue)>,
    JsiDeserializeError,
>)
    ensures
        fields_result(r) == dec_any_fields(s.model(), prop_models(props@)),
    decreases s, props,
{
    let ghost all = prop_models(props@);
    let mut out: Vec<(String, NativeValue)> = Vec::new();
    let mut i: usize = 0;
    assert(all.subrange(0, 0) =~= Seq::<(Seq<char>, JsModel)>::empty());
    assert(native_field_models(out@) =~= Seq::<(Seq<char>, NativeModel)>::empty());
    while i < props.len()
        invariant
            i <= props@.len(),
            dec_any_fields(s.model(), all.subrange(0, i as int)) == Ok::<Seq<(Seq<char>, NativeModel)>, DecodeErrorModel>(native_field_models(out@)),
        decreases props@.len() - i,
    {
        proof {
            vstd::std_specs::vec::axiom_vec_index_decreases(*props, i as int);
            let sub = all.subrange(0, i + 1);
            assert(sub.subrange(0, i as int) =~= all.subrange(0, i as int));
            assert(sub[i as int] == (props@[i as int].0@, props@[i as int].1.model()));
        }
        let prop = &props[i];
        match decode(s, &prop.1) {
            Ok(y) => {
                let ghost before = out@;
                out.push((prop.0.clone(), y));
                proof {
                    assert(native_field_models(out@) =~= native_field_models(before).push((prop.0@, y.model())));
                }
            },
            Err(x) => {
                proof {
                    lemma_dec_any_fields_err(s.model(), all, i + 1);
                }
                return Err(x);
            },
        }
        i = i + 1;
    }
    assert(all.subrange(0, props@.len() as int) =~= all);
    Ok(out)
}

/// Decodes `v` as an enum whose variants are `vs`.
fn decode_enum(vs: &Vec<(String, Option<Shape>)>, v: &JsiValue) -> (r: Result<NativeValue, JsiDeserializeError>)
    requires
        !(v.model() is Symbol),
    ensures
        native_result(r) == dec(ShapeModel::Enum(variant_models(vs@)), v.model()),
    decreases vs, v,
{
    let ghost vm = variant_models(vs@);
    proof {
        lemma_variant_keys(vs@);
        assert forall|i: int| 0 <= i < vs@.len() implies #[trigger] vm[i].0 == vs@[i].0@ && (vm[i].1 is None
            <==> vs@[i].1 is None) && (vs@[i].1 matches Some(p) ==> vm[i].1 == Some(p.model())) by {}
    }
    match v {
        JsiValue::Number(n) => {
            if *n >= 0 && (*n as u64) < (vs.len() as u64) && vs[*n as usize].1.is_none() {
                Ok(NativeValue::UnitVariant(vs[*n as usize].0.clone()))
            } else {
                Err(JsiDeserializeError::WrongKind(ValueKind::Enum))
            }
        },
        JsiValue::String(name) => match find_key(vs, name) {
            Some(k) => {
                proof {
                    lemma_first_index(key_seq(vm), name@, k as int);
                }
                if vs[k].1.is_none() {
                    Ok(NativeValue::UnitVariant(name.clone()))
                } else {
                    Err(JsiDeserializeError::WrongKind(ValueKind::Object))
                }
            },
            None => {
                proof {
                    lemma_first_index_absent(key_seq(vm), name@);
                }
                Err(JsiDeserializeError::UnknownVariant(name.clone()))
            },
        },
        JsiValue::Object(props) => {
            if props.len() != 1 {
                return Err(JsiDeserializeError::WrongKind(ValueKind::Enum));
            }
            let name = &props[0].0;
            let payload = &props[0].1;
            assert(prop_models(props@)[0] == (name@, payload.model()));
            match find_key(vs, name) {
                Some(k) => {
                    proof {
                        lemma_first_index(key_seq(vm), name@, k as int);
                        vstd::std_specs::vec::axiom_vec_index_decreases(*vs, k as int);
                    }
                    match &vs[k].1 {
                        None => match payload {
                            JsiValue::Object(q) => if q.len() == 0 {
                                Ok(NativeValue::UnitVariant(name.clone()))
                            } else {
                                Err(JsiDeserializeError::WrongKind(ValueKind::EmptyObject))
                            },
                            _ => Err(JsiDeserializeError::WrongKind(ValueKind::EmptyObject)),
                        },
                        Some(ps) => match decode(ps, payload) {
                            Ok(x) => Ok(NativeValue::Variant(name.clone(), Box::new(x))),
                            Err(e) => Err(e),
                        },
                    }
                },
                None => {
                    proof {
                        lemma_first_index_absent(key_seq(vm), name@);
                    }
                    Err(JsiDeserializeError::UnknownVariant(name.clone()))
                },
            }
        },
        _ => Err(JsiDeserializeError::WrongKind(ValueKind::Enum)),
    }
}

/// Decodes an interpreter value into native data.
pub struct JsiDeserializer {
    value: JsiValue,
}

impl JsiDeserializer {
    pub closed spec fn value(&self) -> JsiValue {
        self.value
    }

    /// A deserializer of `value`, a value of the runtime that `rt` gives access to.
    pub fn new(value: JsiValue, rt: &mut crate::runtime::RuntimeHandle) -> (r: Self)
        ensures
            r.value() == value,
            *final(rt) == *old(rt),
    {
        JsiDeserializer { value }
    }

    /// The native data of shape `shape` that the value decodes to.
    pub fn deserialize(&self, shape: &Shape) -> (r: Result<NativeValue, JsiDeserializeError>)
        ensures
            native_result(r) == dec(shape.model(), self.value().model()),
    {
        decode(shape, &self.value)
    }
}

/// Decodes `v` as native data of shape `s`.
pub fn decode(s: &Shape, v: &JsiValue) -> (r: Result<NativeValue, JsiDeserializeError>)
    ensures
        native_result(r) == dec(s.model(), v.model()),
    decreases s, v,
{
    if let JsiValue::Symbol(_) = v {
        return Err(JsiDeserializeError::Unsupported);
    }
    match s {
        Shape::Bool => match v {
            JsiValue::Bool(b) => Ok(NativeValue::Bool(*b)),
            _ => Err(JsiDeserializeError::WrongKind(ValueKind::Boolean)),
        },
        Shape::Int => match v {
            JsiValue::Number(n) => Ok(NativeValue::Int(*n)),
            _ => Err(JsiDeserializeError::WrongKind(ValueKind::Number)),
        },
        Shape::Str => match v {
            JsiValue::String(t) => Ok(NativeValue::Str(t.clone())),
            _ => Err(JsiDeserializeError::WrongKind(ValueKind::String)),
        },
        Shape::Any => match v {
            JsiValue::Undefined | JsiValue::Null => Ok(NativeValue::Absent),
            JsiValue::Bool(b) => Ok(NativeValue::Bool(*b)),
            JsiValue::Number(n) => Ok(NativeValue::Int(*n)),
            JsiValue::String(t) => Ok(NativeValue::Str(t.clone())),
            JsiValue::ArrayBuffer(b) => Ok(NativeValue::Bytes(b.clone())),
            JsiValue::Array(items) => match decode_list(s, items) {
                Ok(xs) => Ok(NativeValue::List(xs)),
                Err(x) => Err(x),
            },
            JsiValue::SetObject(items) => match decode_list(s, items) {
                Ok(xs) => Ok(NativeValue::List(xs)),
                Err(x) => Err(x),
            },
            JsiValue::Object(props) => match decode_any_fields(s, props) {
                Ok(xs) => Ok(NativeValue::Record(xs)),
                Err(x) => Err(x),
            },
            JsiValue::MapObject(es) => match decode_entries(s, es) {
                Ok(xs) => Ok(NativeValue::Entries(xs)),
                Err(x) => Err(x),
            },
            _ => Err(JsiDeserializeError::Unsupported),
        },
        Shape::Char => match v {
            JsiValue::String(t) => if t.as_str().unicode_len() > 0 {
                Ok(NativeValue::Char(t.as_str().get_char(0)))
            } else {
                Err(JsiDeserializeError::WrongKind(ValueKind::Character))
            },
            _ => Err(JsiDeserializeError::WrongKind(ValueKind::Character)),
        },
        Shape::Bytes => match v {
            JsiValue::ArrayBuffer(b) => Ok(NativeValue::Bytes(b.clone())),
            _ => Err(JsiDeserializeError::WrongKind(ValueKind::ArrayBuffer)),
        },
        Shape::Optional(inner) => if v.is_null() || v.is_undefined() {
            Ok(NativeValue::Absent)
        } else {
            match decode(inner, v) {
                Ok(x) => Ok(NativeValue::Present(Box::new(x))),
                Err(e) => Err(e),
            }
        },
        Shape::Unit => match v {
            JsiValue::Object(p) => if p.len() == 0 {
                Ok(NativeValue::Unit)
            } else {
                Err(JsiDeserializeError::WrongKind(ValueKind::EmptyObject))
            },
            _ => Err(JsiDeserializeError::WrongKind(ValueKind::EmptyObject)),
        },
        Shape::List(e) => match v {
            JsiValue::Array(items) => match decode_list(e, items) {
                Ok(xs) => Ok(NativeValue::List(xs)),
                Err(x) => Err(x),
            },
            JsiValue::SetObject(items) => match decode_list(e, items) {
                Ok(xs) => Ok(NativeValue::List(xs)),
                Err(x) => Err(x),
            },
            JsiValue::MapObject(es) => match decode_pairs(s, es) {
                Ok(xs) => Ok(NativeValue::List(xs)),
                Err(x) => Err(x),
            },
            _ => Err(JsiDeserializeError::WrongKind(ValueKind::Array)),
        },
        Shape::Tuple(shapes) => match v {
            JsiValue::Object(_) | JsiValue::Array(_) => match decode_tuple(shapes, v) {
                Ok(xs) => Ok(NativeValue::Tuple(xs)),
                Err(x) => Err(x),
            },
            _ => Err(JsiDeserializeError::WrongKind(ValueKind::Object)),
        },
        Shape::Entries(_, _) => match v {
            JsiValue::MapObject(es) => match decode_entries(s, es) {
                Ok(xs) => Ok(NativeValue::Entries(xs)),
                Err(x) => Err(x),
            },
            JsiValue::Object(props) => match decode_props(s, props) {
                Ok(xs) => Ok(NativeValue::Entries(xs)),
                Err(x) => Err(x),
            },
            _ => Err(JsiDeserializeError::WrongKind(ValueKind::Object)),
        },
        Shape::Record(fields) => match v {
            JsiValue::Object(props) => match decode_fields(fields, props) {
                Ok(xs) => Ok(NativeValue::Record(xs)),
                Err(x) => Err(x),
            },
            JsiValue::MapObject(es) => match string_props_of(es) {
                Some(props) => match decode_fields(fields, &props) {
                    Ok(xs) => Ok(NativeValue::Record(xs)),
                    Err(x) => Err(x),
                },
                None => Err(JsiDeserializeError::WrongKind(ValueKind::String)),
            },
            _ => Err(JsiDeserializeError::WrongKind(ValueKind::Object)),
        },
        Shape::Enum(vs) => decode_enum(vs, v),
    }
}

} // verus!
