use vstd::prelude::*;

use crate::keys::{decimal, decimal_string};
use crate::native::{
    native_entry_models, native_field_models, native_models, NativeModel, NativeValue,
};
use crate::value::{entry_models, js_models, prop_models, JsModel, JsiValue};

verus! {

/// The interpreter value that native data becomes.
pub open spec fn enc(v: NativeModel) -> JsModel
    decreases v,
{
    match v {
        NativeModel::Bool(b) => JsModel::Bool(b),
        NativeModel::Int(n) => JsModel::Number(n),
        NativeModel::Str(s) => JsModel::Str(s),
        NativeModel::Bytes(b) => JsModel::ArrayBuffer(b),
        NativeModel::Char(c) => JsModel::Str(seq![c]),
        NativeModel::Absent => JsModel::Null,
        NativeModel::Present(x) => enc(*x),
        NativeModel::Unit => JsModel::Object(Seq::empty()),
        NativeModel::List(xs) => JsModel::Array(enc_all(xs)),
        NativeModel::Stream(xs) => JsModel::Array(enc_all(xs)),
        NativeModel::Tuple(xs) => JsModel::Object(enc_positional(xs)),
        NativeModel::Entries(es) => JsModel::MapObject(enc_entries(es)),
        NativeModel::Record(fs) => JsModel::Object(enc_fields(fs)),
        NativeModel::UnitVariant(name) => JsModel::Str(name),
        NativeModel::Variant(name, p) => JsModel::Object(seq![(name, enc(*p))]),
    }
}

pub open spec fn enc_all(xs: Seq<NativeModel>) -> Seq<JsModel>
    decreases xs,
{
    Seq::new(xs.len(), |i: int| if 0 <= i < xs.len() { enc(xs[i]) } else { JsModel::Undefined })
}

/// A tuple's elements as properties keyed `"0"`, `"1"`, ...
pub open spec fn enc_positional(xs: Seq<NativeModel>) -> Seq<(Seq<char>, JsModel)>
    decreases xs,
{
    Seq::new(
        xs.len(),
        |i: int|
            if 0 <= i < xs.len() {
                (decimal(i as nat), enc(xs[i]))
            } else {
                (Seq::empty(), JsModel::Undefined)
            },
    )
}

pub open spec fn enc_entries(es: Seq<(NativeModel, NativeModel)>) -> Seq<(JsModel, JsModel)>
    decreases es,
{
    Seq::new(
        es.len(),
        |i: int|
            if 0 <= i < es.len() {
                (enc(es[i].0), enc(es[i].1))
            } else {
                (JsModel::Undefined, JsModel::Undefined)
            },
    )
}

pub open spec fn enc_fields(fs: Seq<(Seq<char>, NativeModel)>) -> Seq<(Seq<char>, JsModel)>
    decreases fs,
{
    Seq::new(
        fs.len(),
        |i: int|
            if 0 <= i < fs.len() {
                (fs[i].0, enc(fs[i].1))
            } else {
                (Seq::empty(), JsModel::Undefined)
            },
    )
}

/// Native data can be encoded when it holds no sequence of unknown length.
pub open spec fn encodable(v: NativeModel) -> bool
    decreases v,
{
    match v {
        NativeModel::Present(x) => encodable(*x),
        NativeModel::List(xs) => forall|i: int| 0 <= i < xs.len() ==> encodable(#[trigger] xs[i]),
        NativeModel::Stream(_) => false,
        NativeModel::Tuple(xs) => forall|i: int| 0 <= i < xs.len() ==> encodable(#[trigger] xs[i]),
        NativeModel::Entries(es) => forall|i: int|
            0 <= i < es.len() ==> encodable(#[trigger] es[i].0) && encodable(es[i].1),
        NativeModel::Record(fs) => forall|i: int| 0 <= i < fs.len() ==> encodable(#[trigger] fs[i].1),
        NativeModel::Variant(_, p) => encodable(*p),
        _ => true,
    }
}

/// Relies on std's `ToString` for `char`: the string of exactly that one character.
#[verifier::external_body]
fn char_string(c: char) -> (r: String)
    ensures
        r@ == seq![c],
{
    c.to_string()
}

/// Why native data could not be encoded.
pub enum JsiSerializeError {
    /// A message from the native side's own serialization logic.
    Custom(String),
    /// A sequence whose length was not known before its elements.
    UnsizedSequence,
}

/// Encodes native data into interpreter values.
pub struct JsiSerializer {
    runtime: u64,
}

impl JsiSerializer {
    pub closed spec fn runtime_id(&self) -> u64 {
        self.runtime
    }

    /// A serializer for the runtime that `rt` gives access to.
    pub fn new(rt: &mut crate::runtime::RuntimeHandle) -> (r: Self)
        ensures
            r.runtime_id() == old(rt).id(),
            *final(rt) == *old(rt),
    {
        JsiSerializer { runtime: rt.runtime_id() }
    }

    /// Encodes `v`: `Ok` exactly when `v` holds no sequence of unknown length.
    pub fn serialize(&self, v: &NativeValue) -> (r: Result<JsiValue, JsiSerializeError>)
        ensures
            r is Ok <==> encodable(v.model()),
            r is Ok ==> r->Ok_0.model() == enc(v.model()),
            r is Err ==> r->Err_0 is UnsizedSequence,
    {
        encode(v)
    }
}

#[verifier::loop_isolation(false)]
fn encode_all(xs: &Vec<NativeValue>) -> (r: Result<Vec<JsiValue>, JsiSerializeError>)
    ensures
        r is Ok <==> (forall|i: int|
            0 <= i < xs@.len() ==> encodable(#[trigger] native_models(xs@)[i])),
        r is Ok ==> js_models(r->Ok_0@) == enc_all(native_models(xs@)),
        r is Err ==> r->Err_0 is UnsizedSequence,
    decreases xs,
{
    let mut out: Vec<JsiValue> = Vec::new();
    let mut i: usize = 0;
    while i < xs.len()
        invariant
            i <= xs@.len(),
            out@.len() == i,
            forall|j: int| 0 <= j < i ==> encodable(#[trigger] native_models(xs@)[j]),
            forall|j: int| 0 <= j < i ==> #[trigger] out@[j].model() == enc(native_models(xs@)[j]),
        decreases xs@.len() - i,
    {
        proof {
            vstd::std_specs::vec::axiom_vec_index_decreases(*xs, i as int);
            assert(native_models(xs@)[i as int] == xs@[i as int].model());
        }
        match encode(&xs[i]) {
            Ok(e) => out.push(e),
            Err(e) => return Err(e),
        }
        i = i + 1;
    }
    proof {
        assert forall|j: int| 0 <= j < out@.len() implies js_models(out@)[j] == enc_all(native_models(xs@))[j] by {
            assert(out@[j].model() == enc(native_models(xs@)[j]));
        }
        assert(js_models(out@) =~= enc_all(native_models(xs@)));
    }
    Ok(out)
}

#[verifier::loop_isolation(false)]
fn encode_positional(xs: &Vec<NativeValue>) -> (r: Result<Vec<(String, JsiValue)>, JsiSerializeError>)
    ensures
        r is Ok <==> (forall|i: int|
            0 <= i < xs@.len() ==> encodable(#[trigger] native_models(xs@)[i])),
        r is Ok ==> prop_models(r->Ok_0@) == enc_positional(native_models(xs@)),
        r is Err ==> r->Err_0 is UnsizedSequence,
    decreases xs,
{
    let mut out: Vec<(String, JsiValue)> = Vec::new();
    let mut i: usize = 0;
    while i < xs.len()
        invariant
            i <= xs@.len(),
            out@.len() == i,
            forall|j: int| 0 <= j < i ==> encodable(#[trigger] native_models(xs@)[j]),
            forall|j: int|
                0 <= j < i ==> (#[trigger] out@[j]).1.model() == enc(native_models(xs@)[j])
                    && out@[j].0@ == decimal(j as nat),
        decreases xs@.len() - i,
    {
        proof {
            vstd::std_specs::vec::axiom_vec_index_decreases(*xs, i as int);
            assert(native_models(xs@)[i as int] == xs@[i as int].model());
        }
        match encode(&xs[i]) {
            Ok(e) => {
                let key = decimal_string(i as u64);
                out.push((key, e));
            },
            Err(e) => return Err(e),
        }
        i = i + 1;
    }
    proof {
        assert forall|j: int| 0 <= j < out@.len() implies prop_models(out@)[j] == enc_positional(native_models(xs@))[j] by {
            assert(out@[j].1.model() == enc(native_models(xs@)[j]));
        }
        assert(prop_models(out@) =~= enc_positional(native_models(xs@)));
    }
    Ok(out)
}

#[verifier::loop_isolation(false)]
fn encode_entries(es: &Vec<(NativeValue, NativeValue)>) -> (r: Result<
    Vec<(JsiValue, JsiValue)>,
    JsiSerializeError,
>)
    ensures
        r is Ok <==> (forall|i: int|
            0 <= i < es@.len() ==> encodable(#[trigger] native_entry_models(es@)[i].0)
                && encodable(native_entry_models(es@)[i].1)),
        r is Ok ==> entry_models(r->Ok_0@) == enc_entries(native_entry_models(es@)),
        r is Err ==> r->Err_0 is UnsizedSequence,
    decreases es,
{
    let mut out: Vec<(JsiValue, JsiValue)> = Vec::new();
    let mut i: usize = 0;
    while i < es.len()
        invariant
            i <= es@.len(),
            out@.len() == i,
            forall|j: int|
                0 <= j < i ==> encodable(#[trigger] native_entry_models(es@)[j].0) && encodable(
                    native_entry_models(es@)[j].1,
                ),
            forall|j: int|
                0 <= j < i ==> (#[trigger] out@[j]).0.model() == enc(native_entry_models(es@)[j].0)
                    && out@[j].1.model() == enc(native_entry_models(es@)[j].1),
        decreases es@.len() - i,
    {
        proof {
            vstd::std_specs::vec::axiom_vec_index_decreases(*es, i as int);
            assert(native_entry_models(es@)[i as int] == (es@[i as int].0.model(), es@[i as int].1.model()));
        }
        let entry = &es[i];
        let k = match encode(&entry.0) {
            Ok(k) => k,
            Err(e) => {
                assert(!encodable(native_entry_models(es@)[i as int].0));
                return Err(e);
            },
        };
        let v = match encode(&entry.1) {
            Ok(v) => v,
            Err(e) => {
                assert(!encodable(native_entry_models(es@)[i as int].1));
                return Err(e);
            },
        };
        out.push((k, v));
        i = i + 1;
    }
    proof {
        assert forall|j: int| 0 <= j < out@.len() implies entry_models(out@)[j] == enc_entries(native_entry_models(es@))[j] by {
            assert(out@[j].0.model() == enc(native_entry_models(es@)[j].0));
        }
        assert(entry_models(out@) =~= enc_entries(native_entry_models(es@)));
    }
    Ok(out)
}

#[verifier::loop_isolation(false)]
fn encode_fields(fs: &Vec<(String, NativeValue)>) -> (r: Result<Vec<(String, JsiValue)>, JsiSerializeError>)
    ensures
        r is Ok <==> (forall|i: int|
            0 <= i < fs@.len() ==> encodable(#[trigger] native_field_models(fs@)[i].1)),
        r is Ok ==> prop_models(r->Ok_0@) == enc_fields(native_field_models(fs@)),
        r is Err ==> r->Err_0 is UnsizedSequence,
    decreases fs,
{
    let mut out: Vec<(String, JsiValue)> = Vec::new();
    let mut i: usize = 0;
    while i < fs.len()
        invariant
            i <= fs@.len(),
            out@.len() == i,
            forall|j: int| 0 <= j < i ==> encodable(#[trigger] native_field_models(fs@)[j].1),
            forall|j: int|
                0 <= j < i ==> (#[trigger] out@[j]).1.model() == enc(native_field_models(fs@)[j].1)
                    && out@[j].0@ == fs@[j].0@,
        decreases fs@.len() - i,
    {
        proof {
            vstd::std_specs::vec::axiom_vec_index_decreases(*fs, i as int);
            assert(native_field_models(fs@)[i as int] == (fs@[i as int].0@, fs@[i as int].1.model()));
        }
        let field = &fs[i];
        match encode(&field.1) {
            Ok(e) => out.push((field.0.clone(), e)),
            Err(e) => {
                assert(!encodable(native_field_models(fs@)[i as int].1));
                return Err(e);
            },
        }
        i = i + 1;
    }
    proof {
        assert forall|j: int| 0 <= j < out@.len() implies prop_models(out@)[j] == enc_fields(native_field_models(fs@))[j] by {
            assert(out@[j].1.model() == enc(native_field_models(fs@)[j].1));
        }
        assert(prop_models(out@) =~= enc_fields(native_field_models(fs@)));
    }
    Ok(out)
}

/// Encodes `v` into an interpreter value.
pub fn encode(v: &NativeValue) -> (r: Result<JsiValue, JsiSerializeError>)
    ensures
        r is Ok <==> encodable(v.model()),
        r is Ok ==> r->Ok_0.model() == enc(v.model()),
        r is Err ==> r->Err_0 is UnsizedSequence,
    decreases v,
{
    match v {
        NativeValue::Bool(b) => Ok(JsiValue::Bool(*b)),
        NativeValue::Int(n) => Ok(JsiValue::Number(*n)),
        NativeValue::Str(s) => Ok(JsiValue::String(s.clone())),
        NativeValue::Bytes(b) => Ok(JsiValue::ArrayBuffer(b.clone())),
        NativeValue::Char(c) => Ok(JsiValue::String(char_string(*c))),
        NativeValue::Absent => Ok(JsiValue::Null),
        NativeValue::Present(x) => encode(x),
        NativeValue::Unit => {
            let r = JsiValue::Object(Vec::new());
            assert(prop_models(Seq::<(String, JsiValue)>::empty()) =~= Seq::empty());
            Ok(r)
        },
        NativeValue::List(xs) => match encode_all(xs) {
            Ok(items) => Ok(JsiValue::Array(items)),
            Err(e) => Err(e),
        },
        NativeValue::Stream(_) => Err(JsiSerializeError::UnsizedSequence),
        NativeValue::Tuple(xs) => match encode_positional(xs) {
            Ok(props) => Ok(JsiValue::Object(props)),
            Err(e) => Err(e),
        },
        NativeValue::Entries(es) => match encode_entries(es) {
            Ok(entries) => Ok(JsiValue::MapObject(entries)),
            Err(e) => Err(e),
        },
        NativeValue::Record(fs) => match encode_fields(fs) {
            Ok(props) => Ok(JsiValue::Object(props)),
            Err(e) => Err(e),
        },
        NativeValue::UnitVariant(name) => Ok(JsiValue::String(name.clone())),
        NativeValue::Variant(name, p) => match encode(p) {
            Ok(e) => {
                let mut props: Vec<(String, JsiValue)> = Vec::new();
                props.push((name.clone(), e));
                let r = JsiValue::Object(props);
                proof {
                    assert(prop_models(props@) =~= seq![(name@, enc(p.model()))]);
                }
                Ok(r)
            },
            Err(e) => Err(e),
        },
    }
}

} // verus!
