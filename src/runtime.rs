use vstd::prelude::*;

use crate::keys::{decimal, decimal_string};
use crate::value::{entry_models, js_models, prop_models, JsModel, JsiValue};

verus! {

/// Access to the interpreter runtime, valid on its owning thread only.
pub struct RuntimeHandle {
    id: u64,
}

/// Values compared with the runtime's help.
pub trait RuntimeEq: Sized {
    spec fn runtime_eq(&self, other: &Self) -> bool;

    fn eq(&self, other: &Self, rt: &mut RuntimeHandle) -> (r: bool)
        ensures
            r == self.runtime_eq(other),
            *final(rt) == *old(rt),
    ;
}

/// Values copied with the runtime's help.
pub trait RuntimeClone: Sized {
    spec fn is_copy_of(&self, original: &Self) -> bool;

    fn clone(&self, rt: &mut RuntimeHandle) -> (r: Self)
        ensures
            r.is_copy_of(self),
            *final(rt) == *old(rt),
    ;
}

/// Values shown as text with the runtime's help.
pub trait RuntimeDisplay: Sized {
    spec fn display(&self) -> Seq<char>;

    fn fmt(&self, rt: &mut RuntimeHandle) -> (r: String)
        ensures
            r@ == self.display(),
            *final(rt) == *old(rt),
    ;
}

impl RuntimeHandle {
    pub closed spec fn id(&self) -> u64 {
        self.id
    }

    /// A handle on the runtime `id`; the caller asserts that the runtime is
    /// alive and that this is its owning thread.
    pub fn new_unchecked(id: u64) -> (r: Self)
        ensures
            r.id() == id,
    {
        RuntimeHandle { id }
    }

    pub fn runtime_id(&self) -> (r: u64)
        ensures
            r == self.id(),
    {
        self.id
    }

    /// Compares two values of this runtime.
    pub fn eq<T: RuntimeEq>(&mut self, lhs: &T, rhs: &T) -> (r: bool)
        ensures
            r == lhs.runtime_eq(rhs),
            *final(self) == *old(self),
    {
        lhs.eq(rhs, self)
    }

    /// Copies a value of this runtime.
    pub fn clone<T: RuntimeClone>(&mut self, it: &T) -> (r: T)
        ensures
            r.is_copy_of(it),
            *final(self) == *old(self),
    {
        it.clone(self)
    }

    /// The text form of a value of this runtime.
    pub fn to_string<T: RuntimeDisplay>(&mut self, it: &T) -> (r: String)
        ensures
            r@ == it.display(),
            *final(self) == *old(self),
    {
        it.fmt(self)
    }
}

/// The decimal text of an integer, with a leading `-` when negative.
pub open spec fn number_text(n: int) -> Seq<char> {
    if n < 0 {
        seq!['-'] + decimal((-n) as nat)
    } else {
        decimal(n as nat)
    }
}

/// The text the interpreter's `String(v)` gives, with arrays joined by commas
/// and other objects shown by their kind.
pub open spec fn text_of(v: JsModel) -> Seq<char>
    decreases v,
{
    match v {
        JsModel::Undefined => "undefined"@,
        JsModel::Null => "null"@,
        JsModel::Number(n) => number_text(n),
        JsModel::Bool(b) => if b {
            "true"@
        } else {
            "false"@
        },
        JsModel::Str(s) => s,
        JsModel::Symbol(_) => "Symbol()"@,
        JsModel::Array(items) => join_text(items),
        JsModel::Object(_) => "[object Object]"@,
        JsModel::MapObject(_) => "[object Map]"@,
        JsModel::SetObject(_) => "[object Set]"@,
        JsModel::ArrayBuffer(_) => "[object ArrayBuffer]"@,
        JsModel::Function(_) => "[object Function]"@,
    }
}

/// The texts of `items` joined by commas.
pub open spec fn join_text(items: Seq<JsModel>) -> Seq<char>
    decreases items,
{
    if items.len() == 0 {
        Seq::empty()
    } else {
        let last = items[items.len() - 1];
        let piece = if last is Null || last is Undefined {
            Seq::empty()
        } else {
            text_of(last)
        };
        if items.len() == 1 {
            piece
        } else {
            join_text(items.subrange(0, items.len() - 1)) + seq![','] + piece
        }
    }
}

fn equal_values(a: &JsiValue, b: &JsiValue) -> (r: bool)
    ensures
        r == (a.model() == b.model()),
    decreases a,
{
    match (a, b) {
        (JsiValue::Undefined, JsiValue::Undefined) => true,
        (JsiValue::Null, JsiValue::Null) => true,
        (JsiValue::Number(x), JsiValue::Number(y)) => *x == *y,
        (JsiValue::Bool(x), JsiValue::Bool(y)) => *x == *y,
        (JsiValue::String(x), JsiValue::String(y)) => x.eq(y),
        (JsiValue::Symbol(x), JsiValue::Symbol(y)) => *x == *y,
        (JsiValue::Function(x), JsiValue::Function(y)) => *x == *y,
        (JsiValue::ArrayBuffer(x), JsiValue::ArrayBuffer(y)) => equal_bytes(x, y),
        (JsiValue::Array(x), JsiValue::Array(y)) => {
            let r = equal_items(x, y);
            proof {
                if r {
                    assert(js_models(x@) =~= js_models(y@));
                }
            }
            r
        },
        (JsiValue::SetObject(x), JsiValue::SetObject(y)) => {
            let r = equal_items(x, y);
            proof {
                if r {
                    assert(js_models(x@) =~= js_models(y@));
                }
            }
            r
        },
        (JsiValue::Object(x), JsiValue::Object(y)) => {
            let r = equal_props(x, y);
            proof {
                if r {
                    assert(prop_models(x@) =~= prop_models(y@));
                }
            }
            r
        },
        (JsiValue::MapObject(x), JsiValue::MapObject(y)) => {
            let r = equal_entries(x, y);
            proof {
                if r {
                    assert(entry_models(x@) =~= entry_models(y@));
                }
            }
            r
        },
        _ => false,
    }
}

fn equal_bytes(x: &Vec<u8>, y: &Vec<u8>) -> (r: bool)
    ensures
        r == (x@ == y@),
{
    if x.len() != y.len() {
        return false;
    }
    let mut i: usize = 0;
    while i < x.len()
        invariant
            i <= x@.len(),
            x@.len() == y@.len(),
            forall|j: int| 0 <= j < i ==> x@[j] == y@[j],
        decreases x@.len() - i,
    {
        if x[i] != y[i] {
            return false;
        }
        i = i + 1;
    }
    assert(x@ =~= y@);
    true
}

#[verifier::loop_isolation(false)]
fn equal_items(x: &Vec<JsiValue>, y: &Vec<JsiValue>) -> (r: bool)
    ensures
        r == (js_models(x@) == js_models(y@)),
    decreases x,
{
    if x.len() != y.len() {
        assert(js_models(x@).len() != js_models(y@).len());
        return false;
    }
    let mut i: usize = 0;
    while i < x.len()
        invariant
            i <= x@.len(),
            x@.len() == y@.len(),
            forall|j: int| 0 <= j < i ==> js_models(x@)[j] == js_models(y@)[j],
        decreases x@.len() - i,
    {
        proof {
            vstd::std_specs::vec::axiom_vec_index_decreases(*x, i as int);
        }
        if !equal_values(&x[i], &y[i]) {
            assert(js_models(x@)[i as int] != js_models(y@)[i as int]);
            return false;
        }
        i = i + 1;
    }
    assert(js_models(x@) =~= js_models(y@));
    true
}

#[verifier::loop_isolation(false)]
fn equal_props(x: &Vec<(String, JsiValue)>, y: &Vec<(String, JsiValue)>) -> (r: bool)
    ensures
        r == (prop_models(x@) == prop_models(y@)),
    decreases x,
{
    if x.len() != y.len() {
        assert(prop_models(x@).len() != prop_models(y@).len());
        return false;
    }
    let mut i: usize = 0;
    while i < x.len()
        invariant
            i <= x@.len(),
            x@.len() == y@.len(),
            forall|j: int| 0 <= j < i ==> prop_models(x@)[j] == prop_models(y@)[j],
        decreases x@.len() - i,
    {
        proof {
            vstd::std_specs::vec::axiom_vec_index_decreases(*x, i as int);
        }
        let px = &x[i];
        let py = &y[i];
        if !px.0.eq(&py.0) || !equal_values(&px.1, &py.1) {
            assert(prop_models(x@)[i as int] != prop_models(y@)[i as int]);
            return false;
        }
        i = i + 1;
    }
    assert(prop_models(x@) =~= prop_models(y@));
    true
}

#[verifier::loop_isolation(false)]
fn equal_entries(x: &Vec<(JsiValue, JsiValue)>, y: &Vec<(JsiValue, JsiValue)>) -> (r: bool)
    ensures
        r == (entry_models(x@) == entry_models(y@)),
    decreases x,
{
    if x.len() != y.len() {
        assert(entry_models(x@).len() != entry_models(y@).len());
        return false;
    }
    let mut i: usize = 0;
    while i < x.len()
        invariant
            i <= x@.len(),
            x@.len() == y@.len(),
            forall|j: int| 0 <= j < i ==> entry_models(x@)[j] == entry_models(y@)[j],
        decreases x@.len() - i,
    {
        proof {
            vstd::std_specs::vec::axiom_vec_index_decreases(*x, i as int);
        }
        let px = &x[i];
        let py = &y[i];
        if !equal_values(&px.0, &py.0) || !equal_values(&px.1, &py.1) {
            assert(entry_models(x@)[i as int] != entry_models(y@)[i as int]);
            return false;
        }
        i = i + 1;
    }
    assert(entry_models(x@) =~= entry_models(y@));
    true
}

#[verifier::loop_isolation(false)]
fn copy_items(items: &Vec<JsiValue>) -> (r: Vec<JsiValue>)
    ensures
        js_models(r@) == js_models(items@),
    decreases items,
{
    let mut out: Vec<JsiValue> = Vec::new();
    let mut i: usize = 0;
    while i < items.len()
        invariant
            i <= items@.len(),
            out@.len() == i,
            forall|j: int| 0 <= j < i ==> #[trigger] out@[j].model() == items@[j].model(),
        decreases items@.len() - i,
    {
        proof {
            vstd::std_specs::vec::axiom_vec_index_decreases(*items, i as int);
        }
        out.push(copy_value(&items[i]));
        i = i + 1;
    }
    assert forall|j: int| 0 <= j < out@.len() implies js_models(out@)[j] == js_models(items@)[j] by {
        assert(out@[j].model() == items@[j].model());
    }
    assert(js_models(out@) =~= js_models(items@));
    out
}

/// A copy of `v` that denotes the same value.
#[verifier::loop_isolation(false)]
pub(crate) fn copy_value(v: &JsiValue) -> (r: JsiValue)
    ensures
        r.model() == v.model(),
    decreases v,
{
    match v {
        JsiValue::Undefined => JsiValue::Undefined,
        JsiValue::Null => JsiValue::Null,
        JsiValue::Number(n) => JsiValue::Number(*n),
        JsiValue::Bool(b) => JsiValue::Bool(*b),
        JsiValue::String(s) => JsiValue::String(s.clone()),
        JsiValue::Symbol(h) => JsiValue::Symbol(*h),
        JsiValue::Function(h) => JsiValue::Function(*h),
        JsiValue::ArrayBuffer(b) => {
            let mut out: Vec<u8> = Vec::new();
            let mut i: usize = 0;
            while i < b.len()
                invariant
                    i <= b@.len(),
                    out@ == b@.subrange(0, i as int),
                decreases b@.len() - i,
            {
                out.push(b[i]);
                i = i + 1;
                assert(out@ =~= b@.subrange(0, i as int));
            }
            assert(out@ =~= b@);
            JsiValue::ArrayBuffer(out)
        },
        JsiValue::Array(items) => JsiValue::Array(copy_items(items)),
        JsiValue::SetObject(items) => JsiValue::SetObject(copy_items(items)),
        JsiValue::Object(props) => {
            let mut out: Vec<(String, JsiValue)> = Vec::new();
            let mut i: usize = 0;
            while i < props.len()
                invariant
                    i <= props@.len(),
                    out@.len() == i,
                    forall|j: int|
                        0 <= j < i ==> (#[trigger] out@[j]).1.model() == props@[j].1.model() && out@[j].0@
                            == props@[j].0@,
                decreases props@.len() - i,
            {
                proof {
                    vstd::std_specs::vec::axiom_vec_index_decreases(*props, i as int);
                    assert(decreases_to!(*v => *props));
                }
                let p = &props[i];
                out.push((p.0.clone(), copy_value(&p.1)));
                i = i + 1;
            }
            assert(prop_models(out@) =~= prop_models(props@));
            JsiValue::Object(out)
        },
        JsiValue::MapObject(entries) => {
            let mut out: Vec<(JsiValue, JsiValue)> = Vec::new();
            let mut i: usize = 0;
            while i < entries.len()
                invariant
                    i <= entries@.len(),
                    out@.len() == i,
                    forall|j: int|
                        0 <= j < i ==> (#[trigger] out@[j]).1.model() == entries@[j].1.model()
                            && out@[j].0.model() == entries@[j].0.model(),
                decreases entries@.len() - i,
            {
                proof {
                    vstd::std_specs::vec::axiom_vec_index_decreases(*entries, i as int);
                    assert(decreases_to!(*v => *entries));
                }
                let e = &entries[i];
                out.push((copy_value(&e.0), copy_value(&e.1)));
                i = i + 1;
            }
            assert(entry_models(out@) =~= entry_models(entries@));
            JsiValue::MapObject(out)
        },
    }
}

fn number_string(n: i64) -> (r: String)
    ensures
        r@ == number_text(n as int),
{
    if n < 0 {
        let magnitude: u64 = (0i128 - n as i128) as u64;
        proof {
            reveal_strlit("-");
        }
        String::from_str("-").concat(decimal_string(magnitude).as_str())
    } else {
        decimal_string(n as u64)
    }
}

#[verifier::loop_isolation(false)]
fn text_string(v: &JsiValue) -> (r: String)
    ensures
        r@ == text_of(v.model()),
    decreases v,
{
    proof {
        reveal_strlit("undefined");
        reveal_strlit("null");
        reveal_strlit("true");
        reveal_strlit("false");
        reveal_strlit("Symbol()");
        reveal_strlit("[object Object]");
        reveal_strlit("[object Map]");
        reveal_strlit("[object Set]");
        reveal_strlit("[object ArrayBuffer]");
        reveal_strlit("[object Function]");
        reveal_strlit(",");
    }
    match v {
        JsiValue::Undefined => String::from_str("undefined"),
        JsiValue::Null => String::from_str("null"),
        JsiValue::Number(n) => number_string(*n),
        JsiValue::Bool(b) => if *b {
            String::from_str("true")
        } else {
            String::from_str("false")
        },
        JsiValue::String(s) => s.clone(),
        JsiValue::Symbol(_) => String::from_str("Symbol()"),
        JsiValue::Object(_) => String::from_str("[object Object]"),
        JsiValue::MapObject(_) => String::from_str("[object Map]"),
        JsiValue::SetObject(_) => String::from_str("[object Set]"),
        JsiValue::ArrayBuffer(_) => String::from_str("[object ArrayBuffer]"),
        JsiValue::Function(_) => String::from_str("[object Function]"),
        JsiValue::Array(items) => {
            let ghost all = js_models(items@);
            let mut out = String::new();
            let mut i: usize = 0;
            while i < items.len()
                invariant
                    i <= items@.len(),
                    all == js_models(items@),
                    out@ == join_text(all.subrange(0, i as int)),
                decreases items@.len() - i,
            {
                proof {
                    vstd::std_specs::vec::axiom_vec_index_decreases(*items, i as int);
                    assert(decreases_to!(*v => *items));
                    let sub = all.subrange(0, i + 1);
                    assert(sub.subrange(0, i as int) =~= all.subrange(0, i as int));
                    assert(sub[i as int] == items@[i as int].model());
                    reveal_strlit(",");
                }
                let item = &items[i];
                let piece = if item.is_null() || item.is_undefined() {
                    String::new()
                } else {
                    text_string(item)
                };
                if i == 0 {
                    out = piece;
                } else {
                    out = out.concat(",").concat(piece.as_str());
                }
                i = i + 1;
            }
            assert(all.subrange(0, items@.len() as int) =~= all);
            out
        },
    }
}

impl RuntimeEq for JsiValue {
    open spec fn runtime_eq(&self, other: &Self) -> bool {
        self.model() == other.model()
    }

    fn eq(&self, other: &Self, rt: &mut RuntimeHandle) -> (r: bool) {
        equal_values(self, other)
    }
}

impl RuntimeClone for JsiValue {
    open spec fn is_copy_of(&self, original: &Self) -> bool {
        self.model() == original.model()
    }

    fn clone(&self, rt: &mut RuntimeHandle) -> (r: Self) {
        copy_value(self)
    }
}

impl RuntimeDisplay for JsiValue {
    open spec fn display(&self) -> Seq<char> {
        text_of(self.model())
    }

    fn fmt(&self, rt: &mut RuntimeHandle) -> (r: String) {
        text_string(self)
    }
}

impl<T: RuntimeClone> RuntimeClone for Vec<T> {
    open spec fn is_copy_of(&self, original: &Self) -> bool {
        self@.len() == original@.len() && forall|i: int|
            0 <= i < self@.len() ==> (#[trigger] self@[i]).is_copy_of(&original@[i])
    }

    fn clone(&self, rt: &mut RuntimeHandle) -> (r: Self) {
        let mut out: Vec<T> = Vec::new();
        let mut i: usize = 0;
        while i < self.len()
            invariant
                i <= self@.len(),
                out@.len() == i,
                *rt == *old(rt),
                forall|j: int| 0 <= j < i ==> (#[trigger] out@[j]).is_copy_of(&self@[j]),
            decreases self@.len() - i,
        {
            out.push(self[i].clone(rt));
            i = i + 1;
        }
        out
    }
}

} // verus!
