use vstd::prelude::*;

verus! {

/// An interpreter value as mathematics: what a [`JsiValue`] denotes.
pub enum JsModel {
    Undefined,
    Null,
    Number(int),
    Bool(bool),
    Str(Seq<char>),
    Symbol(u64),
    Object(Seq<(Seq<char>, JsModel)>),
    Array(Seq<JsModel>),
    MapObject(Seq<(JsModel, JsModel)>),
    SetObject(Seq<JsModel>),
    ArrayBuffer(Seq<u8>),
    Function(u64),
}

/// A value of the interpreter, held by the owning thread.
///
/// Objects are property bags whose entries keep their order of insertion;
/// `MapObject` stands for an instance of the interpreter's `Map`, given by its
/// entries, and `SetObject` for an instance of its `Set`, given by its elements in
/// iteration order; symbols and functions are opaque handles.
pub enum JsiValue {
    Undefined,
    Null,
    Number(i64),
    Bool(bool),
    String(String),
    Symbol(u64),
    Object(Vec<(String, JsiValue)>),
    Array(Vec<JsiValue>),
    MapObject(Vec<(JsiValue, JsiValue)>),
    SetObject(Vec<JsiValue>),
    ArrayBuffer(Vec<u8>),
    Function(u64),
}

/// The kinds of value that a conversion can ask for.
#[derive(Clone, Copy, Debug, PartialEq, Eq, Structural)]
pub enum ValueKind {
    Boolean,
    Number,
    String,
    ArrayBuffer,
    Character,
    EmptyObject,
    Object,
    Array,
    Enum,
    Function,
}

impl ValueKind {
    /// The name under which the kind is shown in messages.
    pub fn name(&self) -> (r: &'static str)
        ensures
            r@ == self.spec_name(),
    {
        match self {
            ValueKind::Boolean => "boolean",
            ValueKind::Number => "number",
            ValueKind::String => "string",
            ValueKind::ArrayBuffer => "array buffer",
            ValueKind::Character => "character",
            ValueKind::EmptyObject => "empty object",
            ValueKind::Object => "object",
            ValueKind::Array => "array",
            ValueKind::Enum => "enum",
            ValueKind::Function => "function",
        }
    }

    pub open spec fn spec_name(&self) -> Seq<char> {
        match self {
            ValueKind::Boolean => "boolean"@,
            ValueKind::Number => "number"@,
            ValueKind::String => "string"@,
            ValueKind::ArrayBuffer => "array buffer"@,
            ValueKind::Character => "character"@,
            ValueKind::EmptyObject => "empty object"@,
            ValueKind::Object => "object"@,
            ValueKind::Array => "array"@,
            ValueKind::Enum => "enum"@,
            ValueKind::Function => "function"@,
        }
    }
}

pub open spec fn js_models(s: Seq<JsiValue>) -> Seq<JsModel>
    decreases s,
{
    Seq::new(s.len(), |i: int| if 0 <= i < s.len() { s[i].model() } else { JsModel::Undefined })
}

pub open spec fn prop_models(s: Seq<(String, JsiValue)>) -> Seq<(Seq<char>, JsModel)>
    decreases s,
{
    Seq::new(
        s.len(),
        |i: int|
            if 0 <= i < s.len() {
                (s[i].0@, s[i].1.model())
            } else {
                (Seq::empty(), JsModel::Undefined)
            },
    )
}

pub open spec fn entry_models(s: Seq<(JsiValue, JsiValue)>) -> Seq<(JsModel, JsModel)>
    decreases s,
{
    Seq::new(
        s.len(),
        |i: int|
            if 0 <= i < s.len() {
                (s[i].0.model(), s[i].1.model())
            } else {
                (JsModel::Undefined, JsModel::Undefined)
            },
    )
}

impl JsiValue {
    pub open spec fn model(&self) -> JsModel
        decreases self,
    {
        match self {
            JsiValue::Undefined => JsModel::Undefined,
            JsiValue::Null => JsModel::Null,
            JsiValue::Number(n) => JsModel::Number(*n as int),
            JsiValue::Bool(b) => JsModel::Bool(*b),
            JsiValue::String(s) => JsModel::Str(s@),
            JsiValue::Symbol(h) => JsModel::Symbol(*h),
            JsiValue::Object(props) => JsModel::Object(prop_models(props@)),
            JsiValue::Array(items) => JsModel::Array(js_models(items@)),
            JsiValue::MapObject(entries) => JsModel::MapObject(entry_models(entries@)),
            JsiValue::SetObject(items) => JsModel::SetObject(js_models(items@)),
            JsiValue::ArrayBuffer(b) => JsModel::ArrayBuffer(b@),
            JsiValue::Function(h) => JsModel::Function(*h),
        }
    }

    pub fn new_undefined() -> (r: Self)
        ensures
            r.model() == JsModel::Undefined,
    {
        JsiValue::Undefined
    }

    pub fn new_null() -> (r: Self)
        ensures
            r.model() == JsModel::Null,
    {
        JsiValue::Null
    }

    pub fn new_number(n: i64) -> (r: Self)
        ensures
            r.model() == JsModel::Number(n as int),
    {
        JsiValue::Number(n)
    }

    pub fn new_bool(b: bool) -> (r: Self)
        ensures
            r.model() == JsModel::Bool(b),
    {
        JsiValue::Bool(b)
    }

    pub fn new_string(s: &str) -> (r: Self)
        ensures
            r.model() == JsModel::Str(s@),
    {
        JsiValue::String(String::from_str(s))
    }

    pub fn is_null(&self) -> (r: bool)
        ensures
            r == (self.model() is Null),
    {
        matches!(self, JsiValue::Null)
    }

    pub fn is_undefined(&self) -> (r: bool)
        ensures
            r == (self.model() is Undefined),
    {
        matches!(self, JsiValue::Undefined)
    }

    pub fn is_number(&self) -> (r: bool)
        ensures
            r == (self.model() is Number),
    {
        matches!(self, JsiValue::Number(_))
    }

    pub fn is_bool(&self) -> (r: bool)
        ensures
            r == (self.model() is Bool),
    {
        matches!(self, JsiValue::Bool(_))
    }

    pub fn is_string(&self) -> (r: bool)
        ensures
            r == (self.model() is Str),
    {
        matches!(self, JsiValue::String(_))
    }

    pub fn is_symbol(&self) -> (r: bool)
        ensures
            r == (self.model() is Symbol),
    {
        matches!(self, JsiValue::Symbol(_))
    }

    pub fn is_object(&self) -> (r: bool)
        ensures
            r == (self.model() is Object || self.model() is Array || self.model() is MapObject
                || self.model() is SetObject || self.model() is ArrayBuffer || self.model() is Function),
    {
        matches!(
            self,
            JsiValue::Object(_) | JsiValue::Array(_) | JsiValue::MapObject(_) | JsiValue::SetObject(_) | JsiValue::ArrayBuffer(_)
                | JsiValue::Function(_)
        )
    }

    /// The truthiness of the value, as the interpreter's `if` judges it.
    pub fn is_truthy(&self) -> (r: bool)
        ensures
            r == truthy(self.model()),
    {
        match self {
            JsiValue::Undefined | JsiValue::Null => false,
            JsiValue::Number(n) => *n != 0,
            JsiValue::Bool(b) => *b,
            JsiValue::String(s) => s.as_str().unicode_len() > 0,
            _ => true,
        }
    }
}

pub open spec fn truthy(v: JsModel) -> bool {
    match v {
        JsModel::Undefined | JsModel::Null => false,
        JsModel::Number(n) => n != 0,
        JsModel::Bool(b) => b,
        JsModel::Str(s) => s.len() > 0,
        _ => true,
    }
}

/// `i` is the first position of `key` in `keys`.
pub open spec fn is_first_index(keys: Seq<Seq<char>>, key: Seq<char>, i: int) -> bool {
    &&& 0 <= i < keys.len()
    &&& keys[i] == key
    &&& forall|j: int| 0 <= j < i ==> keys[j] != key
}

/// The first position of `key` in `keys`, or -1.
pub open spec fn first_index(keys: Seq<Seq<char>>, key: Seq<char>) -> int {
    if exists|i: int| is_first_index(keys, key, i) {
        choose|i: int| is_first_index(keys, key, i)
    } else {
        -1
    }
}

pub proof fn lemma_first_index(keys: Seq<Seq<char>>, key: Seq<char>, i: int)
    requires
        is_first_index(keys, key, i),
    ensures
        first_index(keys, key) == i,
{
    let k = first_index(keys, key);
    assert(is_first_index(keys, key, k));
    if k < i {
        assert(keys[k] != key);
    } else if k > i {
        assert(keys[i] != key);
    }
}

pub proof fn lemma_first_index_absent(keys: Seq<Seq<char>>, key: Seq<char>)
    requires
        forall|j: int| 0 <= j < keys.len() ==> keys[j] != key,
    ensures
        first_index(keys, key) == -1,
{
}

/// The names of a sequence of named entries.
pub open spec fn key_seq<T>(s: Seq<(Seq<char>, T)>) -> Seq<Seq<char>> {
    Seq::new(s.len(), |i: int| s[i].0)
}

/// The names of a vector of named entries.
pub open spec fn string_keys<T>(s: Seq<(String, T)>) -> Seq<Seq<char>> {
    Seq::new(s.len(), |i: int| s[i].0@)
}

/// The value of the first property of `props` named `key`, if any.
pub open spec fn lookup(props: Seq<(Seq<char>, JsModel)>, key: Seq<char>) -> Option<JsModel> {
    let i = first_index(key_seq(props), key);
    if 0 <= i < props.len() {
        Some(props[i].1)
    } else {
        None
    }
}

/// The position of the first entry of `s` named `key`.
pub fn find_key<T>(s: &Vec<(String, T)>, key: &String) -> (r: Option<usize>)
    ensures
        r matches Some(i) ==> is_first_index(string_keys(s@), key@, i as int),
        r is None ==> forall|j: int| 0 <= j < s@.len() ==> string_keys(s@)[j] != key@,
{
    let mut i: usize = 0;
    while i < s.len()
        invariant
            i <= s@.len(),
            forall|j: int| 0 <= j < i ==> string_keys(s@)[j] != key@,
        decreases s@.len() - i,
    {
        if s[i].0.eq(key) {
            return Some(i);
        }
        i = i + 1;
    }
    None
}

} // verus!
