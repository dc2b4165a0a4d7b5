use vstd::prelude::*;

use crate::de::{dec, decode, DecodeErrorModel, JsiDeserializeError};
use crate::native::{native_models, shape_field_models, NativeModel, NativeValue, Shape, ShapeModel};
use crate::names::{camel_case_of, getter_name, method_name, setter_name, strip_prefix};
use crate::promise::{error_model, PromiseBridge, PromiseState, Settlement};
use crate::value::{js_models, JsModel, JsiValue};

verus! {

/// How a member of a host object is reached from the interpreter.
pub enum MemberKind {
    /// Read as a property.
    Getter,
    /// Written as a property; the value is decoded under `shape`.
    Setter { shape: Shape },
    /// Called as a function with parameters decoded in order; an
    /// asynchronous method returns a promise.
    Method { params: Vec<(String, Shape)>, is_async: bool },
}

/// One entry of a host object's registration table: the interpreter-visible
/// name, how it is reached, and the native handler it leads to.
pub struct Member {
    pub name: String,
    pub kind: MemberKind,
    pub slot: u64,
}

pub open spec fn readable(m: Member) -> bool {
    !(m.kind is Setter)
}

pub open spec fn writable(m: Member) -> bool {
    m.kind is Setter
}

/// The first member of `ms` named `name` that satisfies `readable` (or
/// `writable` when `write` holds), or -1.
pub open spec fn first_member(ms: Seq<Member>, name: Seq<char>, write: bool) -> int
    decreases ms.len(),
{
    if ms.len() == 0 {
        -1
    } else {
        let r = first_member(ms.drop_last(), name, write);
        if r >= 0 {
            r
        } else if ms.last().name@ == name && (if write {
            writable(ms.last())
        } else {
            readable(ms.last())
        }) {
            ms.len() - 1
        } else {
            -1
        }
    }
}

/// What reading a property of a host object leads to.
#[derive(Debug, PartialEq, Eq)]
pub enum PropertyTarget {
    /// No such member: the property reads as `undefined`.
    Undefined,
    /// Call the getter handler `slot` and return what it gives.
    Getter(u64),
    /// Return a function that calls the method at this position of the table.
    Method(usize),
    /// The delegate at this position resolves the property.
    Delegate(usize, Box<PropertyTarget>),
}

/// Where writing a property of a host object leads.
#[derive(Debug, PartialEq, Eq)]
pub enum SetterTarget {
    /// Call the setter handler `slot` of this table.
    Own(u64),
    /// The delegate at this position writes the property.
    Delegate(usize, Box<SetterTarget>),
}

/// What a table's own members make of reading `name`.
pub open spec fn own_target(ms: Seq<Member>, name: Seq<char>) -> PropertyTarget {
    let i = first_member(ms, name, false);
    if 0 <= i < ms.len() {
        if ms[i].kind is Getter {
            PropertyTarget::Getter(ms[i].slot)
        } else {
            PropertyTarget::Method(i as usize)
        }
    } else {
        PropertyTarget::Undefined
    }
}

/// The setter slot, and the shape of the value it takes, that a table's own
/// members give `name`.
pub open spec fn own_setter(ms: Seq<Member>, name: Seq<char>) -> Option<(u64, ShapeModel)> {
    let i = first_member(ms, name, true);
    if 0 <= i < ms.len() {
        match ms[i].kind {
            MemberKind::Setter { shape } => Some((ms[i].slot, shape.model())),
            _ => None,
        }
    } else {
        None
    }
}

/// The names of `ms`, in order.
pub open spec fn member_names(ms: Seq<Member>) -> Seq<Seq<char>> {
    Seq::new(ms.len(), |i: int| ms[i].name@)
}

/// The contents of a vector of strings.
pub open spec fn string_views(v: Seq<String>) -> Seq<Seq<char>> {
    Seq::new(v.len(), |i: int| v[i]@)
}

/// Why a call through a host object failed.
pub enum CallError {
    /// The receiver does not wrap this host object's native type.
    NotBound,
    /// The position does not hold a method of the kind asked for.
    NotAMethod,
    /// Fewer arguments than parameters; the first missing one is named.
    MissingArgument { index: usize, name: String },
    /// An argument that could not be decoded as its parameter's shape.
    BadArgument { index: usize, name: String, cause: JsiDeserializeError },
    /// A property that no setter writes.
    CannotSet(String),
    /// A value that does not decode under the setter's shape.
    InvalidValue { name: String, cause: JsiDeserializeError },
}

/// Why decoding a call's arguments failed, as mathematics.
pub enum ArgErrorModel {
    Missing(nat, Seq<char>),
    Bad(nat, Seq<char>, DecodeErrorModel),
}

/// The arguments decoded in order under the parameters `params`, or the first failure.
pub open spec fn dec_args(params: Seq<(Seq<char>, ShapeModel)>, args: Seq<JsModel>) -> Result<
    Seq<NativeModel>,
    ArgErrorModel,
>
    decreases params.len(),
{
    if params.len() == 0 {
        Ok(Seq::empty())
    } else {
        let n = (params.len() - 1) as nat;
        match dec_args(params.subrange(0, n as int), args) {
            Err(e) => Err(e),
            Ok(xs) => if n < args.len() {
                match dec(params[n as int].1, args[n as int]) {
                    Ok(x) => Ok(xs.push(x)),
                    Err(e) => Err(ArgErrorModel::Bad(n, params[n as int].0, e)),
                }
            } else {
                Err(ArgErrorModel::Missing(n, params[n as int].0))
            },
        }
    }
}

pub open spec fn args_result(r: Result<Vec<NativeValue>, CallError>) -> Result<Seq<NativeModel>, ArgErrorModel> {
    match r {
        Ok(xs) => Ok(native_models(xs@)),
        Err(CallError::MissingArgument { index, name }) => Err(ArgErrorModel::Missing(index as nat, name@)),
        Err(CallError::BadArgument { index, name, cause }) => Err(ArgErrorModel::Bad(index as nat, name@, cause.model())),
        Err(_) => Err(ArgErrorModel::Missing(0, Seq::empty())),
    }
}

proof fn lemma_dec_args_err(params: Seq<(Seq<char>, ShapeModel)>, args: Seq<JsModel>, n: int)
    requires
        0 <= n <= params.len(),
        dec_args(params.subrange(0, n), args) is Err,
    ensures
        dec_args(params, args) == dec_args(params.subrange(0, n), args),
    decreases params.len(),
{
    if n == params.len() {
        assert(params.subrange(0, n) =~= params);
    } else {
        let p = params.subrange(0, params.len() - 1);
        assert(p.subrange(0, n) =~= params.subrange(0, n));
        lemma_dec_args_err(p, args, n);
    }
}

/// Decodes a call's arguments positionally under its declared parameters.
pub fn decode_args(params: &Vec<(String, Shape)>, args: &Vec<JsiValue>) -> (r: Result<Vec<NativeValue>, CallError>)
    ensures
        args_result(r) == dec_args(shape_field_models(params@), js_models(args@)),
        r is Err ==> (r->Err_0 is MissingArgument || r->Err_0 is BadArgument),
{
    let ghost all = shape_field_models(params@);
    let ghost am = js_models(args@);
    let mut out: Vec<NativeValue> = Vec::new();
    let mut i: usize = 0;
    assert(all.subrange(0, 0) =~= Seq::<(Seq<char>, ShapeModel)>::empty());
    assert(native_models(out@) =~= Seq::<NativeModel>::empty());
    while i < params.len()
        invariant
            i <= params@.len(),
            all == shape_field_models(params@),
            am == js_models(args@),
            dec_args(all.subrange(0, i as int), am) == Ok::<Seq<NativeModel>, ArgErrorModel>(native_models(out@)),
        decreases params@.len() - i,
    {
        proof {
            let sub = all.subrange(0, i + 1);
            assert(sub.subrange(0, i as int) =~= all.subrange(0, i as int));
            assert(sub[i as int] == (params@[i as int].0@, params@[i as int].1.model()));
        }
        let param = &params[i];
        if i >= args.len() {
            proof {
                lemma_dec_args_err(all, am, i + 1);
            }
            return Err(CallError::MissingArgument { index: i, name: param.0.clone() });
        }
        assert(am[i as int] == args@[i as int].model());
        match decode(&param.1, &args[i]) {
            Ok(x) => {
                let ghost before = out@;
                out.push(x);
                proof {
                    assert(native_models(out@) =~= native_models(before).push(x.model()));
                }
            },
            Err(e) => {
                proof {
                    lemma_dec_args_err(all, am, i + 1);
                }
                return Err(CallError::BadArgument { index: i, name: param.0.clone(), cause: e });
            },
        }
        i = i + 1;
    }
    assert(all.subrange(0, params@.len() as int) =~= all);
    Ok(out)
}

impl CallError {
    /// The message of the error, as thrown into the interpreter.
    pub open spec fn spec_message(&self) -> Seq<char> {
        match self {
            CallError::NotBound => "this is not bound correctly"@,
            CallError::NotAMethod => "this member is not a method of that kind"@,
            CallError::MissingArgument { .. } => "not enough arguments"@,
            CallError::BadArgument { name, cause, .. } => match cause {
                JsiDeserializeError::WrongKind(k) => "argument "@ + name@ + " could not be converted to "@
                    + k.spec_name(),
                _ => "argument "@ + name@ + " could not be converted"@,
            },
            CallError::CannotSet(name) => "cannot set "@ + name@,
            CallError::InvalidValue { .. } => "tried to set property to invalid value"@,
        }
    }

    /// A human-readable message for the error, as thrown into the interpreter.
    pub fn message(&self) -> (r: String)
        ensures
            r@ == self.spec_message(),
    {
        proof {
            reveal_strlit("this is not bound correctly");
            reveal_strlit("this member is not a method of that kind");
            reveal_strlit("not enough arguments");
            reveal_strlit("argument ");
            reveal_strlit(" could not be converted to ");
            reveal_strlit(" could not be converted");
            reveal_strlit("cannot set ");
            reveal_strlit("tried to set property to invalid value");
        }
        match self {
            CallError::NotBound => String::from_str("this is not bound correctly"),
            CallError::NotAMethod => String::from_str("this member is not a method of that kind"),
            CallError::MissingArgument { .. } => String::from_str("not enough arguments"),
            CallError::BadArgument { name, cause, .. } => {
                let s = String::from_str("argument ").concat(name.as_str());
                match cause {
                    JsiDeserializeError::WrongKind(k) => s.concat(" could not be converted to ").concat(
                        k.name(),
                    ),
                    _ => s.concat(" could not be converted"),
                }
            },
            CallError::CannotSet(name) => String::from_str("cannot set ").concat(name.as_str()),
            CallError::InvalidValue { .. } => String::from_str("tried to set property to invalid value"),
        }
    }
}

/// How an asynchronous call begins.
pub enum AsyncStart {
    /// The native work is scheduled on the task queue with these arguments;
    /// it settles the promise when it finishes.
    Scheduled { slot: u64, args: Vec<NativeValue> },
    /// The arguments did not decode: the promise is already rejected and no
    /// native work runs.
    Rejected { error: CallError, settlement: Settlement },
}

/// A started asynchronous call: the promise handed back to the interpreter
/// and what happens next.
pub struct AsyncCall {
    pub promise: PromiseBridge,
    pub start: AsyncStart,
}

/// A native type's registration table: its members, consulted by a single
/// generic dispatch.
pub struct HostObjectTable {
    type_tag: u64,
    members: Vec<Member>,
    delegates: Vec<HostObjectTable>,
}

impl HostObjectTable {
    pub closed spec fn type_tag(&self) -> u64 {
        self.type_tag
    }

    pub closed spec fn members(&self) -> Seq<Member> {
        self.members@
    }

    pub closed spec fn delegates(&self) -> Seq<HostObjectTable> {
        self.delegates@
    }

    /// What reading `name` leads to: the table's own getter or method, else
    /// the first delegate that resolves it, else `undefined`.
    pub open spec fn target(&self, name: Seq<char>) -> PropertyTarget
        decreases self, self.delegates().len() + 1,
    {
        let own = own_target(self.members(), name);
        if own is Undefined {
            self.delegate_target(name, self.delegates().len())
        } else {
            own
        }
    }

    /// The first of the first `n` delegates that resolves `name`.
    pub open spec fn delegate_target(&self, name: Seq<char>, n: nat) -> PropertyTarget
        decreases self, n,
    {
        if n == 0 || n > self.delegates().len() {
            PropertyTarget::Undefined
        } else {
            let prev = self.delegate_target(name, (n - 1) as nat);
            if prev is Undefined {
                let t = self.delegates()[n - 1].target(name);
                if t is Undefined {
                    PropertyTarget::Undefined
                } else {
                    PropertyTarget::Delegate((n - 1) as usize, Box::new(t))
                }
            } else {
                prev
            }
        }
    }

    /// Where writing `name` leads: the table's own setter, else the first
    /// delegate that writes it.
    pub open spec fn setter(&self, name: Seq<char>) -> Option<(SetterTarget, ShapeModel)>
        decreases self, self.delegates().len() + 1,
    {
        match own_setter(self.members(), name) {
            Some((slot, shape)) => Some((SetterTarget::Own(slot), shape)),
            None => self.delegate_setter(name, self.delegates().len()),
        }
    }

    /// The first of the first `n` delegates that writes `name`.
    pub open spec fn delegate_setter(&self, name: Seq<char>, n: nat) -> Option<(SetterTarget, ShapeModel)>
        decreases self, n,
    {
        if n == 0 || n > self.delegates().len() {
            None
        } else {
            match self.delegate_setter(name, (n - 1) as nat) {
                Some(t) => Some(t),
                None => match self.delegates()[n - 1].setter(name) {
                    Some((t, shape)) => Some((SetterTarget::Delegate((n - 1) as usize, Box::new(t)), shape)),
                    None => None,
                },
            }
        }
    }

    /// The names the table shows: its own, then each delegate's.
    pub open spec fn names(&self) -> Seq<Seq<char>>
        decreases self, self.delegates().len() + 1,
    {
        member_names(self.members()) + self.delegate_names(self.delegates().len())
    }

    /// The names of the first `n` delegates, in order.
    pub open spec fn delegate_names(&self, n: nat) -> Seq<Seq<char>>
        decreases self, n,
    {
        if n == 0 || n > self.delegates().len() {
            Seq::empty()
        } else {
            self.delegate_names((n - 1) as nat) + self.delegates()[n - 1].names()
        }
    }

    /// Some member of the table or of a delegate, at any depth, is named `name`.
    pub open spec fn carries(&self, name: Seq<char>) -> bool
        decreases self,
    {
        ||| exists|i: int| 0 <= i < self.members().len() && (#[trigger] self.members()[i]).name@ == name
        ||| exists|k: int| 0 <= k < self.delegates().len() && (#[trigger] self.delegates()[k]).carries(name)
    }

    /// An empty table for the native type identified by `type_tag`.
    pub fn new(type_tag: u64) -> (r: Self)
        ensures
            r.type_tag() == type_tag,
            r.members() == Seq::<Member>::empty(),
            r.delegates() == Seq::<HostObjectTable>::empty(),
    {
        HostObjectTable { type_tag, members: Vec::new(), delegates: Vec::new() }
    }

    /// Adds `delegate`, consulted after this table's own members and the
    /// delegates added before it.
    pub fn add_delegate(&mut self, delegate: HostObjectTable)
        ensures
            final(self).delegates() == old(self).delegates().push(delegate),
            final(self).members() == old(self).members(),
            final(self).type_tag() == old(self).type_tag(),
    {
        self.delegates.push(delegate);
    }

    /// The delegate at position `k`.
    pub fn delegate(&self, k: usize) -> (r: Option<&HostObjectTable>)
        ensures
            k < self.delegates().len() ==> r == Some(&self.delegates()[k as int]),
            k >= self.delegates().len() ==> r is None,
    {
        if k < self.delegates.len() {
            Some(&self.delegates[k])
        } else {
            None
        }
    }

    /// Registers `member` under its own name, after the others.
    pub fn add(&mut self, member: Member)
        ensures
            final(self).members() == old(self).members().push(member),
            final(self).type_tag() == old(self).type_tag(),
            final(self).delegates() == old(self).delegates(),
    {
        self.members.push(member);
    }

    /// Registers the native getter `native` as a property.
    pub fn add_getter(&mut self, native: &str, slot: u64)
        ensures
            final(self).type_tag() == old(self).type_tag(),
            final(self).delegates() == old(self).delegates(),
            final(self).members().len() == old(self).members().len() + 1,
            final(self).members().drop_last() == old(self).members(),
            final(self).members().last().name@ == camel_case_of(strip_prefix(native@, "get_"@)),
            final(self).members().last().kind is Getter,
            final(self).members().last().slot == slot,
    {
        let name = getter_name(native);
        self.members.push(Member { name, kind: MemberKind::Getter, slot });
        assert(self.members@.drop_last() =~= old(self).members@);
    }

    /// Registers the native setter `native` as a writable property.
    pub fn add_setter(&mut self, native: &str, shape: Shape, slot: u64)
        ensures
            final(self).type_tag() == old(self).type_tag(),
            final(self).delegates() == old(self).delegates(),
            final(self).members().len() == old(self).members().len() + 1,
            final(self).members().drop_last() == old(self).members(),
            final(self).members().last().name@ == camel_case_of(strip_prefix(native@, "set_"@)),
            final(self).members().last().kind == (MemberKind::Setter { shape }),
            final(self).members().last().slot == slot,
    {
        let name = setter_name(native);
        self.members.push(Member { name, kind: MemberKind::Setter { shape }, slot });
        assert(self.members@.drop_last() =~= old(self).members@);
    }

    /// Registers the native method `native` with its parameters.
    pub fn add_method(&mut self, native: &str, params: Vec<(String, Shape)>, is_async: bool, slot: u64)
        ensures
            final(self).type_tag() == old(self).type_tag(),
            final(self).delegates() == old(self).delegates(),
            final(self).members().len() == old(self).members().len() + 1,
            final(self).members().drop_last() == old(self).members(),
            final(self).members().last().name@ == camel_case_of(native@),
            final(self).members().last().kind == (MemberKind::Method { params, is_async }),
            final(self).members().last().slot == slot,
    {
        let name = method_name(native);
        self.members.push(Member { name, kind: MemberKind::Method { params, is_async }, slot });
        assert(self.members@.drop_last() =~= old(self).members@);
    }

    fn find(&self, name: &String, write: bool) -> (r: Option<usize>)
        ensures
            r matches Some(i) ==> i as int == first_member(self.members(), name@, write),
            r is None ==> first_member(self.members(), name@, write) == -1,
    {
        let mut i: usize = 0;
        while i < self.members.len()
            invariant
                i <= self.members@.len(),
                first_member(self.members@.subrange(0, i as int), name@, write) == -1,
            decreases self.members@.len() - i,
        {
            let m = &self.members[i];
            let ok = if write {
                matches!(m.kind, MemberKind::Setter { .. })
            } else {
                !matches!(m.kind, MemberKind::Setter { .. })
            };
            proof {
                let sub = self.members@.subrange(0, i + 1);
                assert(sub.drop_last() =~= self.members@.subrange(0, i as int));
            }
            if ok && m.name.eq(name) {
                proof {
                    lemma_first_member_prefix(self.members@, name@, write, i as int + 1);
                }
                return Some(i);
            }
            i = i + 1;
        }
        assert(self.members@.subrange(0, self.members@.len() as int) =~= self.members@);
        None
    }

    /// Reads the property `name`: never fails; a name that neither the table
    /// nor a delegate carries reads as `undefined`.
    #[verifier::loop_isolation(false)]
    pub fn get(&self, name: &String) -> (r: PropertyTarget)
        ensures
            r == self.target(name@),
        decreases self,
    {
        if let Some(i) = self.find(name, false) {
            proof {
                lemma_first_member_bounds(self.members@, name@, false);
            }
            return match self.members[i].kind {
                MemberKind::Getter => PropertyTarget::Getter(self.members[i].slot),
                _ => PropertyTarget::Method(i),
            };
        }
        let mut k: usize = 0;
        while k < self.delegates.len()
            invariant
                k <= self.delegates@.len(),
                own_target(self.members@, name@) is Undefined,
                self.delegate_target(name@, k as nat) is Undefined,
            decreases self.delegates@.len() - k,
        {
            proof {
                vstd::std_specs::vec::axiom_vec_index_decreases(self.delegates, k as int);
                assert(decreases_to!(*self => self.delegates));
            }
            let t = self.delegates[k].get(name);
            if !matches!(t, PropertyTarget::Undefined) {
                proof {
                    lemma_delegate_target_stable(*self, name@, (k + 1) as nat, self.delegates@.len());
                }
                return PropertyTarget::Delegate(k, Box::new(t));
            }
            k = k + 1;
        }
        PropertyTarget::Undefined
    }

    /// The setter of `name`, in the table or a delegate, with the shape of
    /// the value it takes.
    #[verifier::loop_isolation(false)]
    fn find_setter(&self, name: &String) -> (r: Option<(SetterTarget, &Shape)>)
        ensures
            self.setter(name@) matches Some((t, sh)) ==> (r matches Some((t2, shape)) && t2 == t
                && shape.model() == sh),
            self.setter(name@) is None ==> r is None,
        decreases self,
    {
        if let Some(i) = self.find(name, true) {
            proof {
                lemma_first_member_bounds(self.members@, name@, true);
                lemma_first_member_fits(self.members@, name@, true);
            }
            return match &self.members[i].kind {
                MemberKind::Setter { shape } => Some((SetterTarget::Own(self.members[i].slot), shape)),
                _ => None,
            };
        }
        let mut k: usize = 0;
        while k < self.delegates.len()
            invariant
                k <= self.delegates@.len(),
                own_setter(self.members@, name@) is None,
                self.delegate_setter(name@, k as nat) is None,
            decreases self.delegates@.len() - k,
        {
            proof {
                vstd::std_specs::vec::axiom_vec_index_decreases(self.delegates, k as int);
                assert(decreases_to!(*self => self.delegates));
            }
            if let Some((t, shape)) = self.delegates[k].find_setter(name) {
                proof {
                    lemma_delegate_setter_stable(*self, name@, (k + 1) as nat, self.delegates@.len());
                }
                return Some((SetterTarget::Delegate(k, Box::new(t)), shape));
            }
            k = k + 1;
        }
        None
    }

    /// Writes `value` to the property `name`: the setter to call, in the table
    /// or a delegate, with the value decoded under the setter's shape. A name
    /// that no setter writes (unknown or read-only) and a value that does not
    /// decode are errors, and no setter is called.
    pub fn set(&self, name: &String, value: &JsiValue) -> (r: Result<(SetterTarget, NativeValue), CallError>)
        ensures
            self.setter(name@) is None ==> (r matches Err(CallError::CannotSet(n)) && n@ == name@),
            self.setter(name@) matches Some((t, sh)) ==> match dec(sh, value.model()) {
                Ok(x) => r matches Ok((t2, y)) && t2 == t && y.model() == x,
                Err(e) => r matches Err(CallError::InvalidValue { name: n, cause }) && n@ == name@
                    && cause.model() == e,
            },
    {
        match self.find_setter(name) {
            None => Err(CallError::CannotSet(name.clone())),
            Some((t, shape)) => match decode(shape, value) {
                Ok(x) => Ok((t, x)),
                Err(cause) => Err(CallError::InvalidValue { name: name.clone(), cause }),
            },
        }
    }

    /// The names of all members, in registration order, then those of each
    /// delegate.
    #[verifier::loop_isolation(false)]
    pub fn properties(&self) -> (r: Vec<String>)
        ensures
            string_views(r@) == self.names(),
        decreases self,
    {
        let mut out: Vec<String> = Vec::new();
        let mut i: usize = 0;
        while i < self.members.len()
            invariant
                i <= self.members@.len(),
                out@.len() == i,
                forall|j: int| 0 <= j < i ==> (#[trigger] out@[j])@ == self.members@[j].name@,
            decreases self.members@.len() - i,
        {
            out.push(self.members[i].name.clone());
            i = i + 1;
        }
        assert(string_views(out@) =~= member_names(self.members@) + self.delegate_names(0));
        let mut k: usize = 0;
        while k < self.delegates.len()
            invariant
                k <= self.delegates@.len(),
                string_views(out@) == member_names(self.members@) + self.delegate_names(k as nat),
            decreases self.delegates@.len() - k,
        {
            proof {
                vstd::std_specs::vec::axiom_vec_index_decreases(self.delegates, k as int);
                assert(decreases_to!(*self => self.delegates));
            }
            let mut more = self.delegates[k].properties();
            let ghost before = out@;
            let ghost added = more@;
            out.append(&mut more);
            proof {
                assert(out@ == before + added);
                assert(string_views(out@) =~= string_views(before) + string_views(added));
                assert(member_names(self.members@) + self.delegate_names(k as nat) + self.delegates@[k as int].names()
                    =~= member_names(self.members@) + self.delegate_names((k + 1) as nat));
            }
            k = k + 1;
        }
        out
    }

    /// Prepares a synchronous call of the method at `index` on a receiver of
    /// type `receiver_tag`: the handler slot and the decoded arguments.
    pub fn call_sync(&self, receiver_tag: u64, index: usize, args: &Vec<JsiValue>) -> (r: Result<
        (u64, Vec<NativeValue>),
        CallError,
    >)
        ensures
            receiver_tag != self.type_tag() ==> r matches Err(CallError::NotBound),
            receiver_tag == self.type_tag() ==> match method_at(self.members(), index as int, false) {
                None => r matches Err(CallError::NotAMethod),
                Some((slot, params)) => match r {
                    Ok((s, xs)) => s == slot && dec_args(shape_field_models(params@), js_models(args@))
                        == Ok::<Seq<NativeModel>, ArgErrorModel>(native_models(xs@)),
                    Err(e) => (e is MissingArgument || e is BadArgument) && dec_args(shape_field_models(params@), js_models(args@))
                        == args_result(Err(e)),
                },
            },
    {
        if receiver_tag != self.type_tag {
            return Err(CallError::NotBound);
        }
        if index >= self.members.len() {
            return Err(CallError::NotAMethod);
        }
        let m = &self.members[index];
        match &m.kind {
            MemberKind::Method { params, is_async } => {
                if *is_async {
                    return Err(CallError::NotAMethod);
                }
                match decode_args(params, args) {
                    Ok(xs) => Ok((m.slot, xs)),
                    Err(e) => Err(e),
                }
            },
            _ => Err(CallError::NotAMethod),
        }
    }

    /// Starts an asynchronous call of the method at `index`: a promise wired to
    /// `resolve` / `reject`, with the work scheduled, or the promise rejected at
    /// once when an argument does not decode. A receiver of the wrong type
    /// fails before any promise exists.
    pub fn call_async(
        &self,
        receiver_tag: u64,
        index: usize,
        args: &Vec<JsiValue>,
        resolve: u64,
        reject: u64,
    ) -> (r: Result<AsyncCall, CallError>)
        ensures
            receiver_tag != self.type_tag() ==> r matches Err(CallError::NotBound),
            receiver_tag == self.type_tag() ==> match method_at(self.members(), index as int, true) {
                None => r matches Err(CallError::NotAMethod),
                Some((slot, params)) => r matches Ok(call) && match call.start {
                    AsyncStart::Scheduled { slot: s, args: xs } => {
                        &&& s == slot
                        &&& call.promise.state() == PromiseState::Pending
                        &&& call.promise.resolve_fn() == resolve
                        &&& call.promise.reject_fn() == reject
                        &&& dec_args(shape_field_models(params@), js_models(args@))
                            == Ok::<Seq<NativeModel>, ArgErrorModel>(native_models(xs@))
                    },
                    AsyncStart::Rejected { error, settlement } => {
                        &&& dec_args(shape_field_models(params@), js_models(args@)) == args_result(Err(error))
                        &&& (error is MissingArgument || error is BadArgument)
                        &&& call.promise.state() == PromiseState::Rejected
                        &&& settlement matches Settlement::Reject { func, error: e }
                        &&& func == reject
                        &&& e.model() == error_model(error.spec_message())
                    },
                },
            },
    {
        if receiver_tag != self.type_tag {
            return Err(CallError::NotBound);
        }
        if index >= self.members.len() {
            return Err(CallError::NotAMethod);
        }
        let m = &self.members[index];
        match &m.kind {
            MemberKind::Method { params, is_async } => {
                if !*is_async {
                    return Err(CallError::NotAMethod);
                }
                let mut promise = PromiseBridge::new(resolve, reject);
                match decode_args(params, args) {
                    Ok(xs) => Ok(AsyncCall { promise, start: AsyncStart::Scheduled { slot: m.slot, args: xs } }),
                    Err(error) => {
                        let message = error.message();
                        match promise.settle(Err(message)) {
                            Some(settlement) => Ok(AsyncCall { promise, start: AsyncStart::Rejected { error, settlement } }),
                            None => Err(error),
                        }
                    },
                }
            },
            _ => Err(CallError::NotAMethod),
        }
    }
}

/// The method at position `i` of `ms`, if it is one of the kind asked for:
/// its handler slot and parameters.
pub open spec fn method_at(ms: Seq<Member>, i: int, is_async: bool) -> Option<(u64, Vec<(String, Shape)>)> {
    if 0 <= i < ms.len() {
        match ms[i].kind {
            MemberKind::Method { params, is_async: a } => if a == is_async {
                Some((ms[i].slot, params))
            } else {
                None
            },
            _ => None,
        }
    } else {
        None
    }
}

proof fn lemma_first_member_bounds(ms: Seq<Member>, name: Seq<char>, write: bool)
    ensures
        -1 <= first_member(ms, name, write) < ms.len(),
    decreases ms.len(),
{
    if ms.len() > 0 {
        lemma_first_member_bounds(ms.drop_last(), name, write);
    }
}

proof fn lemma_first_member_fits(ms: Seq<Member>, name: Seq<char>, write: bool)
    ensures
        first_member(ms, name, write) >= 0 ==> (if write {
            writable(ms[first_member(ms, name, write)])
        } else {
            readable(ms[first_member(ms, name, write)])
        }),
    decreases ms.len(),
{
    if ms.len() > 0 {
        lemma_first_member_fits(ms.drop_last(), name, write);
        lemma_first_member_bounds(ms.drop_last(), name, write);
    }
}

proof fn lemma_first_member_prefix(ms: Seq<Member>, name: Seq<char>, write: bool, n: int)
    requires
        0 < n <= ms.len(),
        first_member(ms.subrange(0, n), name, write) == n - 1,
    ensures
        first_member(ms, name, write) == n - 1,
    decreases ms.len(),
{
    if n < ms.len() {
        let p = ms.drop_last();
        assert(p.subrange(0, n) =~= ms.subrange(0, n));
        lemma_first_member_prefix(p, name, write, n);
    } else {
        assert(ms.subrange(0, n) =~= ms);
    }
}

proof fn lemma_no_readable_member(ms: Seq<Member>, name: Seq<char>)
    requires
        forall|i: int| 0 <= i < ms.len() ==> (#[trigger] ms[i]).name@ != name,
    ensures
        first_member(ms, name, false) == -1,
    decreases ms.len(),
{
    if ms.len() > 0 {
        lemma_no_readable_member(ms.drop_last(), name);
    }
}

/// A property that neither the table nor any of its delegates carries reads
/// as `undefined`; reading never fails.
pub proof fn lemma_unknown_property(t: HostObjectTable, name: Seq<char>)
    requires
        !t.carries(name),
    ensures
        t.target(name) == PropertyTarget::Undefined,
    decreases t, t.delegates().len() + 1,
{
    lemma_no_readable_member(t.members@, name);
    lemma_unknown_in_delegates(t, name, t.delegates@.len());
}

proof fn lemma_unknown_in_delegates(t: HostObjectTable, name: Seq<char>, n: nat)
    requires
        !t.carries(name),
        n <= t.delegates@.len(),
    ensures
        t.delegate_target(name, n) == PropertyTarget::Undefined,
    decreases t, n,
{
    if n > 0 {
        lemma_unknown_in_delegates(t, name, (n - 1) as nat);
        let d = t.delegates@[n - 1];
        assert(!d.carries(name));
        lemma_unknown_property(d, name);
    }
}

proof fn lemma_delegate_target_stable(t: HostObjectTable, name: Seq<char>, n: nat, m: nat)
    requires
        0 < n <= m <= t.delegates().len(),
        !(t.delegate_target(name, n) is Undefined),
    ensures
        t.delegate_target(name, m) == t.delegate_target(name, n),
    decreases m,
{
    if m > n {
        lemma_delegate_target_stable(t, name, n, (m - 1) as nat);
    }
}

proof fn lemma_delegate_setter_stable(t: HostObjectTable, name: Seq<char>, n: nat, m: nat)
    requires
        0 < n <= m <= t.delegates().len(),
        t.delegate_setter(name, n) is Some,
    ensures
        t.delegate_setter(name, m) == t.delegate_setter(name, n),
    decreases m,
{
    if m > n {
        lemma_delegate_setter_stable(t, name, n, (m - 1) as nat);
    }
}

} // verus!
