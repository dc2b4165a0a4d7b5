use vstd::prelude::*;

use crate::native::NativeValue;
use crate::ser::{enc, encodable, encode};
use crate::value::{prop_models, JsModel, JsiValue};

verus! {

/// Where a promise bridge stands.
#[derive(Clone, Copy, Debug, PartialEq, Eq, Structural)]
pub enum PromiseState {
    Pending,
    Resolved,
    Rejected,
}

/// The interpreter's error object for `message`, as mathematics.
pub open spec fn error_model(message: Seq<char>) -> JsModel {
    JsModel::Object(seq![("name"@, JsModel::Str("Error"@)), ("message"@, JsModel::Str(message))])
}

/// An interpreter `Error` object carrying `message`.
pub fn error_object(message: String) -> (r: JsiValue)
    ensures
        r.model() == error_model(message@),
{
    proof {
        reveal_strlit("name");
        reveal_strlit("Error");
        reveal_strlit("message");
    }
    let mut props: Vec<(String, JsiValue)> = Vec::new();
    props.push((String::from_str("name"), JsiValue::String(String::from_str("Error"))));
    props.push((String::from_str("message"), JsiValue::String(message)));
    let r = JsiValue::Object(props);
    assert(prop_models(props@) =~= seq![("name"@, JsModel::Str("Error"@)), ("message"@, JsModel::Str(message@))]);
    r
}

/// The one call that settles a promise.
pub enum Settlement {
    Resolve { func: u64, value: JsiValue },
    Reject { func: u64, error: JsiValue },
}

/// Whether native work succeeded in a way the interpreter can see: it
/// returned a value that can be encoded.
pub open spec fn succeeds(outcome: Result<NativeValue, String>) -> bool {
    outcome matches Ok(v) && encodable(v.model())
}

/// One settlement attempt on a promise in state `st`, with an outcome that
/// succeeded or not: the new state, and which function fires, if any
/// (`true` for resolve).
pub open spec fn settle_step(st: PromiseState, success: bool) -> (PromiseState, Option<bool>) {
    if st == PromiseState::Pending {
        if success {
            (PromiseState::Resolved, Some(true))
        } else {
            (PromiseState::Rejected, Some(false))
        }
    } else {
        (st, None)
    }
}

/// The functions that fire over a series of settlement attempts.
pub open spec fn fired(st: PromiseState, outcomes: Seq<bool>) -> Seq<bool>
    decreases outcomes.len(),
{
    if outcomes.len() == 0 {
        Seq::empty()
    } else {
        let (next, f) = settle_step(st, outcomes[0]);
        let rest = fired(next, outcomes.subrange(1, outcomes.len() as int));
        match f {
            Some(b) => seq![b].add(rest),
            None => rest,
        }
    }
}

/// Why a promise executor's arguments could not be taken as `resolve` and `reject`.
#[derive(Clone, Copy, Debug, PartialEq, Eq, Structural)]
pub enum ExecutorError {
    /// The executor was called with this many arguments instead of two.
    ArgumentCount(usize),
    /// The argument at this position is not a function.
    NotAFunction(usize),
    /// The executor already handed out its `resolve` / `reject` pair.
    AlreadyCalled,
}

impl ExecutorError {
    /// The message of the error, as thrown into the interpreter.
    pub open spec fn spec_message(&self) -> Seq<char> {
        match self {
            ExecutorError::ArgumentCount(_) => "promise callback called with the wrong number of arguments, expected 2"@,
            ExecutorError::NotAFunction(i) => if *i == 0 {
                "promise resolver is not a function"@
            } else {
                "promise rejecter is not a function"@
            },
            ExecutorError::AlreadyCalled => "promise lambda is only supposed to be called once!"@,
        }
    }

    pub fn message(&self) -> (r: &'static str)
        ensures
            r@ == self.spec_message(),
    {
        proof {
            reveal_strlit("promise callback called with the wrong number of arguments, expected 2");
            reveal_strlit("promise resolver is not a function");
            reveal_strlit("promise rejecter is not a function");
            reveal_strlit("promise lambda is only supposed to be called once!");
        }
        match self {
            ExecutorError::ArgumentCount(_) => "promise callback called with the wrong number of arguments, expected 2",
            ExecutorError::NotAFunction(i) => if *i == 0 {
                "promise resolver is not a function"
            } else {
                "promise rejecter is not a function"
            },
            ExecutorError::AlreadyCalled => "promise lambda is only supposed to be called once!",
        }
    }
}

/// What is wrong with the arguments `args` of a promise executor, if anything.
pub open spec fn executor_check(args: Seq<JsiValue>) -> Option<ExecutorError> {
    if args.len() != 2 {
        Some(ExecutorError::ArgumentCount(args.len() as usize))
    } else if !(args[0] is Function) {
        Some(ExecutorError::NotAFunction(0))
    } else if !(args[1] is Function) {
        Some(ExecutorError::NotAFunction(1))
    } else {
        None
    }
}

/// The executor of one promise: its first call with two functions hands out
/// the promise's bridge; every later call fails without handing out another.
pub struct PromiseExecutor {
    used: bool,
}

impl PromiseExecutor {
    pub closed spec fn used(&self) -> bool {
        self.used
    }

    pub fn new() -> (r: Self)
        ensures
            !r.used(),
    {
        PromiseExecutor { used: false }
    }

    /// Called by the interpreter's `Promise` constructor with `(resolve, reject)`.
    pub fn call(&mut self, args: &Vec<JsiValue>) -> (r: Result<PromiseBridge, ExecutorError>)
        ensures
            old(self).used() ==> r == Err::<PromiseBridge, ExecutorError>(ExecutorError::AlreadyCalled)
                && final(self).used(),
            !old(self).used() && executor_check(args@) is Some ==> r == Err::<PromiseBridge, ExecutorError>(
                executor_check(args@)->Some_0,
            ) && !final(self).used(),
            !old(self).used() && executor_check(args@) is None ==> (r matches Ok(p) && p.state()
                == PromiseState::Pending && p.resolve_fn() == args@[0]->Function_0 && p.reject_fn()
                == args@[1]->Function_0) && final(self).used(),
    {
        if self.used {
            return Err(ExecutorError::AlreadyCalled);
        }
        let r = PromiseBridge::from_executor(args);
        if r.is_ok() {
            self.used = true;
        }
        r
    }
}

/// The `resolve` / `reject` pair of one promise, handed to asynchronous work.
pub struct PromiseBridge {
    resolve: u64,
    reject: u64,
    state: PromiseState,
}

impl PromiseBridge {
    pub closed spec fn state(&self) -> PromiseState {
        self.state
    }

    pub closed spec fn resolve_fn(&self) -> u64 {
        self.resolve
    }

    pub closed spec fn reject_fn(&self) -> u64 {
        self.reject
    }

    /// A pending promise whose executor captured `resolve` and `reject`.
    pub fn new(resolve: u64, reject: u64) -> (r: Self)
        ensures
            r.state() == PromiseState::Pending,
            r.resolve_fn() == resolve,
            r.reject_fn() == reject,
    {
        PromiseBridge { resolve, reject, state: PromiseState::Pending }
    }

    /// The bridge of a promise whose executor received `args`: two functions,
    /// `resolve` then `reject`.
    pub fn from_executor(args: &Vec<JsiValue>) -> (r: Result<Self, ExecutorError>)
        ensures
            args@.len() != 2 ==> r == Err::<Self, ExecutorError>(ExecutorError::ArgumentCount(args@.len() as usize)),
            args@.len() == 2 && !(args@[0] is Function) ==> r == Err::<Self, ExecutorError>(ExecutorError::NotAFunction(0)),
            args@.len() == 2 && args@[0] is Function && !(args@[1] is Function) ==> r == Err::<Self, ExecutorError>(
                ExecutorError::NotAFunction(1),
            ),
            args@.len() == 2 && args@[0] is Function && args@[1] is Function ==> (r matches Ok(p)
                && p.state() == PromiseState::Pending && p.resolve_fn() == args@[0]->Function_0
                && p.reject_fn() == args@[1]->Function_0),
    {
        if args.len() != 2 {
            return Err(ExecutorError::ArgumentCount(args.len()));
        }
        let resolve = match &args[0] {
            JsiValue::Function(f) => *f,
            _ => return Err(ExecutorError::NotAFunction(0)),
        };
        let reject = match &args[1] {
            JsiValue::Function(f) => *f,
            _ => return Err(ExecutorError::NotAFunction(1)),
        };
        Ok(PromiseBridge::new(resolve, reject))
    }

    pub fn current_state(&self) -> (r: PromiseState)
        ensures
            r == self.state(),
    {
        self.state
    }

    /// Settles the promise with the outcome of the native work. Only the
    /// first call fires anything: `resolve` with the encoded value on
    /// success, `reject` with an `Error` object otherwise.
    pub fn settle(&mut self, outcome: Result<NativeValue, String>) -> (r: Option<Settlement>)
        ensures
            final(self).state() == settle_step(old(self).state(), succeeds(outcome)).0,
            r is Some <==> old(self).state() == PromiseState::Pending,
            final(self).resolve_fn() == old(self).resolve_fn(),
            final(self).reject_fn() == old(self).reject_fn(),
            r matches Some(st) ==> (st is Resolve <==> succeeds(outcome)),
            r matches Some(Settlement::Resolve { func, value }) ==> (func == old(self).resolve_fn()
                && value.model() == enc(outcome->Ok_0.model())),
            r matches Some(Settlement::Reject { func, error }) ==> (func == old(self).reject_fn() && (
            outcome is Err ==> error.model() == error_model(outcome->Err_0@)) && (outcome is Ok
                ==> error.model() == error_model("cannot serialize unsized sequences"@))),
    {
        if self.state != PromiseState::Pending {
            return None;
        }
        match outcome {
            Ok(v) => match encode(&v) {
                Ok(value) => {
                    self.state = PromiseState::Resolved;
                    Some(Settlement::Resolve { func: self.resolve, value })
                },
                Err(_) => {
                    self.state = PromiseState::Rejected;
                    proof {
                        reveal_strlit("cannot serialize unsized sequences");
                    }
                    let error = error_object(String::from_str("cannot serialize unsized sequences"));
                    Some(Settlement::Reject { func: self.reject, error })
                },
            },
            Err(message) => {
                self.state = PromiseState::Rejected;
                Some(Settlement::Reject { func: self.reject, error: error_object(message) })
            },
        }
    }
}

/// However many times an asynchronous call tries to settle its promise,
/// exactly one of resolve and reject fires, once, and which one is decided
/// by the first outcome.
pub proof fn lemma_single_settlement(outcomes: Seq<bool>)
    requires
        outcomes.len() > 0,
    ensures
        fired(PromiseState::Pending, outcomes) == seq![outcomes[0]],
{
    let (next, _) = settle_step(PromiseState::Pending, outcomes[0]);
    lemma_settled_stays_quiet(next, outcomes.subrange(1, outcomes.len() as int));
    assert(seq![outcomes[0]].add(Seq::<bool>::empty()) =~= seq![outcomes[0]]);
}

proof fn lemma_settled_stays_quiet(st: PromiseState, outcomes: Seq<bool>)
    requires
        st != PromiseState::Pending,
    ensures
        fired(st, outcomes) == Seq::<bool>::empty(),
    decreases outcomes.len(),
{
    if outcomes.len() > 0 {
        lemma_settled_stays_quiet(st, outcomes.subrange(1, outcomes.len() as int));
    }
}

} // verus!
