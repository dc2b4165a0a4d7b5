use jsi::{
    decode, AsyncStart, CallError, DispatchError, Dispatcher, EventError, EventKeys, ExampleHostObject,
    HostObjectTable, JsiDeserializeError, JsiValue, Member, MemberKind, NativeValue, PromiseBridge,
    PromiseState, PropertyTarget, SetterTarget, RuntimeClone, RuntimeDisplay, RuntimeEq, RuntimeHandle, Settlement,
    Shape, ValueKind, HostEventEmitter,
};

fn s(x: &str) -> String {
    x.to_string()
}

#[test]
fn dispatch_keeps_submission_order() {
    let mut d: Dispatcher<u32> = Dispatcher::new();
    d.install(1);
    for i in 0..5 {
        assert!(d.spawn(i).is_ok());
        assert!(d.invoke_async(100 + i).is_ok());
    }
    let mut seen = vec![];
    while let Some(t) = d.take() {
        seen.push(t);
    }
    assert_eq!(seen, vec![0, 100, 1, 101, 2, 102, 3, 103, 4, 104]);
}

#[test]
fn dispatch_after_teardown_reports_no_active_runtime() {
    let mut d: Dispatcher<u32> = Dispatcher::new();
    assert_eq!(d.spawn(1), Err(DispatchError::NoActiveRuntime));
    d.install(7);
    assert_eq!(d.current(), Ok(7));
    assert!(d.spawn(1).is_ok());
    d.teardown();
    assert_eq!(d.spawn(2), Err(DispatchError::NoActiveRuntime));
    assert_eq!(d.invoke_async(3), Err(DispatchError::NoActiveRuntime));
    assert_eq!(d.current(), Err(DispatchError::NoActiveRuntime));
    assert_eq!(d.take(), None);
    assert_eq!(DispatchError::NoActiveRuntime.message(), "no active runtime");
}

#[test]
fn invoke_sync_refuses_reentry() {
    let mut d: Dispatcher<u32> = Dispatcher::new();
    assert_eq!(d.invoke_sync(false), Err(DispatchError::NoActiveRuntime));
    d.install(1);
    assert_eq!(d.invoke_sync(true), Err(DispatchError::SyncReentryRefused));
    assert_eq!(d.invoke_sync(false), Ok(()));
}

fn tick_emitter() -> HostEventEmitter {
    HostEventEmitter::new(EventKeys::from_variants(&vec![s("Tick"), s("DataReady")]))
}

#[test]
fn event_names_are_camel_case() {
    let keys = EventKeys::from_variants(&vec![s("Tick"), s("DataReady")]);
    assert_eq!(keys.parse(&s("tick")).map(|k| k.index), Some(0));
    assert_eq!(keys.parse(&s("dataReady")).map(|k| k.index), Some(1));
    assert_eq!(keys.parse(&s("DataReady")), None);
}

#[test]
fn tick_listener_receives_payload_until_removed() {
    let mut em = tick_emitter();
    let sub = match em.add_event_listener(&s("tick"), 77) {
        Ok(sub) => sub,
        Err(_) => panic!("tick should be accepted"),
    };
    let key = EventKeys::from_variants(&vec![s("Tick"), s("DataReady")]).parse(&s("tick")).unwrap();
    let payload = NativeValue::Record(vec![(s("count"), NativeValue::Int(3))]);
    let plan = match em.emit_event(&key, &payload) {
        Ok(p) => p,
        Err(_) => panic!("payload encodes"),
    };
    assert_eq!(plan.callbacks, vec![77]);
    let shape = Shape::Record(vec![(s("count"), Shape::Int)]);
    match decode(&shape, &plan.args[0]) {
        Ok(NativeValue::Record(fs)) => {
            assert_eq!(fs[0].0, "count");
            assert!(matches!(fs[0].1, NativeValue::Int(3)));
        },
        _ => panic!("payload decodes to a record"),
    }
    sub.remove(&mut em);
    let payload = NativeValue::Record(vec![(s("count"), NativeValue::Int(4))]);
    let plan = match em.emit_event(&key, &payload) {
        Ok(p) => p,
        Err(_) => panic!("payload encodes"),
    };
    assert!(plan.callbacks.is_empty());
}

#[test]
fn failing_listener_does_not_stop_others() {
    let mut em = tick_emitter();
    let a = em.add_event_listener(&s("tick"), 1).ok().unwrap();
    let _b = em.add_event_listener(&s("tick"), 2).ok().unwrap();
    let _c = em.add_event_listener(&s("dataReady"), 3).ok().unwrap();
    assert_eq!(a.id, 0);
    let key = jsi::EventKey { index: 0 };
    let plan = em.emit(&key, vec![JsiValue::Number(1)]);
    assert_eq!(plan.callbacks, vec![1, 2]);
    // listener 1 failing during its call leaves the registry as it was
    let again = em.emit(&key, vec![JsiValue::Number(2)]);
    assert_eq!(again.callbacks, vec![1, 2]);
}

#[test]
fn remove_twice_is_remove_once() {
    let mut em = tick_emitter();
    let a = em.add_event_listener(&s("tick"), 1).ok().unwrap();
    let _b = em.add_event_listener(&s("tick"), 2).ok().unwrap();
    a.remove(&mut em);
    a.remove(&mut em);
    let key = jsi::EventKey { index: 0 };
    assert_eq!(em.listeners_of(&key), vec![2]);
}

#[test]
fn unknown_event_name_is_refused() {
    let mut em = tick_emitter();
    match em.add_event_listener(&s("tock"), 1) {
        Err(e) => {
            assert!(matches!(e, EventError::UnsupportedEvent(ref n) if n == "tock"));
            assert_eq!(e.message(), "event name tock is not supported");
        },
        _ => panic!("tock is not an event"),
    }
}

fn sample_table() -> HostObjectTable {
    let mut t = HostObjectTable::new(5);
    t.add_getter("get_user_name", 10);
    t.add_setter("set_user_name", Shape::Str, 11);
    t.add_getter("version", 12);
    t.add_method("do_work", vec![(s("x"), Shape::Int), (s("y"), Shape::Str)], true, 13);
    t.add_method("add", vec![(s("a"), Shape::Int)], false, 14);
    t
}

#[test]
fn member_names_follow_camel_case() {
    let t = sample_table();
    assert_eq!(t.properties(), vec!["userName", "userName", "version", "doWork", "add"]);
}

#[test]
fn unknown_property_reads_undefined() {
    let t = sample_table();
    assert_eq!(t.get(&s("nothingHere")), PropertyTarget::Undefined);
    assert_eq!(t.get(&s("userName")), PropertyTarget::Getter(10));
    assert_eq!(t.get(&s("doWork")), PropertyTarget::Method(3));
}

#[test]
fn set_only_through_setters() {
    let t = sample_table();
    match t.set(&s("userName"), &JsiValue::String(s("ada"))) {
        Ok((SetterTarget::Own(11), NativeValue::Str(v))) => assert_eq!(v, "ada"),
        _ => panic!("userName takes a string"),
    }
    match t.set(&s("userName"), &JsiValue::Number(4)) {
        Err(e) => {
            assert!(matches!(e, CallError::InvalidValue { ref name, cause: JsiDeserializeError::WrongKind(ValueKind::String) } if name == "userName"));
            assert_eq!(e.message(), "tried to set property to invalid value");
        },
        Ok(_) => panic!("a number is not a user name"),
    }
    match t.set(&s("version"), &JsiValue::Number(1)) {
        Err(e) => {
            assert!(matches!(e, CallError::CannotSet(ref n) if n == "version"));
            assert_eq!(e.message(), "cannot set version");
        },
        Ok(_) => panic!("version is read-only"),
    }
}

#[test]
fn async_call_with_bad_argument_rejects_without_running() {
    let t = sample_table();
    let args = vec![JsiValue::String(s("oops")), JsiValue::String(s("str"))];
    match t.call_async(5, 3, &args, 100, 200) {
        Ok(call) => {
            assert_eq!(call.promise.current_state(), PromiseState::Rejected);
            match call.start {
                AsyncStart::Rejected { error, settlement } => {
                    match &error {
                        CallError::BadArgument { index, name, cause } => {
                            assert_eq!(*index, 0);
                            assert_eq!(name, "x");
                            assert!(matches!(cause, JsiDeserializeError::WrongKind(ValueKind::Number)));
                        },
                        _ => panic!("expected a bad argument"),
                    }
                    assert_eq!(error.message(), "argument x could not be converted to number");
                    match settlement {
                        Settlement::Reject { func, error } => {
                            assert_eq!(func, 200);
                            match error {
                                JsiValue::Object(props) => {
                                    assert!(matches!(props[1].1, JsiValue::String(ref m) if m == "argument x could not be converted to number"));
                                },
                                _ => panic!("expected an error object"),
                            }
                        },
                        _ => panic!("expected a rejection"),
                    }
                },
                AsyncStart::Scheduled { .. } => panic!("the native method must not run"),
            }
        },
        Err(_) => panic!("the call starts"),
    }
}

#[test]
fn async_call_schedules_decoded_arguments() {
    let t = sample_table();
    let args = vec![JsiValue::Number(2), JsiValue::String(s("str"))];
    match t.call_async(5, 3, &args, 100, 200) {
        Ok(call) => {
            assert_eq!(call.promise.current_state(), PromiseState::Pending);
            match call.start {
                AsyncStart::Scheduled { slot, args } => {
                    assert_eq!(slot, 13);
                    assert!(matches!(args[0], NativeValue::Int(2)));
                },
                _ => panic!("expected scheduled work"),
            }
        },
        Err(_) => panic!("the call starts"),
    }
}

#[test]
fn wrong_receiver_fails_before_any_promise() {
    let t = sample_table();
    let args = vec![JsiValue::Number(2), JsiValue::String(s("str"))];
    assert!(matches!(t.call_async(6, 3, &args, 100, 200), Err(CallError::NotBound)));
    assert!(matches!(t.call_sync(6, 4, &args), Err(CallError::NotBound)));
    assert_eq!(CallError::NotBound.message(), "this is not bound correctly");
}

#[test]
fn sync_call_decodes_and_reports_missing_arguments() {
    let t = sample_table();
    match t.call_sync(5, 4, &vec![JsiValue::Number(9)]) {
        Ok((slot, args)) => {
            assert_eq!(slot, 14);
            assert!(matches!(args[0], NativeValue::Int(9)));
        },
        Err(_) => panic!("the call decodes"),
    }
    match t.call_sync(5, 4, &vec![]) {
        Err(CallError::MissingArgument { index, name }) => {
            assert_eq!(index, 0);
            assert_eq!(name, "a");
        },
        _ => panic!("expected a missing argument"),
    }
    assert!(matches!(t.call_sync(5, 3, &vec![]), Err(CallError::NotAMethod)));
}

#[test]
fn custom_member_keeps_its_name() {
    let mut t = HostObjectTable::new(1);
    t.add(Member { name: s("toString"), kind: MemberKind::Getter, slot: 3 });
    assert_eq!(t.get(&s("toString")), PropertyTarget::Getter(3));
}

#[test]
fn promise_settles_once() {
    let mut p = PromiseBridge::new(1, 2);
    match p.settle(Ok(NativeValue::Int(8))) {
        Some(Settlement::Resolve { func, value }) => {
            assert_eq!(func, 1);
            assert!(matches!(value, JsiValue::Number(8)));
        },
        _ => panic!("expected a resolution"),
    }
    assert!(p.settle(Err(s("late failure"))).is_none());
    assert!(p.settle(Ok(NativeValue::Int(9))).is_none());
    assert_eq!(p.current_state(), PromiseState::Resolved);
}

#[test]
fn promise_rejects_with_error_object() {
    let mut p = PromiseBridge::new(1, 2);
    match p.settle(Err(s("boom"))) {
        Some(Settlement::Reject { func, error }) => {
            assert_eq!(func, 2);
            match error {
                JsiValue::Object(props) => {
                    assert_eq!(props[0].0, "name");
                    assert!(matches!(props[0].1, JsiValue::String(ref n) if n == "Error"));
                    assert!(matches!(props[1].1, JsiValue::String(ref m) if m == "boom"));
                },
                _ => panic!("expected an object"),
            }
        },
        _ => panic!("expected a rejection"),
    }
    assert!(p.settle(Ok(NativeValue::Int(1))).is_none());
    let mut q = PromiseBridge::new(1, 2);
    assert!(matches!(q.settle(Ok(NativeValue::Stream(vec![]))), Some(Settlement::Reject { func: 2, .. })));
}

#[test]
fn runtime_handle_compares_copies_and_shows_values() {
    let mut rt = RuntimeHandle::new_unchecked(1);
    let a = JsiValue::Array(vec![JsiValue::Number(1), JsiValue::Null, JsiValue::Number(-23), JsiValue::String(s("x"))]);
    let b = rt.clone(&a);
    assert!(rt.eq(&a, &b));
    assert!(!rt.eq(&a, &JsiValue::Number(1)));
    assert_eq!(rt.to_string(&a), "1,,-23,x");
    assert_eq!(rt.to_string(&JsiValue::Bool(true)), "true");
    assert_eq!(rt.to_string(&JsiValue::Undefined), "undefined");
    assert_eq!(rt.to_string(&JsiValue::Object(vec![])), "[object Object]");
    assert_eq!(rt.to_string(&JsiValue::Number(i64::MIN)), "-9223372036854775808");
    let obj = JsiValue::Object(vec![(s("k"), JsiValue::Number(1))]);
    assert!(RuntimeEq::eq(&obj, &RuntimeClone::clone(&obj, &mut rt), &mut rt));
    assert_eq!(RuntimeDisplay::fmt(&JsiValue::Number(120), &mut rt), "120");
}

#[test]
fn values_report_their_kind() {
    assert!(JsiValue::new_null().is_null());
    assert!(JsiValue::new_undefined().is_undefined());
    assert!(JsiValue::new_number(3).is_number());
    assert!(JsiValue::new_bool(false).is_bool());
    assert!(JsiValue::new_string("a").is_string());
    assert!(JsiValue::Symbol(4).is_symbol());
    assert!(JsiValue::Function(4).is_object());
    assert!(!JsiValue::new_string("").is_truthy());
    assert!(JsiValue::new_number(-1).is_truthy());
}

#[test]
fn example_host_object_time() {
    let mut rt = RuntimeHandle::new_unchecked(1);
    assert_eq!(ExampleHostObject.time(&mut rt), Ok(3200));
    let t = ExampleHostObject::table(4);
    assert_eq!(t.properties(), vec!["time"]);
    assert!(matches!(t.call_sync(4, 0, &vec![]), Ok((0, _))));
}

#[test]
fn delegates_answer_after_own_members() {
    let mut inner = HostObjectTable::new(2);
    inner.add_getter("get_depth", 20);
    inner.add_setter("set_depth", Shape::Int, 21);
    inner.add_getter("version", 22);
    let mut outer = sample_table();
    outer.add_delegate(inner);
    assert_eq!(outer.get(&s("version")), PropertyTarget::Getter(12));
    assert_eq!(outer.get(&s("depth")), PropertyTarget::Delegate(0, Box::new(PropertyTarget::Getter(20))));
    assert_eq!(outer.get(&s("missing")), PropertyTarget::Undefined);
    match outer.set(&s("depth"), &JsiValue::Number(7)) {
        Ok((target, NativeValue::Int(7))) => {
            assert_eq!(target, SetterTarget::Delegate(0, Box::new(SetterTarget::Own(21))))
        },
        _ => panic!("depth is written through the delegate"),
    }
    assert!(outer.set(&s("missing"), &JsiValue::Number(7)).is_err());
    assert_eq!(
        outer.properties(),
        vec!["userName", "userName", "version", "doWork", "add", "depth", "depth", "version"]
    );
    assert!(outer.delegate(0).is_some());
    assert!(outer.delegate(1).is_none());
}

#[test]
fn loop_step_runs_waits_and_exits() {
    let mut d: Dispatcher<u32> = Dispatcher::new();
    assert!(matches!(d.step(false), jsi::LoopAction::Exit));
    d.install(2);
    d.spawn(5).unwrap();
    assert!(matches!(d.step(false), jsi::LoopAction::Run(5)));
    assert!(matches!(d.step(false), jsi::LoopAction::Wait));
    d.spawn(6).unwrap();
    assert!(matches!(d.step(true), jsi::LoopAction::Exit));
    assert_eq!(d.spawn(7), Err(DispatchError::NoActiveRuntime));
}

#[test]
fn promise_executor_needs_two_functions() {
    assert!(matches!(PromiseBridge::from_executor(&vec![JsiValue::Function(1)]), Err(jsi::ExecutorError::ArgumentCount(1))));
    assert!(matches!(
        PromiseBridge::from_executor(&vec![JsiValue::Function(1), JsiValue::Number(2)]),
        Err(jsi::ExecutorError::NotAFunction(1))
    ));
    let mut p = match PromiseBridge::from_executor(&vec![JsiValue::Function(1), JsiValue::Function(2)]) {
        Ok(p) => p,
        Err(_) => panic!("two functions make a bridge"),
    };
    assert!(matches!(p.settle(Err(s("no"))), Some(Settlement::Reject { func: 2, .. })));
}

#[test]
fn promise_executor_hands_out_its_pair_once() {
    let mut ex = jsi::PromiseExecutor::new();
    assert!(matches!(ex.call(&vec![JsiValue::Function(1)]), Err(jsi::ExecutorError::ArgumentCount(1))));
    let first = ex.call(&vec![JsiValue::Function(1), JsiValue::Function(2)]);
    assert!(first.is_ok());
    assert!(matches!(
        ex.call(&vec![JsiValue::Function(3), JsiValue::Function(4)]),
        Err(jsi::ExecutorError::AlreadyCalled)
    ));
    assert_eq!(jsi::ExecutorError::AlreadyCalled.message(), "promise lambda is only supposed to be called once!");
}

#[test]
fn vec_clone_copies_each_value() {
    let mut rt = RuntimeHandle::new_unchecked(1);
    let v = vec![JsiValue::Number(1), JsiValue::String(s("a"))];
    let c: Vec<JsiValue> = RuntimeClone::clone(&v, &mut rt);
    assert_eq!(c.len(), 2);
    assert!(rt.eq(&v[1], &c[1]));
}
