use vstd::prelude::*;

use crate::names::{camel_case_of, method_name};
use crate::native::NativeValue;
use crate::ser::{encode, JsiSerializeError};
use crate::value::{first_index, lemma_first_index, lemma_first_index_absent, JsiValue};

verus! {

/// A key that selects which listeners an event reaches.
pub trait HostEventKey {
    spec fn index(&self) -> usize;

    /// The position of the key among the event names of its emitter.
    fn key_index(&self) -> (r: usize)
        ensures
            r == self.index(),
    ;
}

/// An event key: a position in an emitter's list of event names.
#[derive(Clone, Copy, Debug, PartialEq, Eq, Structural)]
pub struct EventKey {
    pub index: usize,
}

impl HostEventKey for EventKey {
    open spec fn index(&self) -> usize {
        self.index
    }

    fn key_index(&self) -> (r: usize) {
        self.index
    }
}

/// The event names that an emitter accepts, in the order of its keys.
pub struct EventKeys {
    names: Vec<String>,
}

impl EventKeys {
    pub closed spec fn view(&self) -> Seq<Seq<char>> {
        Seq::new(self.names@.len(), |i: int| self.names@[i]@)
    }

    /// The keys named exactly `names`.
    pub fn new(names: Vec<String>) -> (r: Self)
        ensures
            r@ == Seq::new(names@.len(), |i: int| names@[i]@),
    {
        EventKeys { names }
    }

    /// The keys of an event type whose native variants are `variants`: each is
    /// shown to the interpreter in camel case.
    pub fn from_variants(variants: &Vec<String>) -> (r: Self)
        ensures
            r@.len() == variants@.len(),
            forall|i: int| 0 <= i < variants@.len() ==> r@[i] == camel_case_of(#[trigger] variants@[i]@),
    {
        let mut names: Vec<String> = Vec::new();
        let mut i: usize = 0;
        while i < variants.len()
            invariant
                i <= variants@.len(),
                names@.len() == i,
                forall|j: int| 0 <= j < i ==> names@[j]@ == camel_case_of(#[trigger] variants@[j]@),
            decreases variants@.len() - i,
        {
            names.push(method_name(variants[i].as_str()));
            i = i + 1;
        }
        EventKeys { names }
    }

    /// The key named `name`: the first position that carries it.
    pub fn parse(&self, name: &String) -> (r: Option<EventKey>)
        ensures
            0 <= first_index(self@, name@) ==> r == Some(EventKey { index: first_index(self@, name@) as usize }),
            first_index(self@, name@) < 0 ==> r is None,
    {
        let mut i: usize = 0;
        while i < self.names.len()
            invariant
                i <= self@.len(),
                self@.len() == self.names@.len(),
                forall|j: int| 0 <= j < i ==> self@[j] != name@,
            decreases self.names@.len() - i,
        {
            if self.names[i].eq(name) {
                proof {
                    lemma_first_index(self@, name@, i as int);
                }
                return Some(EventKey { index: i });
            }
            i = i + 1;
        }
        proof {
            lemma_first_index_absent(self@, name@);
        }
        None
    }
}

/// A registered listener: its id, the key it listens to, and the interpreter
/// function to call.
#[derive(Clone, Copy, Debug, PartialEq, Eq, Structural)]
pub struct Listener {
    pub id: u64,
    pub key: usize,
    pub callback: u64,
}

/// The callbacks of the listeners of `ls` that listen to `key`, in registration order.
pub open spec fn callbacks_for(ls: Seq<Listener>, key: usize) -> Seq<u64>
    decreases ls.len(),
{
    if ls.len() == 0 {
        Seq::empty()
    } else if ls.last().key == key {
        callbacks_for(ls.drop_last(), key).push(ls.last().callback)
    } else {
        callbacks_for(ls.drop_last(), key)
    }
}

/// `ls` without the listener whose id is `id`.
pub open spec fn without_id(ls: Seq<Listener>, id: u64) -> Seq<Listener>
    decreases ls.len(),
{
    if ls.len() == 0 {
        Seq::empty()
    } else if ls.last().id == id {
        without_id(ls.drop_last(), id)
    } else {
        without_id(ls.drop_last(), id).push(ls.last())
    }
}

/// Why a listener could not be added.
pub enum EventError {
    /// The name is not one of the emitter's event names.
    UnsupportedEvent(String),
    /// Every subscription id has been handed out.
    IdsExhausted,
}

impl EventError {
    /// The message of the error, as thrown into the interpreter.
    pub open spec fn spec_message(&self) -> Seq<char> {
        match self {
            EventError::UnsupportedEvent(n) => "event name "@ + n@ + " is not supported"@,
            EventError::IdsExhausted => "no subscription ids are left"@,
        }
    }

    pub fn message(&self) -> (r: String)
        ensures
            r@ == self.spec_message(),
    {
        proof {
            reveal_strlit("event name ");
            reveal_strlit(" is not supported");
            reveal_strlit("no subscription ids are left");
        }
        match self {
            EventError::UnsupportedEvent(n) => String::from_str("event name ").concat(n.as_str()).concat(
                " is not supported",
            ),
            EventError::IdsExhausted => String::from_str("no subscription ids are left"),
        }
    }
}

/// The handle `addEventListener` returns: it removes its listener.
#[derive(Clone, Copy, Debug, PartialEq, Eq, Structural)]
pub struct EventSubscription {
    pub id: u64,
    pub key: usize,
}

/// The calls that one emission schedules: each callback is called with its
/// own copy of `args`, independently of the others.
pub struct EmitPlan {
    pub callbacks: Vec<u64>,
    pub args: Vec<JsiValue>,
}

/// Keyed listeners of native events, with process-unique ids.
///
/// Listeners sit in one vector in registration order; ids grow with it, so
/// the vector is ordered by id and one key's listeners are read in that order
/// by a plain scan.
pub struct HostEventEmitter {
    keys: EventKeys,
    next_id: u64,
    listeners: Vec<Listener>,
}

impl HostEventEmitter {
    pub closed spec fn listeners(&self) -> Seq<Listener> {
        self.listeners@
    }

    pub closed spec fn next_id(&self) -> u64 {
        self.next_id
    }

    pub closed spec fn keys(&self) -> Seq<Seq<char>> {
        self.keys@
    }

    /// Every id in use was handed out before `next_id`, and ids grow in
    /// registration order, so no two listeners share one.
    pub closed spec fn wf(&self) -> bool {
        &&& forall|i: int| 0 <= i < self.listeners@.len() ==> (#[trigger] self.listeners@[i]).id < self.next_id
        &&& forall|i: int, j: int|
            0 <= i < j < self.listeners@.len() ==> (#[trigger] self.listeners@[i]).id < (#[trigger] self.listeners@[j]).id
    }

    pub fn new(keys: EventKeys) -> (r: Self)
        ensures
            r.wf(),
            r.keys() == keys@,
            r.listeners() == Seq::<Listener>::empty(),
            r.next_id() == 0,
    {
        HostEventEmitter { keys, next_id: 0, listeners: Vec::new() }
    }

    /// Adds `callback` as a listener of the event named `event_name`.
    pub fn add_event_listener(&mut self, event_name: &String, callback: u64) -> (r: Result<
        EventSubscription,
        EventError,
    >)
        requires
            old(self).wf(),
        ensures
            final(self).wf(),
            final(self).keys() == old(self).keys(),
            first_index(old(self).keys(), event_name@) < 0 ==> (r matches Err(EventError::UnsupportedEvent(n)) && n@ == event_name@)
                && *final(self) == *old(self),
            0 <= first_index(old(self).keys(), event_name@) && old(self).next_id() == u64::MAX ==> (r matches Err(EventError::IdsExhausted))
                && *final(self) == *old(self),
            0 <= first_index(old(self).keys(), event_name@) && old(self).next_id() < u64::MAX ==> {
                let key = first_index(old(self).keys(), event_name@) as usize;
                let sub = EventSubscription { id: old(self).next_id(), key };
                &&& r == Ok::<EventSubscription, EventError>(sub)
                &&& final(self).listeners() == old(self).listeners().push(
                    Listener { id: sub.id, key, callback },
                )
                &&& final(self).next_id() == old(self).next_id() + 1
            },
    {
        let key = match self.keys.parse(event_name) {
            Some(k) => k,
            None => return Err(EventError::UnsupportedEvent(event_name.clone())),
        };
        if self.next_id == u64::MAX {
            return Err(EventError::IdsExhausted);
        }
        let id = self.next_id;
        self.listeners.push(Listener { id, key: key.index, callback });
        self.next_id = id + 1;
        Ok(EventSubscription { id, key: key.index })
    }

    /// The callbacks that an event under `key` reaches now, in registration order.
    pub fn listeners_of<K: HostEventKey>(&self, key: &K) -> (r: Vec<u64>)
        ensures
            r@ == callbacks_for(self.listeners(), key.index()),
    {
        let index = key.key_index();
        let mut out: Vec<u64> = Vec::new();
        let mut i: usize = 0;
        while i < self.listeners.len()
            invariant
                i <= self.listeners@.len(),
                out@ == callbacks_for(self.listeners@.subrange(0, i as int), index),
            decreases self.listeners@.len() - i,
        {
            let l = self.listeners[i];
            proof {
                let sub = self.listeners@.subrange(0, i + 1);
                assert(sub.drop_last() =~= self.listeners@.subrange(0, i as int));
                assert(sub.last() == l);
            }
            if l.key == index {
                out.push(l.callback);
            }
            i = i + 1;
        }
        assert(self.listeners@.subrange(0, self.listeners@.len() as int) =~= self.listeners@);
        out
    }

    /// Emits an event with arguments `args`: one independent call per listener.
    pub fn emit<K: HostEventKey>(&self, key: &K, args: Vec<JsiValue>) -> (r: EmitPlan)
        ensures
            r.callbacks@ == callbacks_for(self.listeners(), key.index()),
            r.args@ == args@,
    {
        EmitPlan { callbacks: self.listeners_of(key), args }
    }

    /// Emits an event whose payload is `payload`, encoded as its one argument.
    pub fn emit_event<K: HostEventKey>(&self, key: &K, payload: &NativeValue) -> (r: Result<
        EmitPlan,
        JsiSerializeError,
    >)
        ensures
            r is Ok <==> crate::ser::encodable(payload.model()),
            r matches Ok(plan) ==> plan.callbacks@ == callbacks_for(self.listeners(), key.index())
                && plan.args@.len() == 1 && plan.args@[0].model() == crate::ser::enc(payload.model()),
    {
        match encode(payload) {
            Ok(v) => {
                let mut args: Vec<JsiValue> = Vec::new();
                args.push(v);
                Ok(self.emit(key, args))
            },
            Err(e) => Err(e),
        }
    }
}

impl EventSubscription {
    /// Removes this subscription's listener from `emitter`; removing it again changes nothing.
    pub fn remove(&self, emitter: &mut HostEventEmitter)
        requires
            old(emitter).wf(),
        ensures
            final(emitter).wf(),
            final(emitter).listeners() == without_id(old(emitter).listeners(), self.id),
            final(emitter).next_id() == old(emitter).next_id(),
            final(emitter).keys() == old(emitter).keys(),
    {
        let ghost before = emitter.listeners@;
        let mut kept: Vec<Listener> = Vec::new();
        let mut i: usize = 0;
        let ghost mut last: int = -1;
        while i < emitter.listeners.len()
            invariant
                i <= before.len(),
                emitter.listeners@ == before,
                kept@ == without_id(before.subrange(0, i as int), self.id),
                forall|j: int| 0 <= j < kept@.len() ==> (#[trigger] kept@[j]).id < emitter.next_id,
                forall|j: int| 0 <= j < before.len() ==> (#[trigger] before[j]).id < emitter.next_id,
                forall|a: int, b: int|
                    0 <= a < b < before.len() ==> (#[trigger] before[a]).id < (#[trigger] before[b]).id,
                forall|a: int, b: int|
                    0 <= a < b < kept@.len() ==> (#[trigger] kept@[a]).id < (#[trigger] kept@[b]).id,
                kept@.len() > 0 ==> 0 <= last < i && kept@.last() == before[last],
            decreases before.len() - i,
        {
            let l = emitter.listeners[i];
            proof {
                let sub = before.subrange(0, i + 1);
                assert(sub.drop_last() =~= before.subrange(0, i as int));
                assert(sub.last() == l);
            }
            if l.id != self.id {
                let ghost old_kept = kept@;
                kept.push(l);
                proof {
                    assert forall|a: int, b: int| 0 <= a < b < kept@.len() implies (#[trigger] kept@[a]).id
                        < (#[trigger] kept@[b]).id by {
                        if b == kept@.len() - 1 && a < b {
                            assert(kept@[a].id <= old_kept.last().id) by {
                                if a < old_kept.len() - 1 {
                                    assert(old_kept[a].id < old_kept[old_kept.len() - 1].id);
                                }
                            }
                            assert(before[last].id < before[i as int].id);
                        } else {
                            assert(kept@[a] == old_kept[a] && kept@[b] == old_kept[b]);
                        }
                    }
                    last = i as int;
                }
            }
            i = i + 1;
        }
        assert(before.subrange(0, before.len() as int) =~= before);
        emitter.listeners = kept;
    }
}

/// Removing a subscription twice has the effect of removing it once.
pub proof fn lemma_remove_idempotent(ls: Seq<Listener>, id: u64)
    ensures
        without_id(without_id(ls, id), id) == without_id(ls, id),
    decreases ls.len(),
{
    if ls.len() > 0 {
        lemma_remove_idempotent(ls.drop_last(), id);
        if ls.last().id != id {
            let w = without_id(ls.drop_last(), id);
            assert(w.push(ls.last()).drop_last() =~= w);
        }
    }
}

/// Every listener registered under a key is among the calls that an emission
/// under that key schedules, whatever the other listeners do: the calls are
/// fixed before any of them runs, and none of them changes the listeners.
pub proof fn lemma_every_listener_reached(ls: Seq<Listener>, key: usize, i: int)
    requires
        0 <= i < ls.len(),
        ls[i].key == key,
    ensures
        callbacks_for(ls, key).contains(ls[i].callback),
    decreases ls.len(),
{
    if i == ls.len() - 1 {
        assert(callbacks_for(ls, key).last() == ls[i].callback);
    } else {
        lemma_every_listener_reached(ls.drop_last(), key, i);
        let c = callbacks_for(ls.drop_last(), key);
        let k = choose|k: int| 0 <= k < c.len() && c[k] == ls[i].callback;
        if ls.last().key == key {
            assert(c.push(ls.last().callback)[k] == ls[i].callback);
        }
    }
}

} // verus!
