use std::collections::VecDeque;
use vstd::prelude::*;

verus! {

/// Why work could not be handed to the owning thread.
#[derive(Clone, Copy, Debug, PartialEq, Eq, Structural)]
pub enum DispatchError {
    /// No bridge is installed, or it was torn down.
    NoActiveRuntime,
    /// The interpreter refuses a synchronous call while another is in flight.
    SyncReentryRefused,
}

impl DispatchError {
    pub fn message(&self) -> (r: &'static str)
        ensures
            self is NoActiveRuntime ==> r@ == "no active runtime"@,
            self is SyncReentryRefused ==> r@
                == "synchronous native -> interpreter calls are not supported while a call is in flight"@,
    {
        proof {
            reveal_strlit("no active runtime");
            reveal_strlit("synchronous native -> interpreter calls are not supported while a call is in flight");
        }
        match self {
            DispatchError::NoActiveRuntime => "no active runtime",
            DispatchError::SyncReentryRefused => "synchronous native -> interpreter calls are not supported while a call is in flight",
        }
    }
}

/// The state of the dispatch queue as mathematics: whether a runtime is
/// published, which one, and the work waiting for the owning thread.
pub struct DispatchState<T> {
    pub active: bool,
    pub runtime: u64,
    pub queue: Seq<T>,
}

/// What handing `t` to the queue does.
pub open spec fn after_submit<T>(st: DispatchState<T>, t: T) -> DispatchState<T> {
    if st.active {
        DispatchState { queue: st.queue.push(t), ..st }
    } else {
        st
    }
}

/// What handing work to the queue returns.
pub open spec fn submit_outcome<T>(st: DispatchState<T>) -> Result<(), DispatchError> {
    if st.active {
        Ok(())
    } else {
        Err(DispatchError::NoActiveRuntime)
    }
}

/// What taking the next piece of work does.
pub open spec fn after_take<T>(st: DispatchState<T>) -> DispatchState<T> {
    if st.queue.len() == 0 {
        st
    } else {
        DispatchState { queue: st.queue.subrange(1, st.queue.len() as int), ..st }
    }
}

/// What taking the next piece of work returns.
pub open spec fn take_outcome<T>(st: DispatchState<T>) -> Option<T> {
    if st.queue.len() == 0 {
        None
    } else {
        Some(st.queue[0])
    }
}

/// Tearing the bridge down: the runtime is withdrawn and waiting work is dropped.
pub open spec fn after_teardown<T>(st: DispatchState<T>) -> DispatchState<T> {
    DispatchState { active: false, runtime: st.runtime, queue: Seq::empty() }
}

/// Submitting each of `ts` in turn.
pub open spec fn submit_all<T>(st: DispatchState<T>, ts: Seq<T>) -> DispatchState<T>
    decreases ts.len(),
{
    if ts.len() == 0 {
        st
    } else {
        after_submit(submit_all(st, ts.drop_last()), ts.last())
    }
}

/// Everything the owning thread takes, in the order it takes it, until the queue is empty.
pub open spec fn drain<T>(st: DispatchState<T>) -> Seq<T>
    decreases st.queue.len(),
{
    if st.queue.len() == 0 {
        Seq::empty()
    } else {
        seq![st.queue[0]].add(drain(after_take(st)))
    }
}

/// What the owning thread's loop does next.
pub enum LoopAction<T> {
    /// Run this piece of work to completion.
    Run(T),
    /// Nothing is queued: wait for work or for teardown.
    Wait,
    /// The runtime is withdrawn: leave the loop.
    Exit,
}

/// The queue between foreign threads and the owning thread, with the
/// process-wide record of which runtime is active.
pub struct Dispatcher<T> {
    active: bool,
    runtime: u64,
    queue: VecDeque<T>,
}

impl<T> Dispatcher<T> {
    pub closed spec fn view(&self) -> DispatchState<T> {
        DispatchState { active: self.active, runtime: self.runtime, queue: self.queue@ }
    }

    /// A dispatcher with no runtime published.
    pub fn new() -> (r: Self)
        ensures
            r@ == (DispatchState::<T> { active: false, runtime: 0, queue: Seq::empty() }),
    {
        Dispatcher { active: false, runtime: 0, queue: VecDeque::new() }
    }

    /// Publishes `runtime` as the active one, with an empty queue.
    pub fn install(&mut self, runtime: u64)
        ensures
            final(self)@ == (DispatchState::<T> { active: true, runtime, queue: Seq::empty() }),
    {
        self.active = true;
        self.runtime = runtime;
        self.queue = VecDeque::new();
    }

    pub fn is_active(&self) -> (r: bool)
        ensures
            r == self@.active,
    {
        self.active
    }

    /// The runtime now published, if any.
    pub fn current(&self) -> (r: Result<u64, DispatchError>)
        ensures
            self@.active ==> r == Ok::<u64, DispatchError>(self@.runtime),
            !self@.active ==> r == Err::<u64, DispatchError>(DispatchError::NoActiveRuntime),
    {
        if self.active {
            Ok(self.runtime)
        } else {
            Err(DispatchError::NoActiveRuntime)
        }
    }

    /// Queues a task for the owning thread's loop.
    pub fn spawn(&mut self, task: T) -> (r: Result<(), DispatchError>)
        ensures
            final(self)@ == after_submit(old(self)@, task),
            r == submit_outcome(old(self)@),
    {
        if self.active {
            self.queue.push_back(task);
            Ok(())
        } else {
            Err(DispatchError::NoActiveRuntime)
        }
    }

    /// Queues a fire-and-forget call; it shares the task queue, so one
    /// producer's calls and tasks run in the order they were handed in.
    pub fn invoke_async(&mut self, job: T) -> (r: Result<(), DispatchError>)
        ensures
            final(self)@ == after_submit(old(self)@, job),
            r == submit_outcome(old(self)@),
    {
        self.spawn(job)
    }

    /// Decides a synchronous call: it may run at once only when a runtime is
    /// active and no other call into the interpreter is in flight.
    pub fn invoke_sync(&self, call_in_flight: bool) -> (r: Result<(), DispatchError>)
        ensures
            !self@.active ==> r == Err::<(), DispatchError>(DispatchError::NoActiveRuntime),
            self@.active && call_in_flight ==> r == Err::<(), DispatchError>(
                DispatchError::SyncReentryRefused,
            ),
            self@.active && !call_in_flight ==> r is Ok,
    {
        if !self.active {
            Err(DispatchError::NoActiveRuntime)
        } else if call_in_flight {
            Err(DispatchError::SyncReentryRefused)
        } else {
            Ok(())
        }
    }

    /// The next piece of work for the owning thread, oldest first.
    pub fn take(&mut self) -> (r: Option<T>)
        ensures
            final(self)@ == after_take(old(self)@),
            r == take_outcome(old(self)@),
    {
        let r = self.queue.pop_front();
        proof {
            if old(self)@.queue.len() > 0 {
                assert(self@.queue =~= old(self)@.queue.subrange(1, old(self)@.queue.len() as int));
            }
        }
        r
    }

    /// One turn of the owning thread's loop: on a teardown request (or with
    /// no runtime published) the runtime is withdrawn and the loop exits;
    /// otherwise the oldest work runs, or the loop waits.
    pub fn step(&mut self, teardown_requested: bool) -> (r: LoopAction<T>)
        ensures
            teardown_requested || !old(self)@.active ==> r is Exit && final(self)@ == after_teardown(
                old(self)@,
            ),
            !teardown_requested && old(self)@.active ==> final(self)@ == after_take(old(self)@) && match take_outcome(
                old(self)@,
            ) {
                Some(t) => r == LoopAction::Run(t),
                None => r is Wait,
            },
    {
        if teardown_requested || !self.active {
            self.teardown();
            return LoopAction::Exit;
        }
        match self.take() {
            Some(t) => LoopAction::Run(t),
            None => LoopAction::Wait,
        }
    }

    /// Withdraws the runtime: later submissions fail with `NoActiveRuntime`.
    pub fn teardown(&mut self)
        ensures
            final(self)@ == after_teardown(old(self)@),
    {
        self.active = false;
        self.queue = VecDeque::new();
    }
}

/// Work that one producer hands to an active runtime (by `spawn` or
/// `invoke_async`, which both submit) comes out of the queue exactly in the
/// order it was handed in, after the work that was already waiting.
pub proof fn lemma_order_kept<T>(st: DispatchState<T>, ts: Seq<T>)
    requires
        st.active,
    ensures
        drain(submit_all(st, ts)) == st.queue + ts,
{
    lemma_submit_all(st, ts);
    lemma_drain(submit_all(st, ts));
}

proof fn lemma_submit_all<T>(st: DispatchState<T>, ts: Seq<T>)
    requires
        st.active,
    ensures
        submit_all(st, ts).active,
        submit_all(st, ts).queue == st.queue + ts,
    decreases ts.len(),
{
    if ts.len() > 0 {
        lemma_submit_all(st, ts.drop_last());
        assert(st.queue + ts.drop_last().push(ts.last()) =~= st.queue + ts);
        assert(ts.drop_last().push(ts.last()) =~= ts);
    } else {
        assert(st.queue + ts =~= st.queue);
    }
}

proof fn lemma_drain<T>(st: DispatchState<T>)
    ensures
        drain(st) == st.queue,
    decreases st.queue.len(),
{
    if st.queue.len() > 0 {
        lemma_drain(after_take(st));
        assert(seq![st.queue[0]].add(st.queue.subrange(1, st.queue.len() as int)) =~= st.queue);
    }
}

/// After teardown every submission fails with `NoActiveRuntime`, and nothing is queued.
pub proof fn lemma_submit_after_teardown<T>(st: DispatchState<T>, t: T)
    ensures
        submit_outcome(after_teardown(st)) == Err::<(), DispatchError>(DispatchError::NoActiveRuntime),
        after_submit(after_teardown(st), t) == after_teardown(st),
        take_outcome(after_teardown(st)) is None,
{
}

} // verus!
