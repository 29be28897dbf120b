use vstd::prelude::*;

verus! {

// ---------------------------------------------------------------------
// Errors
// ---------------------------------------------------------------------

/// Failure of a dispatch or a completion hand-shake. Both variants mean
/// that the other half of a channel has been torn down; at this layer the
/// caller cannot recover.
#[derive(Debug, Clone, Copy, PartialEq, Eq)]
pub enum EffectError {
    ChannelClosed,
    RuntimeStopped,
}

impl EffectError {
    /// A short description, for hosts that want to report the failure.
    pub fn message(&self) -> (r: &'static str)
        ensures
            *self matches EffectError::ChannelClosed ==> r@ == "Channel closed"@,
            *self matches EffectError::RuntimeStopped ==> r@ == "Runtime stopped"@,
    {
        match self {
            EffectError::ChannelClosed => "Channel closed",
            EffectError::RuntimeStopped => "Runtime stopped",
        }
    }
}

// ---------------------------------------------------------------------
// Queue items and batches
// ---------------------------------------------------------------------

/// One queued operation. `Run` is a plain effect; `RunSynced` is an
/// effect wrapped by `dispatch_sync`, which fires a completion signal
/// right after the effect has executed; `Spawn` is a request to hand a
/// task to the host's thread or async spawner.
pub enum Op<E, S> {
    Run(E),
    RunSynced(E, tokio::sync::oneshot::Sender<()>),
    Spawn(S),
}

/// An ordered batch of operations enqueued atomically by one dispatch
/// call. Its view is the sequence of queued operations in insertion
/// order.
pub struct Effects<E, S> {
    items: Vec<Op<E, S>>,
}

impl<E, S> View for Effects<E, S> {
    type V = Seq<Op<E, S>>;

    closed spec fn view(&self) -> Seq<Op<E, S>> {
        self.items@
    }
}

impl<E, S> Effects<E, S> {
    #[must_use]
    pub fn new() -> (r: Self)
        ensures
            r@ == Seq::<Op<E, S>>::empty(),
    {
        Self { items: Vec::new() }
    }

    #[must_use]
    pub fn with_capacity(capacity: usize) -> (r: Self)
        ensures
            r@ == Seq::<Op<E, S>>::empty(),
    {
        Self { items: Vec::with_capacity(capacity) }
    }

    /// The empty batch.
    #[must_use]
    pub fn none() -> (r: Self)
        ensures
            r@ == Seq::<Op<E, S>>::empty(),
    {
        Self::new()
    }

    /// A single-effect batch.
    #[must_use]
    pub fn from(effect: E) -> (r: Self)
        ensures
            r@ == Seq::<Op<E, S>>::empty().push(Op::Run(effect)),
    {
        let mut items: Vec<Op<E, S>> = Vec::new();
        items.push(Op::Run(effect));
        Self { items }
    }

    /// Append one effect to the batch.
    #[must_use]
    pub fn effect(self, effect: E) -> (r: Self)
        ensures
            r@ == self@.push(Op::Run(effect)),
    {
        let mut items = self.items;
        items.push(Op::Run(effect));
        Self { items }
    }

    /// Append one already-built spawn request to the batch.
    #[must_use]
    pub fn spawn_request(self, call: S) -> (r: Self)
        ensures
            r@ == self@.push(Op::Spawn(call)),
    {
        let mut items = self.items;
        items.push(Op::Spawn(call));
        Self { items }
    }

    pub fn len(&self) -> (r: usize)
        ensures
            r == self@.len(),
    {
        self.items.len()
    }

    pub fn is_empty(&self) -> (r: bool)
        ensures
            r == (self@.len() == 0),
    {
        self.items.len() == 0
    }

    pub(crate) fn push_op(&mut self, op: Op<E, S>)
        ensures
            final(self)@ == old(self)@.push(op),
    {
        self.items.push(op);
    }

    pub(crate) fn into_items(self) -> (r: Vec<Op<E, S>>)
        ensures
            r@ == self@,
    {
        self.items
    }
}

impl<E, S> Default for Effects<E, S> {
    fn default() -> (r: Self)
        ensures
            r@ == Seq::<Op<E, S>>::empty(),
    {
        Self::new()
    }
}

// ---------------------------------------------------------------------
// Tasks
// ---------------------------------------------------------------------

/// A unit of blocking work, run by the host on a worker thread with a
/// context projected from the runtime. Implemented by host code; the
/// library only composes and routes these values.
pub trait SpawnFn<C>: Sized {
    type Output;

    fn call(self, cx: C) -> Self::Output;
}

/// A pure transformation threaded over a task's result by `and_then`.
pub trait MapFn<I>: Sized {
    type Output;

    fn apply(self, input: I) -> Self::Output;
}

/// The mapping from a finished task's output to the follow-up batch that
/// `perform` installs. Implemented by host code.
pub trait PerformFn<O, E, S>: Sized {
    fn perform(self, output: O) -> Effects<E, S>;
}

/// A task followed by a transformation of its result: the work value
/// built by `and_then`.
pub struct Chain<W, G> {
    pub work: W,
    pub mapper: G,
}

impl<C, W, G> SpawnFn<C> for Chain<W, G> where W: SpawnFn<C>, G: MapFn<W::Output> {
    type Output = G::Output;

    fn call(self, cx: C) -> Self::Output {
        self.mapper.apply(self.work.call(cx))
    }
}

/// Whether a task is to run on a worker thread or on the host's
/// cooperative async scheduler.
#[derive(Debug, Clone, Copy, PartialEq, Eq, Structural)]
pub enum TaskKind {
    Blocking,
    Async,
}

/// A request handed to the host's spawner: run `work` under `kind`,
/// then, if `after` is present, dispatch the batch it derives from the
/// result. With `after` absent the work runs purely for its side
/// effects and no batch follows.
pub struct SpawnCall<W, P> {
    pub kind: TaskKind,
    pub work: W,
    pub after: Option<P>,
}

/// A deferred unit of work destined for a worker thread.
pub struct ThreadTask<W> {
    pub work: W,
}

impl<W> ThreadTask<W> {
    pub fn new(work: W) -> (r: Self)
        ensures
            r.work == work,
    {
        Self { work }
    }

    /// Thread a transformation over the task's result. This is a pure
    /// composition of the two values; no scheduling occurs.
    pub fn and_then<G>(self, mapper: G) -> (r: ThreadTask<Chain<W, G>>)
        ensures
            r.work == (Chain { work: self.work, mapper }),
    {
        ThreadTask { work: Chain { work: self.work, mapper } }
    }

    /// Convert the task into a spawn request that, once executed by the
    /// host, dispatches the batch derived from the result by `perform`.
    pub fn perform<P>(self, perform: P) -> (r: SpawnCall<W, P>)
        ensures
            r == (SpawnCall { kind: TaskKind::Blocking, work: self.work, after: Some(perform) }),
    {
        SpawnCall { kind: TaskKind::Blocking, work: self.work, after: Some(perform) }
    }
}

/// A deferred unit of work destined for the host's async scheduler.
pub struct AsyncTask<W> {
    pub work: W,
}

impl<W> AsyncTask<W> {
    pub fn new(work: W) -> (r: Self)
        ensures
            r.work == work,
    {
        Self { work }
    }

    /// Thread a transformation over the task's result. This is a pure
    /// composition of the two values; no scheduling occurs.
    pub fn and_then<G>(self, mapper: G) -> (r: AsyncTask<Chain<W, G>>)
        ensures
            r.work == (Chain { work: self.work, mapper }),
    {
        AsyncTask { work: Chain { work: self.work, mapper } }
    }

    /// Convert the task into a spawn request that, once executed by the
    /// host, dispatches the batch derived from the result by `perform`.
    pub fn perform<P>(self, perform: P) -> (r: SpawnCall<W, P>)
        ensures
            r == (SpawnCall { kind: TaskKind::Async, work: self.work, after: Some(perform) }),
    {
        SpawnCall { kind: TaskKind::Async, work: self.work, after: Some(perform) }
    }

    /// Convert the task into a spawn request run purely for its side
    /// effects: no follow-up batch is derived from its result.
    pub fn done<P>(self) -> (r: SpawnCall<W, P>)
        ensures
            r == (SpawnCall { kind: TaskKind::Async, work: self.work, after: None::<P> }),
    {
        SpawnCall { kind: TaskKind::Async, work: self.work, after: None }
    }
}

// ---------------------------------------------------------------------
// Batch builders over spawn requests
// ---------------------------------------------------------------------

/// A batch that still carries an unterminated async task. Its only
/// operations are `perform` and `done`, so a task can never be added to
/// a batch and then silently dropped.
pub struct UnfinishedAsyncEffects<E, W, P> {
    task: AsyncTask<W>,
    batch: Effects<E, SpawnCall<W, P>>,
}

/// A batch that still carries an unterminated thread task. Its only
/// operation is `perform`.
pub struct UnfinishedThreadEffects<E, W, P> {
    task: ThreadTask<W>,
    batch: Effects<E, SpawnCall<W, P>>,
}

impl<E, W, P> Effects<E, SpawnCall<W, P>> {
    /// Append a blocking task together with its terminator.
    #[must_use]
    pub fn spawn(self, task: W, perform: P) -> (r: Self)
        ensures
            r@ == self@.push(
                Op::Spawn(SpawnCall { kind: TaskKind::Blocking, work: task, after: Some(perform) }),
            ),
    {
        self.spawn_request(ThreadTask::new(task).perform(perform))
    }

    /// Start appending an async task; the result must be terminated with
    /// `perform` or `done`.
    #[must_use]
    pub fn task(self, task: W) -> (r: UnfinishedAsyncEffects<E, W, P>)
        ensures
            r.batch_view() == self@,
            r.task_work() == task,
    {
        UnfinishedAsyncEffects { task: AsyncTask::new(task), batch: self }
    }

    /// Start appending a thread task; the result must be terminated with
    /// `perform`.
    #[must_use]
    pub fn thread_task(self, task: W) -> (r: UnfinishedThreadEffects<E, W, P>)
        ensures
            r.batch_view() == self@,
            r.task_work() == task,
    {
        UnfinishedThreadEffects { task: ThreadTask::new(task), batch: self }
    }
}

impl<E, W, P> UnfinishedAsyncEffects<E, W, P> {
    pub closed spec fn batch_view(&self) -> Seq<Op<E, SpawnCall<W, P>>> {
        self.batch@
    }

    pub closed spec fn task_work(&self) -> W {
        self.task.work
    }

    /// Terminate the pending task: on completion the host dispatches the
    /// batch `perform` derives from its result.
    #[must_use]
    pub fn perform(self, perform: P) -> (r: Effects<E, SpawnCall<W, P>>)
        ensures
            r@ == self.batch_view().push(
                Op::Spawn(
                    SpawnCall { kind: TaskKind::Async, work: self.task_work(), after: Some(perform) },
                ),
            ),
    {
        let call = self.task.perform(perform);
        self.batch.spawn_request(call)
    }

    /// Terminate the pending task for its side effects only.
    #[must_use]
    pub fn done(self) -> (r: Effects<E, SpawnCall<W, P>>)
        ensures
            r@ == self.batch_view().push(
                Op::Spawn(
                    SpawnCall { kind: TaskKind::Async, work: self.task_work(), after: None::<P> },
                ),
            ),
    {
        let call = self.task.done();
        self.batch.spawn_request(call)
    }
}

impl<E, W, P> UnfinishedThreadEffects<E, W, P> {
    pub closed spec fn batch_view(&self) -> Seq<Op<E, SpawnCall<W, P>>> {
        self.batch@
    }

    pub closed spec fn task_work(&self) -> W {
        self.task.work
    }

    /// Terminate the pending task: on completion the host dispatches the
    /// batch `perform` derives from its result.
    #[must_use]
    pub fn perform(self, perform: P) -> (r: Effects<E, SpawnCall<W, P>>)
        ensures
            r@ == self.batch_view().push(
                Op::Spawn(
                    SpawnCall {
                        kind: TaskKind::Blocking,
                        work: self.task_work(),
                        after: Some(perform),
                    },
                ),
            ),
    {
        let call = self.task.perform(perform);
        self.batch.spawn_request(call)
    }
}

// ---------------------------------------------------------------------
// The effect channel
// ---------------------------------------------------------------------

/// The cloneable producer half of the effect queue, carried by every
/// context that holds the dispatch capability. Dispatches sent here
/// cross threads and surface at the runtime the next time it ingests
/// its channel.
#[verifier::reject_recursive_types(E)]
#[verifier::reject_recursive_types(S)]
pub struct EffectSender<E, S> {
    tx: crossbeam_channel::Sender<Effects<E, S>>,
}

impl<E, S> Clone for EffectSender<E, S> {
    /// Relies on crossbeam_channel::Sender::clone: the clone is another
    /// producer handle for the same channel.
    #[verifier::external_body]
    fn clone(&self) -> Self {
        Self { tx: self.tx.clone() }
    }
}

impl<E, S> EffectSender<E, S> {
    /// Relies on crossbeam_channel::Sender::send: on an unbounded channel
    /// it never blocks, and fails only when every receiver has been
    /// dropped.
    #[verifier::external_body]
    pub fn dispatch(&self, effects: Effects<E, S>) -> (r: Result<(), EffectError>)
        ensures
            r matches Err(e) ==> e == EffectError::ChannelClosed,
    {
        self.tx.send(effects).map_err(|_| EffectError::ChannelClosed)
    }
}

/// The receiver half of the effect queue, held exclusively by the
/// runtime.
#[verifier::reject_recursive_types(E)]
#[verifier::reject_recursive_types(S)]
pub struct EffectReceiver<E, S> {
    rx: crossbeam_channel::Receiver<Effects<E, S>>,
}

impl<E, S> EffectReceiver<E, S> {
    /// Relies on crossbeam_channel::Receiver::try_recv: it returns a
    /// pending message if one is ready and otherwise returns at once
    /// without blocking.
    #[verifier::external_body]
    pub(crate) fn next_batch(&self) -> Option<Effects<E, S>> {
        self.rx.try_recv().ok()
    }
}

/// The two halves of a fresh effect queue.
#[verifier::reject_recursive_types(E)]
#[verifier::reject_recursive_types(S)]
pub struct EffectQueue<E, S> {
    pub effect_sender: EffectSender<E, S>,
    pub effect_receiver: EffectReceiver<E, S>,
}

impl<E, S> EffectQueue<E, S> {
    /// Relies on crossbeam_channel::unbounded: a fresh first-in-first-out
    /// channel with no capacity bound.
    #[verifier::external_body]
    pub fn new() -> Self {
        let (tx, rx) = crossbeam_channel::unbounded();
        Self {
            effect_sender: EffectSender { tx },
            effect_receiver: EffectReceiver { rx },
        }
    }
}

// ---------------------------------------------------------------------
// The synchronous-dispatch hand-shake
// ---------------------------------------------------------------------

/// The handle returned by `dispatch_sync`: the caller may block on it
/// from a non-runtime thread to learn that the effect has executed.
pub struct SyncHandle {
    rx: tokio::sync::oneshot::Receiver<()>,
}

impl SyncHandle {
    /// Relies on tokio::sync::oneshot::Receiver::blocking_recv: it blocks
    /// until the paired sender fires or is dropped. It must not be called
    /// from inside an async execution context (tokio panics there), so it
    /// is meant for host threads, never for task bodies.
    #[verifier::external_body]
    pub fn wait(self) -> (r: Result<(), EffectError>)
        ensures
            r matches Err(e) ==> e == EffectError::ChannelClosed,
    {
        self.rx.blocking_recv().map_err(|_| EffectError::ChannelClosed)
    }
}

/// Relies on tokio::sync::oneshot::channel: a fresh one-shot pair whose
/// receiver resolves once the sender fires.
#[verifier::external_body]
pub(crate) fn completion_channel() -> (tokio::sync::oneshot::Sender<()>, SyncHandle) {
    let (tx, rx) = tokio::sync::oneshot::channel();
    (tx, SyncHandle { rx })
}

/// Relies on tokio::sync::oneshot::Sender::send: it delivers the signal
/// unless the receiving half has already been dropped, which the
/// hand-shake treats as harmless.
#[verifier::external_body]
pub(crate) fn fire_completion(tx: tokio::sync::oneshot::Sender<()>) {
    let _ = tx.send(());
}

// ---------------------------------------------------------------------
// The dispatch capability
// ---------------------------------------------------------------------

/// Anything that carries an effect-queue producer can dispatch. All of
/// these cross the channel, so they surface at the runtime the next
/// time it ingests; the runtime's own operations enqueue locally
/// instead and carry exact queue contracts.
pub trait DispatchEffect<E, S>: Sized {
    fn effect_sender(&self) -> &EffectSender<E, S>;

    /// Enqueue a batch; never blocks.
    fn dispatch(&self, effects: Effects<E, S>) -> (r: Result<(), EffectError>)
        ensures
            r matches Err(e) ==> e == EffectError::ChannelClosed,
    {
        self.effect_sender().dispatch(effects)
    }

    /// Enqueue a single-effect batch.
    fn trigger(&self, effect: E) -> (r: Result<(), EffectError>)
        ensures
            r matches Err(e) ==> e == EffectError::ChannelClosed,
    {
        let mut batch: Effects<E, S> = Effects::with_capacity(1);
        batch.push_op(Op::Run(effect));
        self.effect_sender().dispatch(batch)
    }

    /// Enqueue a single effect wrapped with a completion signal. The
    /// returned handle resolves after the effect has executed on the
    /// runtime thread; block on it only from another thread.
    fn dispatch_sync(&self, effect: E) -> (r: Result<SyncHandle, EffectError>)
        ensures
            r matches Err(e) ==> e == EffectError::ChannelClosed,
    {
        let (tx, handle) = completion_channel();
        let mut batch: Effects<E, S> = Effects::with_capacity(1);
        batch.push_op(Op::RunSynced(effect, tx));
        match self.effect_sender().dispatch(batch) {
            Ok(()) => Ok(handle),
            Err(e) => Err(e),
        }
    }

    /// Pair a blocking task with its terminator.
    fn spawn<W, P>(&self, task: W, perform: P) -> (r: SpawnCall<W, P>)
        ensures
            r == (SpawnCall { kind: TaskKind::Blocking, work: task, after: Some(perform) }),
    {
        ThreadTask::new(task).perform(perform)
    }

    /// Pair an async task with its terminator.
    fn task<W, P>(&self, task: W, perform: P) -> (r: SpawnCall<W, P>)
        ensures
            r == (SpawnCall { kind: TaskKind::Async, work: task, after: Some(perform) }),
    {
        AsyncTask::new(task).perform(perform)
    }
}

} // verus!
