use vstd::prelude::*;

use std::collections::VecDeque;

use crate::dispatch::{
    completion_channel, fire_completion, DispatchEffect, EffectQueue, EffectReceiver, EffectSender,
    Effects, Op, SyncHandle,
};
use crate::model::Model;
use crate::resource::{ResourceError, Resources};

verus! {

/// One queued operation, executed by the runtime with exclusive access
/// to the effect context. Hosts implement this for their effect type;
/// the batch an execution returns is appended to the queue tail as a
/// follow-up.
pub trait Effect<M, R, S>: Sized {
    fn run(self, cx: &mut EffectContext<M, R, Self, S>) -> Effects<Self, S>;
}

/// What an effect sees while it runs: the model, by exclusive access; a
/// copy of the shared resources; and a producer handle to the effect
/// queue for dispatches that must cross the channel.
#[verifier::reject_recursive_types(E)]
#[verifier::reject_recursive_types(S)]
pub struct EffectContext<M, R, E, S> {
    pub model: M,
    resources: Resources<R>,
    sender: EffectSender<E, S>,
}

impl<M, R, E, S> EffectContext<M, R, E, S> {
    pub closed spec fn model_spec(&self) -> M {
        self.model
    }

    pub closed spec fn resources_view(&self) -> Map<u64, R> {
        self.resources@
    }

    pub closed spec fn resources_wf(&self) -> bool {
        self.resources.wf()
    }

    pub fn model(&self) -> (r: &M)
        ensures
            *r == self.model_spec(),
    {
        &self.model
    }

    pub fn model_mut(&mut self) -> (r: &mut M)
        ensures
            *r == old(self).model_spec(),
            final(self).model_spec() == *final(r),
            final(self).resources_view() == old(self).resources_view(),
            final(self).resources_wf() == old(self).resources_wf(),
    {
        &mut self.model
    }

    /// Enqueue a batch through the channel; it surfaces at the runtime's
    /// next ingest.
    pub fn dispatch(&self, effects: Effects<E, S>) -> (r: Result<(), crate::dispatch::EffectError>)
        ensures
            r matches Err(e) ==> e == crate::dispatch::EffectError::ChannelClosed,
    {
        self.sender.dispatch(effects)
    }

    pub fn sender(&self) -> EffectSender<E, S> {
        self.sender.clone()
    }
}

impl<M, R: Clone, E, S> EffectContext<M, R, E, S> {
    pub fn try_resource(&self, key: u64) -> (r: Option<R>)
        requires
            self.resources_wf(),
        ensures
            r matches Some(v) ==> self.resources_view().contains_key(key) && cloned(
                self.resources_view()[key],
                v,
            ),
            r is None <==> !self.resources_view().contains_key(key),
    {
        self.resources.try_resource(key)
    }

    pub fn resource(&self, key: u64) -> (r: R)
        requires
            self.resources_wf(),
            self.resources_view().contains_key(key),
        ensures
            cloned(self.resources_view()[key], r),
    {
        self.resources.resource(key)
    }
}

impl<M: Model, R, E, S> EffectContext<M, R, E, S> {
    /// The snapshot of the model as it stands now: an independent copy,
    /// safe to hand across threads.
    pub fn create_snapshot(&self) -> (r: M::Snapshot)
        ensures
            r == self.model_spec().snapshot_spec(),
    {
        self.model.into_snapshot()
    }
}

// ---------------------------------------------------------------------
// Spec-level views of queue history
// ---------------------------------------------------------------------

/// The contents of a queue of batches, batch by batch.
pub open spec fn batches_view<E, S>(q: Seq<Effects<E, S>>) -> Seq<Seq<Op<E, S>>> {
    q.map_values(|b: Effects<E, S>| b@)
}

/// The spawn requests among a sequence of executed operations, in
/// execution order.
pub open spec fn spawn_calls<E, S>(ops: Seq<Op<E, S>>) -> Seq<S>
    decreases ops.len(),
{
    if ops.len() == 0 {
        Seq::empty()
    } else {
        spawn_calls(ops.drop_last()) + (match ops.last() {
            Op::Spawn(s) => seq![s],
            _ => Seq::<S>::empty(),
        })
    }
}

proof fn lemma_spawn_calls_push<E, S>(ops: Seq<Op<E, S>>, op: Op<E, S>)
    ensures
        spawn_calls(ops.push(op)) == spawn_calls(ops) + (match op {
            Op::Spawn(s) => seq![s],
            _ => Seq::<S>::empty(),
        }),
{
    assert(ops.push(op).drop_last() =~= ops);
    assert(ops.push(op).last() == op);
}

proof fn lemma_flatten_push_eq<A>(s: Seq<Seq<A>>, x: Seq<A>)
    ensures
        s.push(x).flatten() == s.flatten() + x,
{
    broadcast use Seq::lemma_flatten_push;

    assert(s.push(x).flatten() =~= s.flatten() + x);
}

/// Once a drain reaches quiescence, the executed log is the arrived log
/// flattened, so every operation of every arrived batch has run. In
/// particular a follow-up batch appended while the final queued batch
/// was executing has itself been executed before the drain returned,
/// and so has the wrapped effect of every accepted synchronous
/// dispatch.
pub proof fn lemma_quiescent_executes_all<E, S>(
    arrived: Seq<Seq<Op<E, S>>>,
    executed: Seq<Op<E, S>>,
    i: int,
    j: int,
)
    requires
        executed == arrived.flatten(),
        0 <= i < arrived.len(),
        0 <= j < arrived[i].len(),
    ensures
        executed.contains(arrived[i][j]),
    decreases i,
{
    assert(arrived.flatten() == arrived.first() + arrived.drop_first().flatten());
    if i == 0 {
        assert(executed[j] == arrived[0][j]);
    } else {
        let sub = arrived.drop_first();
        lemma_quiescent_executes_all(sub, sub.flatten(), i - 1, j);
        let k = choose|k: int|
            0 <= k < sub.flatten().len() && sub.flatten()[k] == sub[i - 1][j];
        assert(executed[arrived.first().len() + k] == arrived[i][j]);
    }
}

// ---------------------------------------------------------------------
// The runtime
// ---------------------------------------------------------------------

/// The runtime: it owns the model, holds the shared resources and the
/// two halves of the effect queue, and drives the drain loop.
///
/// Two ghost logs record its history. `arrived` holds every batch the
/// runtime has accepted, in arrival order: local dispatches, batches
/// ingested from the channel, and follow-ups appended by executing
/// effects. `executed` holds every operation that has run, in execution
/// order. The central invariant says the executed log plus what is
/// still pending is exactly the arrived log, flattened: operations run
/// in batch arrival order, and inside a batch in insertion order.
#[verifier::reject_recursive_types(E)]
#[verifier::reject_recursive_types(S)]
pub struct Syzygy<M, R, E, S> {
    resources: Resources<R>,
    sender: EffectSender<E, S>,
    receiver: EffectReceiver<E, S>,
    cx: EffectContext<M, R, E, S>,
    pending: VecDeque<Effects<E, S>>,
    spawns: Vec<S>,
    collected: Ghost<Seq<S>>,
    arrived: Ghost<Seq<Seq<Op<E, S>>>>,
    executed: Ghost<Seq<Op<E, S>>>,
}

/// Accumulates the model and the resources; `build` materializes the
/// effect queue and hands back the runtime.
pub struct SyzygyBuilder<M, R> {
    model: Option<M>,
    resources: Resources<R>,
}

impl<M, R> SyzygyBuilder<M, R> {
    pub closed spec fn model_opt(&self) -> Option<M> {
        self.model
    }

    pub closed spec fn resources_view(&self) -> Map<u64, R> {
        self.resources@
    }

    pub closed spec fn resources_wf(&self) -> bool {
        self.resources.wf()
    }

    pub fn new() -> (r: Self)
        ensures
            r.model_opt() is None,
            r.resources_view() == Map::<u64, R>::empty(),
            r.resources_wf(),
    {
        Self { model: None, resources: Resources::new() }
    }

    /// Set the model the runtime will own.
    #[must_use]
    pub fn model(self, model: M) -> (r: Self)
        ensures
            r.model_opt() == Some(model),
            r.resources_view() == self.resources_view(),
            r.resources_wf() == self.resources_wf(),
    {
        Self { model: Some(model), resources: self.resources }
    }

    /// Provision one resource under `key`. Keys are unique: re-inserting
    /// a key already provisioned is an error, and the builder is
    /// consumed, as an abandoned build would be.
    pub fn resource(self, key: u64, value: R) -> (r: Result<Self, ResourceError>)
        requires
            self.resources_wf(),
        ensures
            self.resources_view().contains_key(key) ==> r == Err::<Self, ResourceError>(
                ResourceError::AlreadyExists,
            ),
            !self.resources_view().contains_key(key) ==> (r matches Ok(b) && b.model_opt()
                == self.model_opt() && b.resources_view() == self.resources_view().insert(
                key,
                value,
            ) && b.resources_wf()),
    {
        let mut resources = self.resources;
        match resources.insert(key, value) {
            Ok(()) => Ok(Self { model: self.model, resources }),
            Err(e) => Err(e),
        }
    }

    /// Materialize the runtime: a fresh effect queue, the model by
    /// value, and the resources shared with the effect context. All
    /// logs start empty.
    pub fn build<E, S>(self) -> (r: Syzygy<M, R, E, S>) where R: Clone
        requires
            self.model_opt() is Some,
            self.resources_wf(),
        ensures
            r.wf(),
            Some(r.model_spec()) == self.model_opt(),
            r.resources_view() == self.resources_view(),
            r.arrived_log() == Seq::<Seq<Op<E, S>>>::empty(),
            r.executed_log() == Seq::<Op<E, S>>::empty(),
            r.pending_view() == Seq::<Seq<Op<E, S>>>::empty(),
            r.spawn_log() == Seq::<S>::empty(),
            r.collected_log() == Seq::<S>::empty(),
    {
        let model = match self.model {
            Some(m) => m,
            None => {
                proof {
                    assert(false);
                }
                unreached()
            },
        };
        let queue = EffectQueue::<E, S>::new();
        let cx = EffectContext {
            model,
            resources: self.resources.clone(),
            sender: queue.effect_sender.clone(),
        };
        let runtime = Syzygy {
            resources: self.resources,
            sender: queue.effect_sender,
            receiver: queue.effect_receiver,
            cx,
            pending: VecDeque::new(),
            spawns: Vec::new(),
            collected: Ghost(Seq::empty()),
            arrived: Ghost(Seq::empty()),
            executed: Ghost(Seq::empty()),
        };
        proof {
            assert(runtime.pending_view() =~= Seq::<Seq<Op<E, S>>>::empty());
            assert(runtime.pending_view().flatten() =~= Seq::<Op<E, S>>::empty());
            assert(runtime.executed_log() + runtime.pending_view().flatten() =~= runtime.arrived_log().flatten());
            assert(runtime.collected_log() + runtime.spawn_log() =~= spawn_calls(runtime.executed_log()));
        }
        runtime
    }
}

impl<M, R, E, S> Syzygy<M, R, E, S> {
    /// Start building a runtime.
    pub fn builder() -> (r: SyzygyBuilder<M, R>)
        ensures
            r.model_opt() is None,
            r.resources_view() == Map::<u64, R>::empty(),
            r.resources_wf(),
    {
        SyzygyBuilder::new()
    }

    pub closed spec fn model_spec(&self) -> M {
        self.cx.model
    }

    pub closed spec fn resources_view(&self) -> Map<u64, R> {
        self.resources@
    }

    /// Every batch accepted so far, in arrival order.
    pub closed spec fn arrived_log(&self) -> Seq<Seq<Op<E, S>>> {
        self.arrived@
    }

    /// Every operation executed so far, in execution order.
    pub closed spec fn executed_log(&self) -> Seq<Op<E, S>> {
        self.executed@
    }

    /// The batches accepted but not yet executed, in order.
    pub closed spec fn pending_view(&self) -> Seq<Seq<Op<E, S>>> {
        batches_view(self.pending@)
    }

    /// The spawn requests waiting for the host, in execution order.
    pub closed spec fn spawn_log(&self) -> Seq<S> {
        self.spawns@
    }

    /// The spawn requests already handed to the host.
    pub closed spec fn collected_log(&self) -> Seq<S> {
        self.collected@
    }

    /// What has run plus what is still queued is exactly what has
    /// arrived, in order; and the spawn requests handed out or waiting
    /// are exactly the spawn operations executed, in order.
    pub open spec fn wf(&self) -> bool {
        &&& self.executed_log() + self.pending_view().flatten() == self.arrived_log().flatten()
        &&& self.collected_log() + self.spawn_log() == spawn_calls(self.executed_log())
        &&& self.resources_wf()
    }

    pub closed spec fn resources_wf(&self) -> bool {
        self.resources.wf()
    }

    pub fn model(&self) -> (r: &M)
        ensures
            *r == self.model_spec(),
    {
        &self.cx.model
    }

    pub fn model_mut(&mut self) -> (r: &mut M)
        ensures
            *r == old(self).model_spec(),
            final(self).model_spec() == *final(r),
            final(self).arrived_log() == old(self).arrived_log(),
            final(self).executed_log() == old(self).executed_log(),
            final(self).pending_view() == old(self).pending_view(),
            final(self).spawn_log() == old(self).spawn_log(),
            final(self).collected_log() == old(self).collected_log(),
            final(self).resources_view() == old(self).resources_view(),
            old(self).wf() ==> final(self).wf(),
    {
        &mut self.cx.model
    }

    /// A fresh producer handle onto the effect queue, for host threads
    /// and contexts.
    pub fn sender(&self) -> EffectSender<E, S> {
        self.sender.clone()
    }

    /// The shared resources, for building projected contexts.
    pub fn resources(&self) -> (r: &Resources<R>)
        ensures
            r@ == self.resources_view(),
            r.wf() == self.resources_wf(),
    {
        &self.resources
    }

    /// Accept a batch: it is appended to the queue tail, after
    /// everything that has already arrived.
    pub fn dispatch(&mut self, effects: Effects<E, S>)
        requires
            old(self).wf(),
        ensures
            final(self).wf(),
            final(self).arrived_log() == old(self).arrived_log().push(effects@),
            final(self).pending_view() == old(self).pending_view().push(effects@),
            final(self).executed_log() == old(self).executed_log(),
            final(self).spawn_log() == old(self).spawn_log(),
            final(self).collected_log() == old(self).collected_log(),
            final(self).model_spec() == old(self).model_spec(),
            final(self).resources_view() == old(self).resources_view(),
    {
        proof {
            lemma_flatten_push_eq(self.arrived@, effects@);
            lemma_flatten_push_eq(self.pending_view(), effects@);
        }
        let ghost b = effects@;
        self.pending.push_back(effects);
        proof {
            self.arrived@ = self.arrived@.push(b);
            assert(self.pending_view() =~= old(self).pending_view().push(b));
            assert(self.executed_log() + self.pending_view().flatten() =~= self.arrived_log().flatten());
        }
    }

    /// Enqueue a single effect.
    pub fn trigger(&mut self, effect: E)
        requires
            old(self).wf(),
        ensures
            final(self).wf(),
            final(self).arrived_log() == old(self).arrived_log().push(
                Seq::<Op<E, S>>::empty().push(Op::Run(effect)),
            ),
            final(self).executed_log() == old(self).executed_log(),
            final(self).spawn_log() == old(self).spawn_log(),
            final(self).model_spec() == old(self).model_spec(),
    {
        self.dispatch(Effects::from(effect))
    }

    /// Enqueue a single effect wrapped so that, right after it executes,
    /// a completion signal fires. The returned handle can be blocked on
    /// from a non-runtime thread; blocking on it from the runtime thread
    /// before draining would deadlock.
    pub fn dispatch_sync(&mut self, effect: E) -> (h: SyncHandle)
        requires
            old(self).wf(),
        ensures
            final(self).wf(),
            final(self).arrived_log().len() == old(self).arrived_log().len() + 1,
            old(self).arrived_log().is_prefix_of(final(self).arrived_log()),
            final(self).arrived_log().last().len() == 1,
            final(self).arrived_log().last()[0] matches Op::RunSynced(e, _) && e == effect,
            final(self).executed_log() == old(self).executed_log(),
            final(self).spawn_log() == old(self).spawn_log(),
            final(self).model_spec() == old(self).model_spec(),
    {
        let (tx, handle) = completion_channel();
        let mut batch: Effects<E, S> = Effects::with_capacity(1);
        batch.push_op(Op::RunSynced(effect, tx));
        self.dispatch(batch);
        proof {
            assert(old(self).arrived_log().is_prefix_of(self.arrived_log()));
        }
        handle
    }

    /// Hand the accumulated spawn requests to the host, in the order the
    /// spawn operations executed.
    pub fn take_spawns(&mut self) -> (r: Vec<S>)
        requires
            old(self).wf(),
        ensures
            final(self).wf(),
            r@ == old(self).spawn_log(),
            final(self).spawn_log() == Seq::<S>::empty(),
            final(self).collected_log() == old(self).collected_log() + old(self).spawn_log(),
            final(self).arrived_log() == old(self).arrived_log(),
            final(self).executed_log() == old(self).executed_log(),
            final(self).pending_view() == old(self).pending_view(),
            final(self).model_spec() == old(self).model_spec(),
    {
        let mut out: Vec<S> = Vec::new();
        std::mem::swap(&mut out, &mut self.spawns);
        proof {
            self.collected@ = self.collected@ + out@;
            assert(self.collected_log() + self.spawn_log() =~= spawn_calls(self.executed_log()));
        }
        out
    }

    /// Pull every batch now waiting in the channel into the local queue,
    /// in channel order. Each ingested batch is a new arrival.
    fn ingest(&mut self)
        requires
            old(self).wf(),
        ensures
            final(self).wf(),
            old(self).arrived_log().is_prefix_of(final(self).arrived_log()),
            final(self).pending_view() == old(self).pending_view() + final(self).arrived_log().skip(
                old(self).arrived_log().len() as int,
            ),
            final(self).executed_log() == old(self).executed_log(),
            final(self).spawn_log() == old(self).spawn_log(),
            final(self).collected_log() == old(self).collected_log(),
            final(self).model_spec() == old(self).model_spec(),
            final(self).resources_view() == old(self).resources_view(),
    {
        let mut more = true;
        let mut fuel: usize = usize::MAX;
        while more && fuel > 0
            invariant
                self.wf(),
                old(self).arrived_log().is_prefix_of(self.arrived_log()),
                self.pending_view() == old(self).pending_view() + self.arrived_log().skip(
                    old(self).arrived_log().len() as int,
                ),
                self.executed_log() == old(self).executed_log(),
                self.spawn_log() == old(self).spawn_log(),
                self.collected_log() == old(self).collected_log(),
                self.model_spec() == old(self).model_spec(),
                self.resources_view() == old(self).resources_view(),
            decreases fuel,
        {
            fuel -= 1;
            match self.receiver.next_batch() {
                None => {
                    more = false;
                },
                Some(batch) => {
                    proof {
                        lemma_flatten_push_eq(self.arrived@, batch@);
                        lemma_flatten_push_eq(self.pending_view(), batch@);
                    }
                    let ghost b = batch@;
                    let ghost pre = *self;
                    self.pending.push_back(batch);
                    proof {
                        self.arrived@ = self.arrived@.push(b);
                        assert(self.pending_view() =~= pre.pending_view().push(b));
                        assert(self.executed_log() + self.pending_view().flatten()
                            =~= self.arrived_log().flatten());
                        assert(self.pending_view() =~= old(self).pending_view()
                            + self.arrived_log().skip(old(self).arrived_log().len() as int));
                    }
                },
            }
        }
    }
}

impl<M, R, E, S> DispatchEffect<E, S> for Syzygy<M, R, E, S> {
    fn effect_sender(&self) -> &EffectSender<E, S> {
        &self.sender
    }
}

impl<M, R: Clone, E, S> Syzygy<M, R, E, S> {
    /// Look up the value provisioned under `key`; `None` exactly when
    /// nothing is there.
    pub fn try_resource(&self, key: u64) -> (r: Option<R>)
        requires
            self.wf(),
        ensures
            r matches Some(v) ==> self.resources_view().contains_key(key) && cloned(
                self.resources_view()[key],
                v,
            ),
            r is None <==> !self.resources_view().contains_key(key),
    {
        self.resources.try_resource(key)
    }

    /// Look up the value provisioned under `key`, which must be present.
    pub fn resource(&self, key: u64) -> (r: R)
        requires
            self.wf(),
            self.resources_view().contains_key(key),
        ensures
            cloned(self.resources_view()[key], r),
    {
        self.resources.resource(key)
    }
}

impl<M: Model, R, E, S> Syzygy<M, R, E, S> {
    /// The snapshot of the model as it stands now, reflecting every
    /// mutation applied so far. The result is an owned, independent
    /// copy: later mutations leave it untouched.
    pub fn create_snapshot(&self) -> (r: M::Snapshot)
        ensures
            r == self.model_spec().snapshot_spec(),
    {
        self.cx.model.into_snapshot()
    }
}

impl<M, R, E: Effect<M, R, S>, S> Syzygy<M, R, E, S> {
    /// Run the drain loop to quiescence. Each round first ingests every
    /// batch waiting in the channel, then executes the front batch,
    /// operation by operation, with exclusive access to the effect
    /// context. A non-empty batch returned by an effect is appended to
    /// the queue tail, so follow-ups run after every batch already
    /// accepted; spawn operations are set aside for the host in
    /// execution order.
    ///
    /// The loop carries a step budget so large that no host can exhaust
    /// it; the contract carries the budget case anyway. In the ordinary
    /// case the queue is empty afterwards, and the executed log is
    /// exactly the arrived log flattened: batches execute in arrival
    /// order, operations in insertion order, follow-ups at the tail.
    /// When nothing had arrived and nothing was pending, the drain is a
    /// no-op.
    pub fn handle_effects(&mut self)
        requires
            old(self).wf(),
        ensures
            final(self).wf(),
            old(self).arrived_log().is_prefix_of(final(self).arrived_log()),
            old(self).executed_log().is_prefix_of(final(self).executed_log()),
            final(self).collected_log() == old(self).collected_log(),
            final(self).resources_view() == old(self).resources_view(),
            final(self).pending_view().len() == 0 || old(self).pending_view().len() + final(self).arrived_log().len() - old(self).arrived_log().len() >= usize::MAX as int,
            final(self).pending_view().len() == 0 ==> final(self).executed_log() == final(self).arrived_log().flatten(),
            old(self).pending_view().len() == 0 && final(self).arrived_log() == old(self).arrived_log() ==> final(self).model_spec() == old(self).model_spec() && final(self).executed_log() == old(self).executed_log() && final(self).spawn_log() == old(self).spawn_log() && final(self).pending_view().len() == 0,
    {
        let ghost mut popped: int = 0;
        let mut running = true;
        let mut fuel: usize = usize::MAX;
        while running && fuel > 0
            invariant
                self.wf(),
                old(self).arrived_log().is_prefix_of(self.arrived_log()),
                old(self).executed_log().is_prefix_of(self.executed_log()),
                self.collected_log() == old(self).collected_log(),
                self.resources_view() == old(self).resources_view(),
                !running ==> self.pending_view().len() == 0,
                popped + self.pending_view().len() == self.arrived_log().len() - old(self).arrived_log().len() + old(self).pending_view().len(),
                running ==> popped == usize::MAX - fuel,
                old(self).pending_view().len() == 0 && self.arrived_log() == old(self).arrived_log() ==> self.model_spec() == old(self).model_spec()
                    && self.executed_log() == old(self).executed_log() && self.spawn_log() == old(self).spawn_log() && self.pending_view().len() == 0,
            decreases fuel,
        {
            fuel -= 1;
            let ghost before_ingest = *self;
            self.ingest();
            proof {
                if self.arrived_log() == old(self).arrived_log() {
                    assert(before_ingest.arrived_log().is_prefix_of(self.arrived_log()));
                    assert(before_ingest.arrived_log().len() == self.arrived_log().len());
                    assert(before_ingest.arrived_log() =~= self.arrived_log());
                    assert(self.pending_view() =~= before_ingest.pending_view());
                }
            }
            if self.pending.len() == 0 {
                running = false;
            } else {
                proof {
                    popped = popped + 1;
                    if old(self).pending_view().len() == 0 {
                        if self.arrived_log() == old(self).arrived_log() {
                            assert(self.pending_view().len() == 0);
                            assert(false);
                        }
                        assert(self.arrived_log().len() > old(self).arrived_log().len());
                    }
                }
                let ghost before_pop = *self;
                let batch = match self.pending.pop_front() {
                    Some(b) => b,
                    None => {
                        proof {
                            assert(false);
                        }
                        unreached()
                    },
                };
                proof {
                    assert(before_pop.pending_view() =~= batches_view(before_pop.pending@));
                    assert(self.pending_view() =~= before_pop.pending_view().drop_first());
                    assert(before_pop.pending_view() =~= seq![batch@] + self.pending_view());
                    assert(before_pop.pending_view().flatten() == batch@
                        + self.pending_view().flatten());
                }
                let mut ops = batch.into_items();
                while ops.len() > 0
                    invariant
                        self.executed_log() + ops@ + self.pending_view().flatten()
                            == self.arrived_log().flatten(),
                        self.collected_log() + self.spawn_log() == spawn_calls(
                            self.executed_log(),
                        ),
                        self.resources_wf(),
                        old(self).arrived_log().is_prefix_of(self.arrived_log()),
                        old(self).executed_log().is_prefix_of(self.executed_log()),
                        self.collected_log() == old(self).collected_log(),
                        self.resources_view() == old(self).resources_view(),
                        popped + self.pending_view().len() == self.arrived_log().len() - old(self).arrived_log().len() + old(self).pending_view().len(),
                        old(self).pending_view().len() == 0 ==> self.arrived_log().len() > old(self).arrived_log().len(),
                    decreases ops.len(),
                {
                    let ghost ops_before = ops@;
                    let op = ops.remove(0);
                    let ghost g = op;
                    proof {
                        assert(ops_before =~= seq![g] + ops@);
                    }
                    match op {
                        Op::Run(e) => {
                            let fx = e.run(&mut self.cx);
                            self.finish_op(Ghost(g), fx);
                            proof {
                                assert(self.executed_log() + ops@ + self.pending_view().flatten()
                                    =~= self.arrived_log().flatten());
                                assert(old(self).arrived_log() =~= self.arrived_log().subrange(
                                    0,
                                    old(self).arrived_log().len() as int,
                                ));
                                assert(old(self).executed_log() =~= self.executed_log().subrange(
                                    0,
                                    old(self).executed_log().len() as int,
                                ));
                            }
                        },
                        Op::RunSynced(e, tx) => {
                            let fx = e.run(&mut self.cx);
                            fire_completion(tx);
                            self.finish_op(Ghost(g), fx);
                            proof {
                                assert(self.executed_log() + ops@ + self.pending_view().flatten()
                                    =~= self.arrived_log().flatten());
                                assert(old(self).arrived_log() =~= self.arrived_log().subrange(
                                    0,
                                    old(self).arrived_log().len() as int,
                                ));
                                assert(old(self).executed_log() =~= self.executed_log().subrange(
                                    0,
                                    old(self).executed_log().len() as int,
                                ));
                            }
                        },
                        Op::Spawn(request) => {
                            self.spawns.push(request);
                            proof {
                                lemma_spawn_calls_push(self.executed@, g);
                                self.executed@ = self.executed@.push(g);
                                assert(self.collected_log() + self.spawn_log() =~= spawn_calls(
                                    self.executed_log(),
                                ));
                                assert(self.executed_log() + ops@ + self.pending_view().flatten()
                                    =~= self.arrived_log().flatten());
                            }
                        },
                    }
                }
                proof {
                    assert(self.executed_log() + self.pending_view().flatten()
                        =~= self.arrived_log().flatten());
                    if old(self).pending_view().len() == 0 {
                        assert(self.arrived_log() != old(self).arrived_log());
                    }
                }
            }
        }
        proof {
            if self.pending_view().len() == 0 {
                assert(self.pending_view() =~= Seq::<Seq<Op<E, S>>>::empty());
                assert(self.pending_view().flatten() =~= Seq::<Op<E, S>>::empty());
                assert(self.executed_log() =~= self.executed_log()
                    + self.pending_view().flatten());
            }
        }
    }

    /// Record one executed operation and enqueue its follow-up batch at
    /// the tail, if it is non-empty.
    fn finish_op(&mut self, op: Ghost<Op<E, S>>, followup: Effects<E, S>)
        requires
            op@ matches Op::Run(_) || op@ matches Op::RunSynced(_, _),
            old(self).collected_log() + old(self).spawn_log() == spawn_calls(
                old(self).executed_log(),
            ),
        ensures
            followup@.len() == 0 ==> final(self).arrived_log() == old(self).arrived_log()
                && final(self).pending_view() == old(self).pending_view(),
            followup@.len() != 0 ==> final(self).arrived_log() == old(self).arrived_log().push(
                followup@,
            ) && final(self).pending_view() == old(self).pending_view().push(followup@),
            old(self).arrived_log().is_prefix_of(final(self).arrived_log()),
            final(self).arrived_log().flatten() == old(self).arrived_log().flatten() + (
            if followup@.len() == 0 {
                Seq::<Op<E, S>>::empty()
            } else {
                followup@
            }),
            final(self).pending_view().flatten() == old(self).pending_view().flatten() + (
            if followup@.len() == 0 {
                Seq::<Op<E, S>>::empty()
            } else {
                followup@
            }),
            final(self).arrived_log().len() - old(self).arrived_log().len() == final(self).pending_view().len() - old(self).pending_view().len(),
            final(self).executed_log() == old(self).executed_log().push(op@),
            final(self).spawn_log() == old(self).spawn_log(),
            final(self).collected_log() == old(self).collected_log(),
            final(self).collected_log() + final(self).spawn_log() == spawn_calls(
                final(self).executed_log(),
            ),
            final(self).resources_view() == old(self).resources_view(),
            final(self).resources_wf() == old(self).resources_wf(),
    {
        proof {
            lemma_spawn_calls_push(self.executed@, op@);
            self.executed@ = self.executed@.push(op@);
            assert(self.collected_log() + self.spawn_log() =~= spawn_calls(self.executed_log()));
        }
        if followup.len() > 0 {
            proof {
                lemma_flatten_push_eq(self.arrived@, followup@);
                lemma_flatten_push_eq(self.pending_view(), followup@);
            }
            let ghost b = followup@;
            let ghost pre = *self;
            self.pending.push_back(followup);
            proof {
                self.arrived@ = self.arrived@.push(b);
                assert(self.pending_view() =~= pre.pending_view().push(b));
            }
        }
        proof {
            if followup@.len() == 0 {
                assert(self.arrived_log().flatten() =~= old(self).arrived_log().flatten()
                    + Seq::<Op<E, S>>::empty());
                assert(self.pending_view().flatten() =~= old(self).pending_view().flatten()
                    + Seq::<Op<E, S>>::empty());
            }
            assert(old(self).arrived_log() =~= self.arrived_log().subrange(
                0,
                old(self).arrived_log().len() as int,
            ));
        }
    }
}

} // verus!
