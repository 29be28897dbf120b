use vstd::prelude::*;

use crate::dispatch::{DispatchEffect, EffectError, EffectSender, Effects};
use crate::event_bus::{EmitEvent, EventSender};
use crate::model::Model as ModelTrait;
use crate::resource::Resources;
use crate::syzygy::Syzygy;

verus! {

// ---------------------------------------------------------------------
// The capability projection system
// ---------------------------------------------------------------------

/// A context: a value that projects some subset of the runtime's
/// capabilities to a call site. Its `execute` computes a callable's
/// arguments by extraction and invokes it; a call site can only ask
/// for extractors whose capability obligations the ambient context
/// discharges.
pub trait Context: Sized {
    fn execute<T, O, F: ContextExecutor<Self, T, O>>(&self, f: F) -> (r: O)
        requires
            f.callable(*self),
        ensures
            f.outcome(*self, r),
    {
        f.call(self)
    }
}

/// A whole context built by projection out of another: the projected
/// value copies the handles it needs.
pub trait FromContext<C>: Sized {
    fn from_context(cx: &C) -> Self;
}

/// The converse of `FromContext`, for free.
pub trait IntoContext<C>: Sized {
    fn into_context(self) -> C;
}

impl<C: FromContext<T>, T> IntoContext<C> for T {
    fn into_context(self) -> C {
        C::from_context(&self)
    }
}

/// One callable parameter extracted from a context. `required` states
/// the capability the extraction leans on; extraction is only possible
/// where the ambient context discharges it. `extracted` relates the
/// extracted value to the context it came from.
pub trait BorrowFromContext<C>: Sized {
    spec fn required(cx: C) -> bool;

    spec fn extracted(cx: C, r: Self) -> bool;

    fn from_context(cx: &C) -> (r: Self)
        requires
            Self::required(*cx),
        ensures
            Self::extracted(*cx, r),
    ;
}

/// A callable whose parameters are extracted from a context `C`. The
/// parameter `T` is the tuple of extracted parameter types. `callable`
/// collects the extractors' capability obligations; `outcome` says the
/// result came from one invocation of the callable on arguments
/// extracted from the context.
pub trait ContextExecutor<C, T, O>: Sized {
    spec fn callable(&self, cx: C) -> bool;

    spec fn outcome(&self, cx: C, r: O) -> bool;

    fn call(self, cx: &C) -> (r: O)
        requires
            self.callable(*cx),
        ensures
            self.outcome(*cx, r),
    ;
}

impl<C, F: FnOnce() -> O, O> ContextExecutor<C, (), O> for F {
    open spec fn callable(&self, cx: C) -> bool {
        call_requires(*self, ())
    }

    open spec fn outcome(&self, cx: C, r: O) -> bool {
        call_ensures(*self, (), r)
    }

    fn call(self, cx: &C) -> (r: O) {
        self()
    }
}

impl<
    C,
    F: FnOnce(T1) -> O,
    T1: BorrowFromContext<C>,
    O,
> ContextExecutor<C, (T1,), O> for F {
    open spec fn callable(&self, cx: C) -> bool {
        T1::required(cx) && forall|a: (T1,)| call_requires(*self, a)
    }

    open spec fn outcome(&self, cx: C, r: O) -> bool {
        exists|a: (T1,)| T1::extracted(cx, a.0) && #[trigger] call_ensures(*self, a, r)
    }

    fn call(self, cx: &C) -> (r: O) {
        let t1 = T1::from_context(cx);
        let ghost a = (t1,);
        let ghost f = self;
        let r = self(t1);
        proof {
            assert(T1::extracted(*cx, a.0) && call_ensures(f, a, r));
        }
        r
    }
}

impl<
    C,
    F: FnOnce(T1, T2) -> O,
    T1: BorrowFromContext<C>,
    T2: BorrowFromContext<C>,
    O,
> ContextExecutor<C, (T1, T2), O> for F {
    open spec fn callable(&self, cx: C) -> bool {
        T1::required(cx) && T2::required(cx) && forall|a: (T1, T2)| call_requires(*self, a)
    }

    open spec fn outcome(&self, cx: C, r: O) -> bool {
        exists|a: (T1, T2)| T1::extracted(cx, a.0) && T2::extracted(cx, a.1) && #[trigger] call_ensures(*self, a, r)
    }

    fn call(self, cx: &C) -> (r: O) {
        let t1 = T1::from_context(cx);
        let t2 = T2::from_context(cx);
        let ghost a = (t1, t2);
        let ghost f = self;
        let r = self(t1, t2);
        proof {
            assert(T1::extracted(*cx, a.0) && T2::extracted(*cx, a.1) && call_ensures(f, a, r));
        }
        r
    }
}

impl<
    C,
    F: FnOnce(T1, T2, T3) -> O,
    T1: BorrowFromContext<C>,
    T2: BorrowFromContext<C>,
    T3: BorrowFromContext<C>,
    O,
> ContextExecutor<C, (T1, T2, T3), O> for F {
    open spec fn callable(&self, cx: C) -> bool {
        T1::required(cx) && T2::required(cx) && T3::required(cx) && forall|a: (T1, T2, T3)| call_requires(*self, a)
    }

    open spec fn outcome(&self, cx: C, r: O) -> bool {
        exists|a: (T1, T2, T3)| T1::extracted(cx, a.0) && T2::extracted(cx, a.1) && T3::extracted(cx, a.2) && #[trigger] call_ensures(*self, a, r)
    }

    fn call(self, cx: &C) -> (r: O) {
        let t1 = T1::from_context(cx);
        let t2 = T2::from_context(cx);
        let t3 = T3::from_context(cx);
        let ghost a = (t1, t2, t3);
        let ghost f = self;
        let r = self(t1, t2, t3);
        proof {
            assert(T1::extracted(*cx, a.0) && T2::extracted(*cx, a.1) && T3::extracted(*cx, a.2) && call_ensures(f, a, r));
        }
        r
    }
}

impl<
    C,
    F: FnOnce(T1, T2, T3, T4) -> O,
    T1: BorrowFromContext<C>,
    T2: BorrowFromContext<C>,
    T3: BorrowFromContext<C>,
    T4: BorrowFromContext<C>,
    O,
> ContextExecutor<C, (T1, T2, T3, T4), O> for F {
    open spec fn callable(&self, cx: C) -> bool {
        T1::required(cx) && T2::required(cx) && T3::required(cx) && T4::required(cx) && forall|a: (T1, T2, T3, T4)| call_requires(*self, a)
    }

    open spec fn outcome(&self, cx: C, r: O) -> bool {
        exists|a: (T1, T2, T3, T4)| T1::extracted(cx, a.0) && T2::extracted(cx, a.1) && T3::extracted(cx, a.2) && T4::extracted(cx, a.3) && #[trigger] call_ensures(*self, a, r)
    }

    fn call(self, cx: &C) -> (r: O) {
        let t1 = T1::from_context(cx);
        let t2 = T2::from_context(cx);
        let t3 = T3::from_context(cx);
        let t4 = T4::from_context(cx);
        let ghost a = (t1, t2, t3, t4);
        let ghost f = self;
        let r = self(t1, t2, t3, t4);
        proof {
            assert(T1::extracted(*cx, a.0) && T2::extracted(*cx, a.1) && T3::extracted(*cx, a.2) && T4::extracted(*cx, a.3) && call_ensures(f, a, r));
        }
        r
    }
}

impl<
    C,
    F: FnOnce(T1, T2, T3, T4, T5) -> O,
    T1: BorrowFromContext<C>,
    T2: BorrowFromContext<C>,
    T3: BorrowFromContext<C>,
    T4: BorrowFromContext<C>,
    T5: BorrowFromContext<C>,
    O,
> ContextExecutor<C, (T1, T2, T3, T4, T5), O> for F {
    open spec fn callable(&self, cx: C) -> bool {
        T1::required(cx) && T2::required(cx) && T3::required(cx) && T4::required(cx) && T5::required(cx) && forall|a: (T1, T2, T3, T4, T5)| call_requires(*self, a)
    }

    open spec fn outcome(&self, cx: C, r: O) -> bool {
        exists|a: (T1, T2, T3, T4, T5)| T1::extracted(cx, a.0) && T2::extracted(cx, a.1) && T3::extracted(cx, a.2) && T4::extracted(cx, a.3) && T5::extracted(cx, a.4) && #[trigger] call_ensures(*self, a, r)
    }

    fn call(self, cx: &C) -> (r: O) {
        let t1 = T1::from_context(cx);
        let t2 = T2::from_context(cx);
        let t3 = T3::from_context(cx);
        let t4 = T4::from_context(cx);
        let t5 = T5::from_context(cx);
        let ghost a = (t1, t2, t3, t4, t5);
        let ghost f = self;
        let r = self(t1, t2, t3, t4, t5);
        proof {
            assert(T1::extracted(*cx, a.0) && T2::extracted(*cx, a.1) && T3::extracted(*cx, a.2) && T4::extracted(*cx, a.3) && T5::extracted(*cx, a.4) && call_ensures(f, a, r));
        }
        r
    }
}

impl<
    C,
    F: FnOnce(T1, T2, T3, T4, T5, T6) -> O,
    T1: BorrowFromContext<C>,
    T2: BorrowFromContext<C>,
    T3: BorrowFromContext<C>,
    T4: BorrowFromContext<C>,
    T5: BorrowFromContext<C>,
    T6: BorrowFromContext<C>,
    O,
> ContextExecutor<C, (T1, T2, T3, T4, T5, T6), O> for F {
    open spec fn callable(&self, cx: C) -> bool {
        T1::required(cx) && T2::required(cx) && T3::required(cx) && T4::required(cx) && T5::required(cx) && T6::required(cx) && forall|a: (T1, T2, T3, T4, T5, T6)| call_requires(*self, a)
    }

    open spec fn outcome(&self, cx: C, r: O) -> bool {
        exists|a: (T1, T2, T3, T4, T5, T6)| T1::extracted(cx, a.0) && T2::extracted(cx, a.1) && T3::extracted(cx, a.2) && T4::extracted(cx, a.3) && T5::extracted(cx, a.4) && T6::extracted(cx, a.5) && #[trigger] call_ensures(*self, a, r)
    }

    fn call(self, cx: &C) -> (r: O) {
        let t1 = T1::from_context(cx);
        let t2 = T2::from_context(cx);
        let t3 = T3::from_context(cx);
        let t4 = T4::from_context(cx);
        let t5 = T5::from_context(cx);
        let t6 = T6::from_context(cx);
        let ghost a = (t1, t2, t3, t4, t5, t6);
        let ghost f = self;
        let r = self(t1, t2, t3, t4, t5, t6);
        proof {
            assert(T1::extracted(*cx, a.0) && T2::extracted(*cx, a.1) && T3::extracted(*cx, a.2) && T4::extracted(*cx, a.3) && T5::extracted(*cx, a.4) && T6::extracted(*cx, a.5) && call_ensures(f, a, r));
        }
        r
    }
}

impl<
    C,
    F: FnOnce(T1, T2, T3, T4, T5, T6, T7) -> O,
    T1: BorrowFromContext<C>,
    T2: BorrowFromContext<C>,
    T3: BorrowFromContext<C>,
    T4: BorrowFromContext<C>,
    T5: BorrowFromContext<C>,
    T6: BorrowFromContext<C>,
    T7: BorrowFromContext<C>,
    O,
> ContextExecutor<C, (T1, T2, T3, T4, T5, T6, T7), O> for F {
    open spec fn callable(&self, cx: C) -> bool {
        T1::required(cx) && T2::required(cx) && T3::required(cx) && T4::required(cx) && T5::required(cx) && T6::required(cx) && T7::required(cx) && forall|a: (T1, T2, T3, T4, T5, T6, T7)| call_requires(*self, a)
    }

    open spec fn outcome(&self, cx: C, r: O) -> bool {
        exists|a: (T1, T2, T3, T4, T5, T6, T7)| T1::extracted(cx, a.0) && T2::extracted(cx, a.1) && T3::extracted(cx, a.2) && T4::extracted(cx, a.3) && T5::extracted(cx, a.4) && T6::extracted(cx, a.5) && T7::extracted(cx, a.6) && #[trigger] call_ensures(*self, a, r)
    }

    fn call(self, cx: &C) -> (r: O) {
        let t1 = T1::from_context(cx);
        let t2 = T2::from_context(cx);
        let t3 = T3::from_context(cx);
        let t4 = T4::from_context(cx);
        let t5 = T5::from_context(cx);
        let t6 = T6::from_context(cx);
        let t7 = T7::from_context(cx);
        let ghost a = (t1, t2, t3, t4, t5, t6, t7);
        let ghost f = self;
        let r = self(t1, t2, t3, t4, t5, t6, t7);
        proof {
            assert(T1::extracted(*cx, a.0) && T2::extracted(*cx, a.1) && T3::extracted(*cx, a.2) && T4::extracted(*cx, a.3) && T5::extracted(*cx, a.4) && T6::extracted(*cx, a.5) && T7::extracted(*cx, a.6) && call_ensures(f, a, r));
        }
        r
    }
}

impl<
    C,
    F: FnOnce(T1, T2, T3, T4, T5, T6, T7, T8) -> O,
    T1: BorrowFromContext<C>,
    T2: BorrowFromContext<C>,
    T3: BorrowFromContext<C>,
    T4: BorrowFromContext<C>,
    T5: BorrowFromContext<C>,
    T6: BorrowFromContext<C>,
    T7: BorrowFromContext<C>,
    T8: BorrowFromContext<C>,
    O,
> ContextExecutor<C, (T1, T2, T3, T4, T5, T6, T7, T8), O> for F {
    open spec fn callable(&self, cx: C) -> bool {
        T1::required(cx) && T2::required(cx) && T3::required(cx) && T4::required(cx) && T5::required(cx) && T6::required(cx) && T7::required(cx) && T8::required(cx) && forall|a: (T1, T2, T3, T4, T5, T6, T7, T8)| call_requires(*self, a)
    }

    open spec fn outcome(&self, cx: C, r: O) -> bool {
        exists|a: (T1, T2, T3, T4, T5, T6, T7, T8)| T1::extracted(cx, a.0) && T2::extracted(cx, a.1) && T3::extracted(cx, a.2) && T4::extracted(cx, a.3) && T5::extracted(cx, a.4) && T6::extracted(cx, a.5) && T7::extracted(cx, a.6) && T8::extracted(cx, a.7) && #[trigger] call_ensures(*self, a, r)
    }

    fn call(self, cx: &C) -> (r: O) {
        let t1 = T1::from_context(cx);
        let t2 = T2::from_context(cx);
        let t3 = T3::from_context(cx);
        let t4 = T4::from_context(cx);
        let t5 = T5::from_context(cx);
        let t6 = T6::from_context(cx);
        let t7 = T7::from_context(cx);
        let t8 = T8::from_context(cx);
        let ghost a = (t1, t2, t3, t4, t5, t6, t7, t8);
        let ghost f = self;
        let r = self(t1, t2, t3, t4, t5, t6, t7, t8);
        proof {
            assert(T1::extracted(*cx, a.0) && T2::extracted(*cx, a.1) && T3::extracted(*cx, a.2) && T4::extracted(*cx, a.3) && T5::extracted(*cx, a.4) && T6::extracted(*cx, a.5) && T7::extracted(*cx, a.6) && T8::extracted(*cx, a.7) && call_ensures(f, a, r));
        }
        r
    }
}

// ---------------------------------------------------------------------
// Extractors
// ---------------------------------------------------------------------

/// Extracts a copy of the model; requires read access to it.
pub struct Model<M>(pub M);

/// Extracts an independent snapshot of the model.
pub struct Snapshot<T>(pub T);

/// Extracts the value provisioned under the resource key `K`.
pub struct Resource<const K: u64, R>(pub R);

/// Extracts a producer handle onto the effect queue.
#[verifier::reject_recursive_types(E)]
#[verifier::reject_recursive_types(S)]
pub struct Dispatcher<E, S>(pub EffectSender<E, S>);

impl<M: Clone, R, E, S> BorrowFromContext<Syzygy<M, R, E, S>> for Model<M> {
    open spec fn required(cx: Syzygy<M, R, E, S>) -> bool {
        true
    }

    open spec fn extracted(cx: Syzygy<M, R, E, S>, r: Self) -> bool {
        cloned(cx.model_spec(), r.0)
    }

    fn from_context(cx: &Syzygy<M, R, E, S>) -> (r: Self) {
        Model(cx.model().clone())
    }
}

impl<T, M: ModelTrait<Snapshot = T>, R, E, S> BorrowFromContext<Syzygy<M, R, E, S>> for Snapshot<
    T,
> {
    open spec fn required(cx: Syzygy<M, R, E, S>) -> bool {
        true
    }

    open spec fn extracted(cx: Syzygy<M, R, E, S>, r: Self) -> bool {
        r.0 == cx.model_spec().snapshot_spec()
    }

    fn from_context(cx: &Syzygy<M, R, E, S>) -> (r: Self) {
        Snapshot(cx.create_snapshot())
    }
}

impl<const K: u64, M, R: Clone, E, S> BorrowFromContext<Syzygy<M, R, E, S>> for Resource<K, R> {
    open spec fn required(cx: Syzygy<M, R, E, S>) -> bool {
        cx.wf() && cx.resources_view().contains_key(K)
    }

    open spec fn extracted(cx: Syzygy<M, R, E, S>, r: Self) -> bool {
        cx.resources_view().contains_key(K) && cloned(cx.resources_view()[K], r.0)
    }

    fn from_context(cx: &Syzygy<M, R, E, S>) -> (r: Self) {
        Resource(cx.resource(K))
    }
}

impl<M, R, E, S> BorrowFromContext<Syzygy<M, R, E, S>> for Dispatcher<E, S> {
    open spec fn required(cx: Syzygy<M, R, E, S>) -> bool {
        true
    }

    open spec fn extracted(cx: Syzygy<M, R, E, S>, r: Self) -> bool {
        true
    }

    fn from_context(cx: &Syzygy<M, R, E, S>) -> (r: Self) {
        Dispatcher(cx.sender())
    }
}

impl<M, R, E, S> Context for Syzygy<M, R, E, S> {
}

// ---------------------------------------------------------------------
// Concrete contexts
// ---------------------------------------------------------------------

/// The context handed to background workers: shared resources, a
/// producer handle onto the effect queue, and a producer handle onto
/// the event bus. It has no model access: mutations must round-trip
/// through a dispatched effect.
#[verifier::reject_recursive_types(E)]
#[verifier::reject_recursive_types(S)]
#[verifier::reject_recursive_types(V)]
pub struct ThreadContext<R, E, S, V> {
    resources: Resources<R>,
    dispatcher: EffectSender<E, S>,
    event_bus: EventSender<V>,
}

/// The context handed to event handlers: the same capabilities as a
/// worker's context.
#[verifier::reject_recursive_types(E)]
#[verifier::reject_recursive_types(S)]
#[verifier::reject_recursive_types(V)]
pub struct EventContext<R, E, S, V> {
    resources: Resources<R>,
    dispatcher: EffectSender<E, S>,
    event_bus: EventSender<V>,
}

impl<R, E, S, V> ThreadContext<R, E, S, V> {
    pub closed spec fn resources_view(&self) -> Map<u64, R> {
        self.resources@
    }

    pub closed spec fn resources_wf(&self) -> bool {
        self.resources.wf()
    }

    pub fn new(
        resources: Resources<R>,
        dispatcher: EffectSender<E, S>,
        event_bus: EventSender<V>,
    ) -> (r: Self)
        ensures
            r.resources_view() == resources@,
            r.resources_wf() == resources.wf(),
    {
        Self { resources, dispatcher, event_bus }
    }

    pub fn resources(&self) -> (r: &Resources<R>)
        ensures
            r@ == self.resources_view(),
            r.wf() == self.resources_wf(),
    {
        &self.resources
    }

    pub fn dispatcher(&self) -> &EffectSender<E, S> {
        &self.dispatcher
    }

    pub fn event_bus(&self) -> &EventSender<V> {
        &self.event_bus
    }

    /// Enqueue a batch through the channel; it surfaces at the runtime's
    /// next ingest.
    pub fn dispatch(&self, effects: Effects<E, S>) -> (r: Result<(), EffectError>)
        ensures
            r matches Err(e) ==> e == EffectError::ChannelClosed,
    {
        self.dispatcher.dispatch(effects)
    }
}

impl<R: Clone, E, S, V> ThreadContext<R, E, S, V> {
    pub fn try_resource(&self, key: u64) -> (r: Option<R>)
        requires
            self.resources_wf(),
        ensures
            r matches Some(v) ==> self.resources_view().contains_key(key) && cloned(
                self.resources_view()[key],
                v,
            ),
            r is None <==> !self.resources_view().contains_key(key),
    {
        self.resources.try_resource(key)
    }

    pub fn resource(&self, key: u64) -> (r: R)
        requires
            self.resources_wf(),
            self.resources_view().contains_key(key),
        ensures
            cloned(self.resources_view()[key], r),
    {
        self.resources.resource(key)
    }
}

impl<R, E, S, V> EventContext<R, E, S, V> {
    pub closed spec fn resources_view(&self) -> Map<u64, R> {
        self.resources@
    }

    pub closed spec fn resources_wf(&self) -> bool {
        self.resources.wf()
    }

    pub fn new(
        resources: Resources<R>,
        dispatcher: EffectSender<E, S>,
        event_bus: EventSender<V>,
    ) -> (r: Self)
        ensures
            r.resources_view() == resources@,
            r.resources_wf() == resources.wf(),
    {
        Self { resources, dispatcher, event_bus }
    }

    pub fn resources(&self) -> (r: &Resources<R>)
        ensures
            r@ == self.resources_view(),
            r.wf() == self.resources_wf(),
    {
        &self.resources
    }

    pub fn dispatcher(&self) -> &EffectSender<E, S> {
        &self.dispatcher
    }

    /// Enqueue a batch through the channel; it surfaces at the runtime's
    /// next ingest.
    pub fn dispatch(&self, effects: Effects<E, S>) -> (r: Result<(), EffectError>)
        ensures
            r matches Err(e) ==> e == EffectError::ChannelClosed,
    {
        self.dispatcher.dispatch(effects)
    }
}

impl<R: Clone, E, S, V> EventContext<R, E, S, V> {
    pub fn try_resource(&self, key: u64) -> (r: Option<R>)
        requires
            self.resources_wf(),
        ensures
            r matches Some(v) ==> self.resources_view().contains_key(key) && cloned(
                self.resources_view()[key],
                v,
            ),
            r is None <==> !self.resources_view().contains_key(key),
    {
        self.resources.try_resource(key)
    }

    pub fn resource(&self, key: u64) -> (r: R)
        requires
            self.resources_wf(),
            self.resources_view().contains_key(key),
        ensures
            cloned(self.resources_view()[key], r),
    {
        self.resources.resource(key)
    }
}

impl<R, E, S, V> EmitEvent<V> for ThreadContext<R, E, S, V> {
    fn event_sender(&self) -> &EventSender<V> {
        &self.event_bus
    }
}

impl<R, E, S, V> EmitEvent<V> for EventContext<R, E, S, V> {
    fn event_sender(&self) -> &EventSender<V> {
        &self.event_bus
    }
}

impl<R, E, S, V> DispatchEffect<E, S> for ThreadContext<R, E, S, V> {
    fn effect_sender(&self) -> &EffectSender<E, S> {
        &self.dispatcher
    }
}

impl<R, E, S, V> DispatchEffect<E, S> for EventContext<R, E, S, V> {
    fn effect_sender(&self) -> &EffectSender<E, S> {
        &self.dispatcher
    }
}

impl<R, E, S, V> Context for ThreadContext<R, E, S, V> {
}

impl<R, E, S, V> Context for EventContext<R, E, S, V> {
}

impl<R: Clone, E, S, V> Clone for ThreadContext<R, E, S, V> {
    fn clone(&self) -> Self {
        Self {
            resources: self.resources.clone(),
            dispatcher: self.dispatcher.clone(),
            event_bus: self.event_bus.clone(),
        }
    }
}

impl<R: Clone, E, S, V> Clone for EventContext<R, E, S, V> {
    fn clone(&self) -> Self {
        Self {
            resources: self.resources.clone(),
            dispatcher: self.dispatcher.clone(),
            event_bus: self.event_bus.clone(),
        }
    }
}

impl<R: Clone, E, S, V> FromContext<EventContext<R, E, S, V>> for ThreadContext<R, E, S, V> {
    fn from_context(cx: &EventContext<R, E, S, V>) -> Self {
        Self {
            resources: cx.resources.clone(),
            dispatcher: cx.dispatcher.clone(),
            event_bus: cx.event_bus.clone(),
        }
    }
}

impl<R: Clone, E, S, V> FromContext<ThreadContext<R, E, S, V>> for EventContext<R, E, S, V> {
    fn from_context(cx: &ThreadContext<R, E, S, V>) -> Self {
        Self {
            resources: cx.resources.clone(),
            dispatcher: cx.dispatcher.clone(),
            event_bus: cx.event_bus.clone(),
        }
    }
}

} // verus!
