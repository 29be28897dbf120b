use vstd::prelude::*;

verus! {

/// Marker for payloads broadcast on the event bus. An event travels
/// together with the `EventType` naming its identity; subscribers are
/// registered against that identity.
pub trait Event: Sized {}

/// Failure of the event channel itself.
#[derive(Debug, Clone, Copy, PartialEq, Eq)]
pub enum EventError {
    ChannelClosed,
    RuntimeStopped,
}

/// Failure to enqueue an event.
#[derive(Debug, Clone, Copy, PartialEq, Eq)]
pub enum EmitError {
    ChannelClosed,
    RuntimeStopped,
}

/// Failure of subscription management or event routing.
#[derive(Debug, Clone, PartialEq, Eq)]
pub enum EventHandlerError {
    /// `subscribe` was given a name some subscription already holds.
    AlreadyExists(String),
    /// `unsubscribe` was given a name no subscription holds.
    HandlerNotFound(String),
    /// `handle` was given an event type with no subscriptions.
    Unregistered(String),
}

/// The identity of an event kind: a stable key used for routing, and a
/// human-readable name used for naming subscriptions and errors.
#[derive(Debug, Clone, PartialEq, Eq, Hash)]
pub struct EventType {
    key: u64,
    name: String,
}

impl EventType {
    pub closed spec fn key_spec(&self) -> u64 {
        self.key
    }

    pub closed spec fn name_view(&self) -> Seq<char> {
        self.name@
    }

    /// The identity of the Rust type `T`, under a display name the
    /// caller supplies.
    ///
    /// Relies on std::any::TypeId::of for a per-type identity that is
    /// stable within a process, and on
    /// std::collections::hash_map::DefaultHasher, whose output for a
    /// given input its documentation guarantees to be the same for
    /// every hasher created by `new`.
    ///
    /// The key is a 64-bit digest of that identity, so the contract
    /// states nothing of it: two calls for one type agree, but two
    /// distinct types collide with vanishing (not zero) probability,
    /// and routing treats equal keys as the same event type. A host
    /// that must rule collisions out assigns its own keys through
    /// `from_parts`.
    #[must_use]
    #[verifier::external_body]
    pub fn new<T: 'static>(name: &str) -> (r: Self)
        ensures
            r.name_view() == name@,
    {
        let type_id = std::any::TypeId::of::<T>();
        let mut hasher = std::collections::hash_map::DefaultHasher::new();
        std::hash::Hash::hash(&type_id, &mut hasher);
        Self { key: std::hash::Hasher::finish(&hasher), name: name.to_owned() }
    }

    /// An identity from an explicit key and name, for hosts that assign
    /// their own.
    #[must_use]
    pub fn from_parts(key: u64, name: String) -> (r: Self)
        ensures
            r.key_spec() == key,
            r.name_view() == name@,
    {
        Self { key, name }
    }

    pub fn key(&self) -> (r: u64)
        ensures
            r == self.key_spec(),
    {
        self.key
    }

    #[must_use]
    pub fn name(&self) -> (r: &str)
        ensures
            r@ == self.name_view(),
    {
        self.name.as_str()
    }
}

/// The callable side of a subscription: how a stored handler reacts to
/// an event, given a context projected by whoever pumps the bus.
/// Implemented by host code; no behaviour is assumed of it.
pub trait EventHandlerFn<C, V>: Sized {
    fn on_event(&self, cx: &C, event: &V);
}

/// A named subscription: the handler, the name that is globally unique
/// on its bus, and the key of the event type it listens to.
pub struct EventHandler<H> {
    name: String,
    key: u64,
    handler: H,
}

impl<H> EventHandler<H> {
    pub closed spec fn name_view(&self) -> Seq<char> {
        self.name@
    }

    pub closed spec fn key_spec(&self) -> u64 {
        self.key
    }

    pub closed spec fn handler_spec(&self) -> H {
        self.handler
    }

    /// Invoke the stored handler on an event.
    pub fn handle<C, V>(&self, cx: &C, event: &V) where H: EventHandlerFn<C, V> {
        self.handler.on_event(cx, event);
    }
}

/// A subscription as the specifications see it: name, event-type key,
/// handler.
pub type SubView<H> = (Seq<char>, u64, H);

/// Whether some subscription already holds `name`.
pub open spec fn name_taken<H>(subs: Seq<SubView<H>>, name: Seq<char>) -> bool {
    exists|i: int| 0 <= i < subs.len() && (#[trigger] subs[i]).0 == name
}

/// Whether some subscription listens to the event-type key `key`.
pub open spec fn key_matched<H>(subs: Seq<SubView<H>>, key: u64) -> bool {
    exists|i: int| 0 <= i < subs.len() && (#[trigger] subs[i]).1 == key
}

/// The deliveries `handle` performs for an event `(key, v)`: one per
/// subscription whose key matches, in registration order, each recorded
/// as the subscription's name with the payload.
pub open spec fn deliveries_for<H, V>(subs: Seq<SubView<H>>, key: u64, v: V) -> Seq<
    (Seq<char>, V),
>
    decreases subs.len(),
{
    if subs.len() == 0 {
        Seq::empty()
    } else {
        deliveries_for(subs.drop_last(), key, v) + (if subs.last().1 == key {
            seq![(subs.last().0, v)]
        } else {
            Seq::<(Seq<char>, V)>::empty()
        })
    }
}

proof fn lemma_deliveries_for_push<H, V>(subs: Seq<SubView<H>>, s: SubView<H>, key: u64, v: V)
    ensures
        deliveries_for(subs.push(s), key, v) == deliveries_for(subs, key, v) + (if s.1 == key {
            seq![(s.0, v)]
        } else {
            Seq::<(Seq<char>, V)>::empty()
        }),
{
    assert(subs.push(s).drop_last() =~= subs);
    assert(subs.push(s).last() == s);
}

/// The subscriptions that survive removing a name.
pub open spec fn without_name<H>(subs: Seq<SubView<H>>, name: Seq<char>) -> Seq<SubView<H>>
    decreases subs.len(),
{
    if subs.len() == 0 {
        Seq::empty()
    } else {
        without_name(subs.drop_last(), name) + (if subs.last().0 == name {
            Seq::<SubView<H>>::empty()
        } else {
            seq![subs.last()]
        })
    }
}

proof fn lemma_without_name_push<H>(subs: Seq<SubView<H>>, s: SubView<H>, name: Seq<char>)
    ensures
        without_name(subs.push(s), name) == without_name(subs, name) + (if s.0 == name {
            Seq::<SubView<H>>::empty()
        } else {
            seq![s]
        }),
{
    assert(subs.push(s).drop_last() =~= subs);
    assert(subs.push(s).last() == s);
}

proof fn lemma_without_name_absent<H>(subs: Seq<SubView<H>>, name: Seq<char>)
    requires
        !name_taken(subs, name),
    ensures
        without_name(subs, name) == subs,
    decreases subs.len(),
{
    if subs.len() > 0 {
        assert(!name_taken(subs.drop_last(), name)) by {
            assert(forall|i: int|
                0 <= i < subs.len() - 1 ==> (#[trigger] subs.drop_last()[i]) == subs[i]);
        }
        lemma_without_name_absent(subs.drop_last(), name);
        assert(subs.last().0 != name);
        assert(without_name(subs, name) =~= subs);
    }
}

/// Everything that survives the removal was registered before it.
proof fn lemma_without_name_membership<H>(subs: Seq<SubView<H>>, name: Seq<char>, k: int)
    requires
        0 <= k < without_name(subs, name).len(),
    ensures
        exists|j: int| 0 <= j < subs.len() && (#[trigger] subs[j]) == without_name(subs, name)[k],
    decreases subs.len(),
{
    if subs.len() > 0 {
        let d = subs.drop_last();
        if k < without_name(d, name).len() {
            lemma_without_name_membership(d, name, k);
            let j = choose|j: int| 0 <= j < d.len() && (#[trigger] d[j]) == without_name(
                d,
                name,
            )[k];
            assert(subs[j] == without_name(subs, name)[k]);
        } else {
            assert(subs[subs.len() - 1] == without_name(subs, name)[k]);
        }
    }
}

/// Removal keeps names pairwise distinct.
proof fn lemma_without_name_distinct<H>(subs: Seq<SubView<H>>, name: Seq<char>)
    requires
        forall|i: int, j: int|
            0 <= i < j < subs.len() ==> (#[trigger] subs[i]).0 != (#[trigger] subs[j]).0,
    ensures
        forall|i: int, j: int|
            0 <= i < j < without_name(subs, name).len() ==> (#[trigger] without_name(
                subs,
                name,
            )[i]).0 != (#[trigger] without_name(subs, name)[j]).0,
    decreases subs.len(),
{
    if subs.len() > 0 {
        let d = subs.drop_last();
        assert(forall|i: int, j: int|
            0 <= i < j < d.len() ==> (#[trigger] d[i]).0 != (#[trigger] d[j]).0) by {
            assert(forall|i: int| 0 <= i < d.len() ==> (#[trigger] d[i]) == subs[i]);
        }
        lemma_without_name_distinct(d, name);
        let wd = without_name(d, name);
        if subs.last().0 != name {
            assert forall|i: int, j: int|
                0 <= i < j < without_name(subs, name).len() implies (#[trigger] without_name(
                subs,
                name,
            )[i]).0 != (#[trigger] without_name(subs, name)[j]).0 by {
                if j < wd.len() {
                    assert(without_name(subs, name)[i] == wd[i]);
                    assert(without_name(subs, name)[j] == wd[j]);
                } else {
                    assert(without_name(subs, name)[j] == subs.last());
                    assert(without_name(subs, name)[i] == wd[i]);
                    lemma_without_name_membership(d, name, i);
                    let w = choose|w: int| 0 <= w < d.len() && (#[trigger] d[w]) == wd[i];
                    assert(subs[w] == wd[i]);
                    assert(subs[w].0 != subs[subs.len() - 1].0);
                }
            }
        }
    }
}

// ---------------------------------------------------------------------
// The event channel
// ---------------------------------------------------------------------

/// The cloneable producer half of the event channel, carried by every
/// context that holds the emit capability.
#[verifier::reject_recursive_types(V)]
pub struct EventSender<V> {
    tx: crossbeam_channel::Sender<(EventType, V)>,
}

impl<V> Clone for EventSender<V> {
    /// Relies on crossbeam_channel::Sender::clone: the clone is another
    /// producer handle for the same channel.
    #[verifier::external_body]
    fn clone(&self) -> Self {
        Self { tx: self.tx.clone() }
    }
}

impl<V> EventSender<V> {
    /// Relies on crossbeam_channel::Sender::send: on an unbounded channel
    /// it never blocks, and fails only when every receiver has been
    /// dropped.
    #[verifier::external_body]
    pub fn emit(&self, event_type: EventType, event: V) -> (r: Result<(), EmitError>)
        ensures
            r matches Err(e) ==> e == EmitError::ChannelClosed,
    {
        self.tx.send((event_type, event)).map_err(|_| EmitError::ChannelClosed)
    }
}

/// Anything that carries an event-channel producer can emit.
pub trait EmitEvent<V>: Sized {
    fn event_sender(&self) -> &EventSender<V>;

    /// Enqueue an event under its type identity; never blocks.
    fn emit(&self, event_type: EventType, event: V) -> (r: Result<(), EmitError>)
        ensures
            r matches Err(e) ==> e == EmitError::ChannelClosed,
    {
        self.event_sender().emit(event_type, event)
    }
}

/// A subscription, as the specifications see it.
pub open spec fn sub_view_of<H>(h: EventHandler<H>) -> SubView<H> {
    (h.name_view(), h.key_spec(), h.handler_spec())
}

/// A registry, as the specifications see it.
pub open spec fn subs_views<H>(s: Seq<EventHandler<H>>) -> Seq<SubView<H>> {
    s.map_values(|h: EventHandler<H>| sub_view_of(h))
}

// ---------------------------------------------------------------------
// The bus
// ---------------------------------------------------------------------

/// The event bus: an unbounded channel of `(event type, payload)` pairs
/// and a registry of named subscriptions. Subscription names are unique
/// across the whole bus, not per event type. A ghost log records every
/// delivery `handle` has performed, as `(subscription name, payload)`,
/// in delivery order.
#[verifier::reject_recursive_types(V)]
#[verifier::reject_recursive_types(H)]
pub struct EventBus<V: Event, H> {
    tx: EventSender<V>,
    rx: crossbeam_channel::Receiver<(EventType, V)>,
    subscriptions: Vec<EventHandler<H>>,
    delivered: Ghost<Seq<(Seq<char>, V)>>,
}

impl<V: Event, H> EventBus<V, H> {
    /// The subscriptions in registration order.
    pub closed spec fn subs_view(&self) -> Seq<SubView<H>> {
        subs_views(self.subscriptions@)
    }

    /// Every delivery performed so far, in order.
    pub closed spec fn delivered_log(&self) -> Seq<(Seq<char>, V)> {
        self.delivered@
    }

    /// Subscription names are globally unique.
    pub open spec fn wf(&self) -> bool {
        forall|i: int, j: int|
            0 <= i < j < self.subs_view().len() ==> (#[trigger] self.subs_view()[i]).0 != (
            #[trigger] self.subs_view()[j]).0
    }

    /// Relies on crossbeam_channel::unbounded: a fresh first-in-first-out
    /// channel with no capacity bound. The registry starts empty.
    #[verifier::external_body]
    fn channel_parts() -> (EventSender<V>, crossbeam_channel::Receiver<(EventType, V)>) {
        let (tx, rx) = crossbeam_channel::unbounded();
        (EventSender { tx }, rx)
    }

    pub fn new() -> (r: Self)
        ensures
            r.subs_view() == Seq::<SubView<H>>::empty(),
            r.delivered_log() == Seq::<(Seq<char>, V)>::empty(),
            r.wf(),
    {
        let (tx, rx) = Self::channel_parts();
        let bus = Self { tx, rx, subscriptions: Vec::new(), delivered: Ghost(Seq::empty()) };
        proof {
            assert(bus.subs_view() =~= Seq::<SubView<H>>::empty());
        }
        bus
    }

    /// A fresh producer handle, for contexts that only emit.
    pub fn sender(&self) -> EventSender<V> {
        self.tx.clone()
    }

    /// Enqueue an event under its type identity; never blocks.
    pub fn emit(&self, event_type: EventType, event: V) -> (r: Result<(), EmitError>)
        ensures
            r matches Err(e) ==> e == EmitError::ChannelClosed,
    {
        self.tx.emit(event_type, event)
    }

    /// Relies on crossbeam_channel::Receiver::try_recv: it returns a
    /// pending message if one is ready and otherwise returns at once
    /// without blocking.
    #[verifier::external_body]
    pub fn pop(&self) -> Option<(EventType, V)> {
        self.rx.try_recv().ok()
    }

    /// Pump the bus: pop and route queued events until none is waiting
    /// or routing fails. Subscriptions are untouched, and the delivery
    /// log only grows.
    pub fn pump<C>(&mut self, cx: &C) -> (r: Result<(), EventHandlerError>) where
        H: EventHandlerFn<C, V>
        ensures
            final(self).subs_view() == old(self).subs_view(),
            old(self).delivered_log().is_prefix_of(final(self).delivered_log()),
            old(self).wf() ==> final(self).wf(),
    {
        let mut fuel: usize = usize::MAX;
        let mut outcome: Result<(), EventHandlerError> = Ok(());
        let mut more = true;
        while more && fuel > 0
            invariant
                self.subs_view() == old(self).subs_view(),
                old(self).delivered_log().is_prefix_of(self.delivered_log()),
            decreases fuel,
        {
            fuel -= 1;
            match self.pop() {
                None => {
                    more = false;
                },
                Some((event_type, event)) => {
                    let ghost before = self.delivered_log();
                    let routed = self.handle(cx, &event_type, &event);
                    proof {
                        assert(before.is_prefix_of(self.delivered_log())) by {
                            assert(before =~= self.delivered_log().subrange(
                                0,
                                before.len() as int,
                            ));
                        }
                        assert(old(self).delivered_log() =~= self.delivered_log().subrange(
                            0,
                            old(self).delivered_log().len() as int,
                        ));
                    }
                    if routed.is_err() {
                        outcome = routed;
                        more = false;
                    }
                },
            }
        }
        outcome
    }

    /// Register `handler` for events of `event_type`, under `name`, or
    /// under the event type's own name when `name` is absent. Names are
    /// unique across the whole bus: a taken name is refused and the
    /// registry is left unchanged; otherwise the subscription is
    /// appended after every existing one.
    pub fn subscribe(&mut self, event_type: &EventType, name: Option<String>, handler: H) -> (r:
        Result<(), EventHandlerError>)
        ensures
            ({
                let n = match name {
                    Some(given) => given@,
                    None => event_type.name_view(),
                };
                &&& name_taken(old(self).subs_view(), n) ==> (r matches Err(
                    EventHandlerError::AlreadyExists(taken),
                ) && taken@ == n) && final(self).subs_view() == old(self).subs_view()
                &&& !name_taken(old(self).subs_view(), n) ==> r == Ok::<(), EventHandlerError>(())
                    && final(self).subs_view() == old(self).subs_view().push(
                    (n, event_type.key_spec(), handler),
                )
            }),
            final(self).delivered_log() == old(self).delivered_log(),
            old(self).wf() ==> final(self).wf(),
    {
        let chosen: String = match &name {
            Some(given) => given.clone(),
            None => event_type.name.clone(),
        };
        let ghost n_spec: Seq<char> = match name {
            Some(ref given) => given@,
            None => event_type.name_view(),
        };
        proof {
            assert(chosen@ == n_spec);
        }
        let n = self.subscriptions.len();
        let mut i: usize = 0;
        while i < n
            invariant
                0 <= i <= n,
                n == self.subs_view().len(),
                chosen@ == (match name {
                    Some(ref given) => given@,
                    None => event_type.name_view(),
                }),
                *self == *old(self),
                forall|j: int| 0 <= j < i ==> (#[trigger] self.subs_view()[j]).0 != chosen@,
            decreases n - i,
        {
            if self.subscriptions[i].name == chosen {
                proof {
                    assert(self.subs_view()[i as int] == sub_view_of(
                        self.subscriptions@[i as int],
                    ));
                    assert((#[trigger] self.subs_view()[i as int]).0 == chosen@);
                }
                return Err(EventHandlerError::AlreadyExists(chosen));
            }
            i += 1;
        }
        let ghost pre = self.subs_view();
        let ghost chosen_view = chosen@;
        let key = event_type.key();
        self.subscriptions.push(EventHandler { name: chosen, key, handler });
        proof {
            assert forall|j: int| 0 <= j < self.subs_view().len() implies self.subs_view()[j]
                == (if j < pre.len() {
                pre[j]
            } else {
                (chosen_view, event_type.key_spec(), handler)
            }) by {
                assert(self.subs_view()[j] == sub_view_of(self.subscriptions@[j]));
            }
            assert(self.subs_view() =~= pre.push((chosen_view, event_type.key_spec(), handler)));
        }
        Ok(())
    }

    /// Remove the subscription named `name`; every other subscription
    /// keeps its place. A name no subscription holds is refused, and
    /// the registry is left unchanged.
    pub fn unsubscribe(&mut self, name: String) -> (r: Result<(), EventHandlerError>)
        ensures
            final(self).subs_view() == without_name(old(self).subs_view(), name@),
            name_taken(old(self).subs_view(), name@) ==> r == Ok::<(), EventHandlerError>(()),
            !name_taken(old(self).subs_view(), name@) ==> (r matches Err(
                EventHandlerError::HandlerNotFound(missing),
            ) && missing@ == name@) && final(self).subs_view() == old(self).subs_view(),
            final(self).delivered_log() == old(self).delivered_log(),
            old(self).wf() ==> final(self).wf(),
    {
        let mut drained: Vec<EventHandler<H>> = Vec::new();
        core::mem::swap(&mut drained, &mut self.subscriptions);
        let ghost all = subs_views(drained@);
        proof {
            assert(all == old(self).subs_view());
        }
        let mut kept: Vec<EventHandler<H>> = Vec::new();
        let mut found = false;
        let n = drained.len();
        let mut i: usize = 0;
        while i < n
            invariant
                0 <= i <= n,
                all.len() == n,
                subs_views(drained@) == all.skip(i as int),
                subs_views(kept@) == without_name(all.take(i as int), name@),
                found == name_taken(all.take(i as int), name@),
            decreases n - i,
        {
            let ghost before = drained@;
            proof {
                assert(subs_views(drained@).len() == drained@.len());
                assert(all.skip(i as int).len() == n - i);
            }
            let entry = drained.remove(0);
            proof {
                assert(subs_views(before)[0] == sub_view_of(before[0]));
                assert(sub_view_of(entry) == all.skip(i as int)[0]);
                assert(sub_view_of(entry) == all[i as int]);
                assert forall|k: int| 0 <= k < drained@.len() implies subs_views(drained@)[k]
                    == all.skip(i as int + 1)[k] by {
                    assert(subs_views(drained@)[k] == sub_view_of(drained@[k]));
                    assert(drained@[k] == before[k + 1]);
                    assert(subs_views(before)[k + 1] == sub_view_of(before[k + 1]));
                    assert(subs_views(before)[k + 1] == all.skip(i as int)[k + 1]);
                }
                assert(subs_views(drained@) =~= all.skip(i as int + 1));
                all.lemma_take_succ_push(i as int);
                lemma_without_name_push(all.take(i as int), all[i as int], name@);
            }
            let ghost kept_before = kept@;
            let ghost found_before = found;
            if entry.name == name {
                found = true;
                proof {
                    assert(name_taken(all.take(i as int + 1), name@)) by {
                        assert(all.take(i as int + 1)[i as int] == all[i as int]);
                    }
                }
            } else {
                kept.push(entry);
                proof {
                    assert(subs_views(kept@) =~= subs_views(kept_before).push(all[i as int]));
                    if name_taken(all.take(i as int + 1), name@) && !found_before {
                        let w = choose|w: int|
                            0 <= w < i + 1 && (#[trigger] all.take(i as int + 1)[w]).0 == name@;
                        assert(all.take(i as int + 1)[w] == all[w]);
                        assert(0 <= w < i + 1 && all[w].0 == name@);
                        if w < i {
                            assert(all.take(i as int)[w] == all[w]);
                            assert(name_taken(all.take(i as int), name@));
                        }
                        assert(w == i);
                        assert(all[i as int].0 != name@);
                        assert(false);
                    }
                }
            }
            i += 1;
        }
        proof {
            assert(all.take(n as int) =~= all);
        }
        self.subscriptions = kept;
        proof {
            if old(self).wf() {
                lemma_without_name_distinct(all, name@);
            }
        }
        if found {
            Ok(())
        } else {
            proof {
                lemma_without_name_absent(all, name@);
            }
            Err(EventHandlerError::HandlerNotFound(name))
        }
    }

    /// Route one event: invoke, in registration order, every
    /// subscription whose key matches the event's type, recording each
    /// delivery in the ghost log as the subscription's name with the
    /// payload. An event type no subscription listens to is refused.
    pub fn handle<C>(&mut self, cx: &C, event_type: &EventType, event: &V) -> (r: Result<
        (),
        EventHandlerError,
    >) where H: EventHandlerFn<C, V>
        ensures
            final(self).subs_view() == old(self).subs_view(),
            final(self).delivered_log() == old(self).delivered_log() + deliveries_for(
                old(self).subs_view(),
                event_type.key_spec(),
                *event,
            ),
            key_matched(old(self).subs_view(), event_type.key_spec()) ==> r == Ok::<
                (),
                EventHandlerError,
            >(()),
            !key_matched(old(self).subs_view(), event_type.key_spec()) ==> (r matches Err(
                EventHandlerError::Unregistered(missing),
            ) && missing@ == event_type.name_view()),
            old(self).wf() ==> final(self).wf(),
    {
        let ghost all = self.subs_view();
        let key = event_type.key();
        let n = self.subscriptions.len();
        let mut found = false;
        let mut i: usize = 0;
        while i < n
            invariant
                0 <= i <= n,
                n == all.len(),
                key == event_type.key_spec(),
                all == old(self).subs_view(),
                self.subscriptions@ == old(self).subscriptions@,
                self.delivered_log() == old(self).delivered_log() + deliveries_for(
                    all.take(i as int),
                    key,
                    *event,
                ),
                found == key_matched(all.take(i as int), key),
            decreases n - i,
        {
            let ghost prefix = all.take(i as int);
            let ghost found_before = found;
            proof {
                all.lemma_take_succ_push(i as int);
                lemma_deliveries_for_push(prefix, all[i as int], key, *event);
                assert(all[i as int] == sub_view_of(self.subscriptions@[i as int]));
            }
            if self.subscriptions[i].key == key {
                self.subscriptions[i].handle(cx, event);
                found = true;
                proof {
                    self.delivered@ = self.delivered@.push((all[i as int].0, *event));
                    assert(key_matched(all.take(i as int + 1), key)) by {
                        assert(all.take(i as int + 1)[i as int] == all[i as int]);
                    }
                    assert(self.delivered_log() =~= old(self).delivered_log() + deliveries_for(
                        all.take(i as int + 1),
                        key,
                        *event,
                    ));
                }
            } else {
                proof {
                    if key_matched(all.take(i as int + 1), key) && !found_before {
                        let w = choose|w: int|
                            0 <= w < i + 1 && (#[trigger] all.take(i as int + 1)[w]).1 == key;
                        assert(all.take(i as int + 1)[w] == all[w]);
                        if w < i {
                            assert(all.take(i as int)[w] == all[w]);
                            assert(key_matched(all.take(i as int), key));
                        }
                        assert(w == i);
                        assert(false);
                    }
                    assert(self.delivered_log() =~= old(self).delivered_log() + deliveries_for(
                        all.take(i as int + 1),
                        key,
                        *event,
                    ));
                }
            }
            i += 1;
        }
        proof {
            assert(all.take(n as int) =~= all);
        }
        if found {
            Ok(())
        } else {
            Err(EventHandlerError::Unregistered(event_type.name.clone()))
        }
    }
}

/// Law: while a subscription is registered, every handled event whose
/// type matches it is delivered to it at least once.
pub proof fn lemma_subscribed_delivery<H, V>(subs: Seq<SubView<H>>, key: u64, v: V, i: int)
    requires
        0 <= i < subs.len(),
        subs[i].1 == key,
    ensures
        deliveries_for(subs, key, v).contains((subs[i].0, v)),
    decreases subs.len(),
{
    if i == subs.len() - 1 {
        let d = deliveries_for(subs, key, v);
        assert(d[d.len() - 1] == (subs[i].0, v));
    } else {
        let sub = subs.drop_last();
        lemma_subscribed_delivery(sub, key, v, i);
        let d = deliveries_for(sub, key, v);
        let k = choose|k: int| 0 <= k < d.len() && d[k] == (sub[i].0, v);
        assert(deliveries_for(subs, key, v)[k] == (subs[i].0, v));
    }
}

/// Anything that owns an event bus can manage its subscriptions. The
/// two spec views project the owned bus's registry and delivery log
/// onto the implementing type; their defaults are unspecified, and a
/// verified implementation refines them to the views of its own bus.
/// The default method bodies then carry the bus's exact contracts.
pub trait Subscribe<V: Event, H>: Sized {
    /// The owned bus's subscriptions, in registration order.
    open spec fn bus_subs(&self) -> Seq<SubView<H>> {
        arbitrary()
    }

    /// The owned bus's delivery log.
    open spec fn bus_delivered(&self) -> Seq<(Seq<char>, V)> {
        arbitrary()
    }

    fn event_bus(&mut self) -> (r: &mut EventBus<V, H>)
        ensures
            (*r).subs_view() == old(self).bus_subs(),
            (*r).delivered_log() == old(self).bus_delivered(),
            final(self).bus_subs() == final(r).subs_view(),
            final(self).bus_delivered() == final(r).delivered_log(),
    ;

    /// Register a handler: exactly `EventBus::subscribe` on the owned
    /// bus.
    fn subscribe(&mut self, event_type: &EventType, name: Option<String>, handler: H) -> (r:
        Result<(), EventHandlerError>)
        ensures
            ({
                let n = match name {
                    Some(given) => given@,
                    None => event_type.name_view(),
                };
                &&& name_taken(old(self).bus_subs(), n) ==> (r matches Err(
                    EventHandlerError::AlreadyExists(taken),
                ) && taken@ == n) && final(self).bus_subs() == old(self).bus_subs()
                &&& !name_taken(old(self).bus_subs(), n) ==> r == Ok::<(), EventHandlerError>(())
                    && final(self).bus_subs() == old(self).bus_subs().push(
                    (n, event_type.key_spec(), handler),
                )
            }),
            final(self).bus_delivered() == old(self).bus_delivered(),
    {
        let bus = self.event_bus();
        bus.subscribe(event_type, name, handler)
    }
}

/// Subscription removal, for anything that can subscribe.
pub trait Unsubscribe<V: Event, H>: Subscribe<V, H> {
    /// Remove a subscription by name: exactly `EventBus::unsubscribe`
    /// on the owned bus.
    fn unsubscribe(&mut self, name: String) -> (r: Result<(), EventHandlerError>)
        ensures
            final(self).bus_subs() == without_name(old(self).bus_subs(), name@),
            name_taken(old(self).bus_subs(), name@) ==> r == Ok::<(), EventHandlerError>(()),
            !name_taken(old(self).bus_subs(), name@) ==> (r matches Err(
                EventHandlerError::HandlerNotFound(missing),
            ) && missing@ == name@) && final(self).bus_subs() == old(self).bus_subs(),
            final(self).bus_delivered() == old(self).bus_delivered(),
    {
        let bus = self.event_bus();
        bus.unsubscribe(name)
    }
}

/// Law: right after `subscribe` accepts a subscription, a handled
/// event of its type is delivered to it: `subscribe` appends the
/// subscription to the registry, and `handle` on the grown registry
/// records a delivery under its name.
pub proof fn lemma_new_subscription_is_delivered<H, V>(
    subs: Seq<SubView<H>>,
    name: Seq<char>,
    key: u64,
    handler: H,
    v: V,
)
    ensures
        deliveries_for(subs.push((name, key, handler)), key, v).contains((name, v)),
{
    lemma_subscribed_delivery(subs.push((name, key, handler)), key, v, subs.len() as int);
}

/// Law: once no subscription holds a name, `handle` performs no
/// delivery under that name.
pub proof fn lemma_unsubscribed_no_delivery<H, V>(
    subs: Seq<SubView<H>>,
    name: Seq<char>,
    key: u64,
    v: V,
)
    requires
        !name_taken(subs, name),
    ensures
        forall|k: int|
            0 <= k < deliveries_for(subs, key, v).len() ==> (#[trigger] deliveries_for(
                subs,
                key,
                v,
            )[k]).0 != name,
    decreases subs.len(),
{
    if subs.len() > 0 {
        let d = subs.drop_last();
        assert(!name_taken(d, name)) by {
            assert(forall|i: int| 0 <= i < d.len() ==> (#[trigger] d[i]) == subs[i]);
        }
        lemma_unsubscribed_no_delivery(d, name, key, v);
        assert(subs[subs.len() - 1].0 != name);
        assert forall|k: int| 0 <= k < deliveries_for(subs, key, v).len() implies (
        #[trigger] deliveries_for(subs, key, v)[k]).0 != name by {
            if k < deliveries_for(d, key, v).len() {
                assert(deliveries_for(subs, key, v)[k] == deliveries_for(d, key, v)[k]);
            } else {
                assert(deliveries_for(subs, key, v)[k] == (subs.last().0, v));
            }
        }
    }
}

} // verus!
