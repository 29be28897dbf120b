use syzygy::context::EventContext;
use syzygy::dispatch::{Effects, SpawnCall};
use syzygy::event_bus::{
    EmitEvent, Event, EventBus, EventHandlerError, EventHandlerFn, EventType, Subscribe,
    Unsubscribe,
};
use syzygy::model::Model;
use syzygy::syzygy::{Effect, EffectContext, Syzygy, SyzygyBuilder};

#[derive(Debug, Clone, PartialEq, Eq)]
struct BusModel {
    counter: i64,
}

impl Model for BusModel {
    type Snapshot = BusModel;

    fn snapshot_spec(&self) -> BusModel {
        self.clone()
    }

    fn into_snapshot(&self) -> BusModel {
        self.clone()
    }
}

#[derive(Debug)]
enum BusEffect {
    Increment,
    Digit(i64),
}

type Calls = SpawnCall<(), ()>;
type Cx = EventContext<(), BusEffect, Calls, Ping>;

impl Effect<BusModel, (), Calls> for BusEffect {
    fn run(self, cx: &mut EffectContext<BusModel, (), Self, Calls>) -> Effects<Self, Calls> {
        match self {
            BusEffect::Increment => {
                cx.model.counter += 1;
                Effects::none()
            }
            BusEffect::Digit(d) => {
                cx.model.counter = cx.model.counter * 10 + d;
                Effects::none()
            }
        }
    }
}

#[derive(Debug, Clone, PartialEq, Eq)]
struct Ping(u32);

impl Event for Ping {}

#[derive(Debug)]
enum Handler {
    Increment,
    Digit(i64),
}

impl EventHandlerFn<Cx, Ping> for Handler {
    fn on_event(&self, cx: &Cx, _event: &Ping) {
        match self {
            Handler::Increment => {
                cx.dispatch(Effects::from(BusEffect::Increment)).unwrap();
            }
            Handler::Digit(d) => {
                cx.dispatch(Effects::from(BusEffect::Digit(*d))).unwrap();
            }
        }
    }
}

fn fresh() -> (Syzygy<BusModel, (), BusEffect, Calls>, EventBus<Ping, Handler>) {
    let runtime = SyzygyBuilder::new().model(BusModel { counter: 0 }).build();
    let bus = EventBus::new();
    (runtime, bus)
}

fn event_context(runtime: &Syzygy<BusModel, (), BusEffect, Calls>, bus: &EventBus<Ping, Handler>) -> Cx {
    EventContext::new(runtime.resources().clone(), runtime.sender(), bus.sender())
}

fn ping_type() -> EventType {
    EventType::new::<Ping>("events::Ping")
}

#[test]
fn test_event_delivery() {
    let (mut runtime, mut bus) = fresh();
    let ty = ping_type();

    bus.subscribe(&ty, Some("h1".to_string()), Handler::Increment).unwrap();

    bus.emit(ty.clone(), Ping(1)).unwrap();

    let (popped_ty, payload) = bus.pop().unwrap();
    let cx = event_context(&runtime, &bus);
    bus.handle(&cx, &popped_ty, &payload).unwrap();
    runtime.handle_effects();

    assert_eq!(runtime.model().counter, 1);

    let again = bus.subscribe(&ty, Some("h1".to_string()), Handler::Increment);
    assert!(matches!(again, Err(EventHandlerError::AlreadyExists(name)) if name == "h1"));
}

#[test]
fn subscription_names_are_unique_across_event_types() {
    let (_runtime, mut bus) = fresh();
    let ty_a = ping_type();
    let ty_b = EventType::from_parts(999, "events::Other".to_string());

    bus.subscribe(&ty_a, Some("shared".to_string()), Handler::Increment).unwrap();
    let clash = bus.subscribe(&ty_b, Some("shared".to_string()), Handler::Increment);
    assert!(matches!(clash, Err(EventHandlerError::AlreadyExists(name)) if name == "shared"));
}

#[test]
fn default_subscription_name_is_the_event_type_name() {
    let (_runtime, mut bus) = fresh();
    let ty = ping_type();

    bus.subscribe(&ty, None, Handler::Increment).unwrap();
    let again = bus.subscribe(&ty, None, Handler::Increment);
    assert!(matches!(again, Err(EventHandlerError::AlreadyExists(name)) if name == "events::Ping"));
}

#[test]
fn unsubscribe_of_missing_name_is_refused() {
    let (_runtime, mut bus) = fresh();

    let missing = bus.unsubscribe("ghost".to_string());
    assert!(matches!(missing, Err(EventHandlerError::HandlerNotFound(name)) if name == "ghost"));
}

#[test]
fn unsubscribed_handler_receives_nothing() {
    let (mut runtime, mut bus) = fresh();
    let ty = ping_type();

    bus.subscribe(&ty, Some("h1".to_string()), Handler::Increment).unwrap();
    bus.unsubscribe("h1".to_string()).unwrap();

    bus.emit(ty.clone(), Ping(2)).unwrap();
    let (popped_ty, payload) = bus.pop().unwrap();
    let cx = event_context(&runtime, &bus);
    let outcome = bus.handle(&cx, &popped_ty, &payload);
    assert!(matches!(outcome, Err(EventHandlerError::Unregistered(name)) if name == "events::Ping"));

    runtime.handle_effects();
    assert_eq!(runtime.model().counter, 0);
}

#[test]
fn handlers_run_in_registration_order() {
    let (mut runtime, mut bus) = fresh();
    let ty = ping_type();

    bus.subscribe(&ty, Some("first".to_string()), Handler::Digit(1)).unwrap();
    bus.subscribe(&ty, Some("second".to_string()), Handler::Digit(2)).unwrap();

    bus.emit(ty.clone(), Ping(3)).unwrap();
    let (popped_ty, payload) = bus.pop().unwrap();
    let cx = event_context(&runtime, &bus);
    bus.handle(&cx, &popped_ty, &payload).unwrap();
    runtime.handle_effects();

    assert_eq!(runtime.model().counter, 12);
}

#[test]
fn handling_an_unknown_event_type_is_refused() {
    let (runtime, mut bus) = fresh();
    let unknown = EventType::from_parts(123, "events::Unknown".to_string());

    let cx = event_context(&runtime, &bus);
    let outcome = bus.handle(&cx, &unknown, &Ping(0));
    assert!(
        matches!(outcome, Err(EventHandlerError::Unregistered(name)) if name == "events::Unknown")
    );
}

#[test]
fn event_type_carries_key_and_name() {
    let ty = EventType::from_parts(41, "events::Tick".to_string());
    assert_eq!(ty.key(), 41);
    assert_eq!(ty.name(), "events::Tick");

    let a = ping_type();
    let b = ping_type();
    assert_eq!(a.key(), b.key());
    assert_eq!(a.name(), "events::Ping");
}

#[test]
fn distinct_types_get_distinct_keys() {
    let a = EventType::new::<Ping>("events::Ping");
    let b = EventType::new::<BusModel>("events::BusModel");
    assert_ne!(a.key(), b.key());
}

#[test]
fn resubscribing_after_unsubscribe_succeeds() {
    let (mut runtime, mut bus) = fresh();
    let ty = ping_type();

    bus.subscribe(&ty, Some("h1".to_string()), Handler::Increment).unwrap();
    bus.unsubscribe("h1".to_string()).unwrap();
    bus.subscribe(&ty, Some("h1".to_string()), Handler::Increment).unwrap();

    bus.emit(ty.clone(), Ping(9)).unwrap();
    let (popped_ty, payload) = bus.pop().unwrap();
    let cx = event_context(&runtime, &bus);
    bus.handle(&cx, &popped_ty, &payload).unwrap();
    runtime.handle_effects();

    assert_eq!(runtime.model().counter, 1);
}

/// A host that owns a bus, exercising the capability sugar.
struct Host {
    bus: EventBus<Ping, Handler>,
}

impl Subscribe<Ping, Handler> for Host {
    fn event_bus(&mut self) -> &mut EventBus<Ping, Handler> {
        &mut self.bus
    }
}

impl Unsubscribe<Ping, Handler> for Host {}

#[test]
fn capability_traits_delegate_to_the_bus() {
    let (_runtime, bus) = fresh();
    let mut host = Host { bus };
    let ty = ping_type();

    host.subscribe(&ty, Some("h1".to_string()), Handler::Increment).unwrap();
    let again = host.subscribe(&ty, Some("h1".to_string()), Handler::Increment);
    assert!(matches!(again, Err(EventHandlerError::AlreadyExists(_))));

    host.unsubscribe("h1".to_string()).unwrap();
    let missing = host.unsubscribe("h1".to_string());
    assert!(matches!(missing, Err(EventHandlerError::HandlerNotFound(_))));
}

#[test]
fn context_emit_reaches_the_bus() {
    let (runtime, bus) = fresh();
    let cx = event_context(&runtime, &bus);
    let ty = ping_type();

    cx.emit(ty.clone(), Ping(5)).unwrap();

    let (popped_ty, payload) = bus.pop().unwrap();
    assert_eq!(popped_ty.key(), ty.key());
    assert_eq!(payload, Ping(5));
}

#[test]
fn pump_routes_every_queued_event() {
    let (mut runtime, mut bus) = fresh();
    let ty = ping_type();

    bus.subscribe(&ty, Some("h1".to_string()), Handler::Increment).unwrap();
    bus.emit(ty.clone(), Ping(1)).unwrap();
    bus.emit(ty.clone(), Ping(2)).unwrap();

    let cx = event_context(&runtime, &bus);
    bus.pump(&cx).unwrap();
    runtime.handle_effects();

    assert_eq!(runtime.model().counter, 2);
}
