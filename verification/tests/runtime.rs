use syzygy::dispatch::{EffectError, Effects, SpawnCall};
use syzygy::resource::{ResourceError, Resources};
use syzygy::model::Model;
use syzygy::syzygy::{Effect, EffectContext, Syzygy, SyzygyBuilder};

#[derive(Debug, Clone, PartialEq, Eq)]
struct TestModel {
    counter: i64,
}

impl Model for TestModel {
    type Snapshot = TestModel;

    fn snapshot_spec(&self) -> TestModel {
        self.clone()
    }

    fn into_snapshot(&self) -> TestModel {
        self.clone()
    }
}

#[derive(Debug, Clone, PartialEq, Eq)]
struct TestResource {
    name: String,
}

type Calls = SpawnCall<(), ()>;

#[derive(Debug)]
enum CounterEffect {
    Increment,
    Assign(i64),
    FollowUp,
}

impl<R> Effect<TestModel, R, Calls> for CounterEffect {
    fn run(self, cx: &mut EffectContext<TestModel, R, Self, Calls>) -> Effects<Self, Calls> {
        match self {
            CounterEffect::Increment => {
                cx.model.counter += 1;
                Effects::none()
            }
            CounterEffect::Assign(v) => {
                cx.model.counter = v;
                Effects::none()
            }
            CounterEffect::FollowUp => Effects::from(CounterEffect::Increment),
        }
    }
}

fn fresh() -> Syzygy<TestModel, (), CounterEffect, Calls> {
    SyzygyBuilder::new().model(TestModel { counter: 0 }).build()
}

#[test]
fn test_model() {
    let mut runtime = fresh();
    assert_eq!(runtime.model().counter, 0);

    runtime.model_mut().counter += 1;
    assert_eq!(runtime.model().counter, 1);

    runtime.model_mut().counter = 42;
    assert_eq!(runtime.model().counter, 42);

    let snapshot = runtime.create_snapshot();
    assert_eq!(snapshot, TestModel { counter: 42 });

    runtime.model_mut().counter += 1;
    assert_eq!(snapshot.counter, 42);
    assert_eq!(runtime.model().counter, 43);
}

const RES_KEY: u64 = 7;
const OTHER_KEY: u64 = 8;

#[test]
fn test_resources() {
    let runtime: Syzygy<TestModel, TestResource, CounterEffect, Calls> = SyzygyBuilder::new()
        .model(TestModel { counter: 0 })
        .resource(RES_KEY, TestResource { name: "test_str".to_string() })
        .unwrap()
        .build();

    assert_eq!(runtime.resource(RES_KEY).name, "test_str");

    let found = runtime.try_resource(RES_KEY);
    assert!(found.is_some());
    assert_eq!(found.unwrap().name, "test_str");

    assert!(runtime.try_resource(OTHER_KEY).is_none());
}

#[test]
fn duplicate_resource_key_is_refused() {
    let builder = SyzygyBuilder::<TestModel, TestResource>::new()
        .model(TestModel { counter: 0 })
        .resource(RES_KEY, TestResource { name: "first".to_string() })
        .unwrap();

    let clash = builder.resource(RES_KEY, TestResource { name: "second".to_string() });
    assert!(matches!(clash, Err(ResourceError::AlreadyExists)));
}

#[test]
fn test_async_dispatch() {
    let mut runtime = fresh();

    for _ in 0..5 {
        runtime.dispatch(Effects::from(CounterEffect::Increment));
    }

    runtime.handle_effects();

    assert_eq!(runtime.model().counter, 5);
}

#[test]
fn test_sync_dispatch() {
    let mut runtime = fresh();

    let rx = runtime.dispatch_sync(CounterEffect::Increment);

    runtime.handle_effects();
    rx.wait().unwrap();

    assert_eq!(runtime.model().counter, 1);
}

#[test]
fn trigger_enqueues_one_effect() {
    let mut runtime = fresh();
    runtime.trigger(CounterEffect::Assign(9));
    runtime.trigger(CounterEffect::Increment);
    runtime.handle_effects();
    assert_eq!(runtime.model().counter, 10);
}

#[test]
fn empty_drain_is_noop() {
    let mut runtime = fresh();
    runtime.handle_effects();
    assert_eq!(runtime.model().counter, 0);

    runtime.handle_effects();
    runtime.handle_effects();
    assert_eq!(runtime.model().counter, 0);
}

#[test]
fn follow_up_chaining() {
    let mut runtime = fresh();

    runtime.dispatch(Effects::from(CounterEffect::FollowUp));
    runtime.handle_effects();

    assert_eq!(runtime.model().counter, 1);
}

#[test]
fn follow_up_of_last_batch_runs_before_return() {
    let mut runtime = fresh();

    runtime.dispatch(Effects::from(CounterEffect::Increment));
    runtime.dispatch(Effects::from(CounterEffect::FollowUp));
    runtime.handle_effects();

    assert_eq!(runtime.model().counter, 2);
}

#[test]
fn channel_dispatch_arrives() {
    let mut runtime = fresh();

    let sender = runtime.sender();
    sender.dispatch(Effects::from(CounterEffect::Increment)).unwrap();
    sender
        .dispatch(Effects::new().effect(CounterEffect::Increment).effect(CounterEffect::Increment))
        .unwrap();

    runtime.handle_effects();
    assert_eq!(runtime.model().counter, 3);
}

#[derive(Debug, Clone, PartialEq, Eq)]
struct LogModel {
    log: Vec<u32>,
}

impl Model for LogModel {
    type Snapshot = LogModel;

    fn snapshot_spec(&self) -> LogModel {
        self.clone()
    }

    fn into_snapshot(&self) -> LogModel {
        self.clone()
    }
}

#[derive(Debug)]
enum LogEffect {
    Tag(u32),
    TagThenFollow(u32, u32),
}

impl Effect<LogModel, (), Calls> for LogEffect {
    fn run(self, cx: &mut EffectContext<LogModel, (), Self, Calls>) -> Effects<Self, Calls> {
        match self {
            LogEffect::Tag(n) => {
                cx.model.log.push(n);
                Effects::none()
            }
            LogEffect::TagThenFollow(n, follow) => {
                cx.model.log.push(n);
                Effects::from(LogEffect::Tag(follow))
            }
        }
    }
}

#[test]
fn effects_run_in_batch_arrival_order_with_follow_ups_at_tail() {
    let mut runtime: Syzygy<LogModel, (), LogEffect, Calls> =
        SyzygyBuilder::new().model(LogModel { log: Vec::new() }).build();

    runtime
        .dispatch(Effects::new().effect(LogEffect::Tag(1)).effect(LogEffect::TagThenFollow(2, 4)));
    runtime.dispatch(Effects::from(LogEffect::Tag(3)));
    runtime.handle_effects();

    assert_eq!(runtime.model().log, vec![1, 2, 3, 4]);
}

#[test]
fn batch_builders_report_contents() {
    let empty: Effects<CounterEffect, Calls> = Effects::new();
    assert!(empty.is_empty());
    assert_eq!(empty.len(), 0);

    let none: Effects<CounterEffect, Calls> = Effects::none();
    assert!(none.is_empty());

    let sized: Effects<CounterEffect, Calls> = Effects::with_capacity(4);
    assert!(sized.is_empty());

    let one = Effects::<CounterEffect, Calls>::from(CounterEffect::Increment);
    assert_eq!(one.len(), 1);

    let two = one.effect(CounterEffect::Assign(3));
    assert_eq!(two.len(), 2);
    assert!(!two.is_empty());
}

#[test]
fn error_messages_name_the_failure() {
    assert_eq!(EffectError::ChannelClosed.message(), "Channel closed");
    assert_eq!(EffectError::RuntimeStopped.message(), "Runtime stopped");
}

#[test]
fn resource_map_refuses_repeated_keys() {
    let mut resources: Resources<TestResource> = Resources::new();
    assert_eq!(resources.len(), 0);
    assert!(!resources.contains_key(RES_KEY));

    resources.insert(RES_KEY, TestResource { name: "first".to_string() }).unwrap();
    assert_eq!(resources.len(), 1);
    assert!(resources.contains_key(RES_KEY));

    let clash = resources.insert(RES_KEY, TestResource { name: "second".to_string() });
    assert!(matches!(clash, Err(ResourceError::AlreadyExists)));
    assert_eq!(resources.len(), 1);
    assert_eq!(resources.resource(RES_KEY).name, "first");
}
