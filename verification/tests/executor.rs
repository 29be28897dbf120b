use syzygy::context::{Context, Dispatcher, Model, Resource, Snapshot};
use syzygy::dispatch::{Effects, SpawnCall};
use syzygy::model::Model as ModelTrait;
use syzygy::syzygy::{Effect, EffectContext, Syzygy};

#[derive(Debug, Clone, PartialEq, Eq)]
struct TestModel {
    counter: i32,
}

impl ModelTrait for TestModel {
    type Snapshot = TestModel;

    fn snapshot_spec(&self) -> TestModel {
        self.clone()
    }

    fn into_snapshot(&self) -> TestModel {
        self.clone()
    }
}

#[derive(Debug, Clone, PartialEq, Eq)]
struct TestResource {
    name: String,
}

#[derive(Debug)]
enum ExecEffect {
    Increment,
    StashResourceLen,
}

type Calls = SpawnCall<(), ()>;

impl Effect<TestModel, TestResource, Calls> for ExecEffect {
    fn run(
        self,
        cx: &mut EffectContext<TestModel, TestResource, Self, Calls>,
    ) -> Effects<Self, Calls> {
        match self {
            ExecEffect::Increment => {
                cx.model.counter += 1;
                Effects::none()
            }
            ExecEffect::StashResourceLen => {
                let snapshot = cx.create_snapshot();
                let length = match cx.try_resource(RESOURCE_KEY) {
                    Some(resource) => resource.name.len() as i32,
                    None => 0,
                };
                cx.model_mut().counter = snapshot.counter + length;
                Effects::none()
            }
        }
    }
}

const RESOURCE_KEY: u64 = 1;

fn fresh() -> Syzygy<TestModel, TestResource, ExecEffect, Calls> {
    Syzygy::<TestModel, TestResource, ExecEffect, Calls>::builder()
        .model(TestModel { counter: 0 })
        .resource(RESOURCE_KEY, TestResource { name: "test".to_string() })
        .unwrap()
        .build()
}

#[test]
fn test_context_executor() {
    let mut syzygy = fresh();

    syzygy.execute(|Model(model): Model<TestModel>| println!("counter is {}", model.counter));
    syzygy.model_mut().counter += 1;
    syzygy.execute(|Model(model): Model<TestModel>| println!("counter is {}", model.counter));
    syzygy.execute(|Resource(resource): Resource<RESOURCE_KEY, TestResource>| {
        println!("name is {}", resource.name)
    });

    syzygy.execute(|| println!("Hello, world!"));
}

#[test]
fn executor_extracts_current_values() {
    let mut syzygy = fresh();
    syzygy.model_mut().counter = 5;

    let counter = syzygy.execute(|Model(model): Model<TestModel>| model.counter);
    assert_eq!(counter, 5);

    let name =
        syzygy.execute(|Resource(resource): Resource<RESOURCE_KEY, TestResource>| resource.name);
    assert_eq!(name, "test");

    let pair = syzygy.execute(
        |Model(model): Model<TestModel>, Resource(resource): Resource<RESOURCE_KEY, TestResource>| {
            (model.counter, resource.name)
        },
    );
    assert_eq!(pair, (5, "test".to_string()));
}

#[test]
fn snapshot_extractor_is_independent() {
    let mut syzygy = fresh();
    syzygy.model_mut().counter = 3;

    let snap = syzygy.execute(|Snapshot(snap): Snapshot<TestModel>| snap);
    syzygy.model_mut().counter = 9;

    assert_eq!(snap.counter, 3);
    assert_eq!(syzygy.model().counter, 9);
}

#[test]
fn dispatcher_extractor_reaches_the_queue() {
    let mut syzygy = fresh();

    syzygy.execute(|Dispatcher(sender): Dispatcher<ExecEffect, Calls>| {
        sender.dispatch(Effects::from(ExecEffect::Increment)).unwrap();
    });
    syzygy.handle_effects();

    assert_eq!(syzygy.model().counter, 1);
}

#[test]
fn effects_reach_resources_and_snapshots_through_their_context() {
    let mut syzygy = fresh();
    syzygy.model_mut().counter = 2;

    syzygy.dispatch(Effects::from(ExecEffect::StashResourceLen));
    syzygy.handle_effects();

    assert_eq!(syzygy.model().counter, 6);
}
