use syzygy::context::ThreadContext;
use syzygy::dispatch::DispatchEffect;
use syzygy::dispatch::{
    AsyncTask, Chain, Effects, MapFn, PerformFn, SpawnCall, SpawnFn, TaskKind, ThreadTask,
};
use syzygy::event_bus::{Event, EventBus};
use syzygy::model::Model;
use syzygy::syzygy::{Effect, EffectContext, Syzygy, SyzygyBuilder};

#[derive(Debug, Clone, PartialEq, Eq)]
struct TaskModel {
    counter: i64,
}

impl Model for TaskModel {
    type Snapshot = TaskModel;

    fn snapshot_spec(&self) -> TaskModel {
        self.clone()
    }

    fn into_snapshot(&self) -> TaskModel {
        self.clone()
    }
}

#[derive(Debug)]
enum TaskEffect {
    Add(i64),
}

type Calls = SpawnCall<Probe, PerformAdd>;
type Cx = ThreadContext<(), TaskEffect, Calls, PingEvent>;

impl Effect<TaskModel, (), Calls> for TaskEffect {
    fn run(self, cx: &mut EffectContext<TaskModel, (), Self, Calls>) -> Effects<Self, Calls> {
        match self {
            TaskEffect::Add(n) => {
                cx.model.counter += n;
                Effects::none()
            }
        }
    }
}

#[derive(Debug)]
enum ChainEffect {
    Add(i64),
}

type ChainCalls = SpawnCall<Chain<Probe, AddTen>, PerformChainAdd>;

impl Effect<TaskModel, (), ChainCalls> for ChainEffect {
    fn run(
        self,
        cx: &mut EffectContext<TaskModel, (), Self, ChainCalls>,
    ) -> Effects<Self, ChainCalls> {
        match self {
            ChainEffect::Add(n) => {
                cx.model.counter += n;
                Effects::none()
            }
        }
    }
}

/// A unit of background work yielding its payload.
#[derive(Debug, Clone, Copy, PartialEq, Eq)]
struct Probe(i64);

impl<C> SpawnFn<C> for Probe {
    type Output = i64;

    fn call(self, _cx: C) -> i64 {
        println!("hello from thread task");
        self.0
    }
}

/// Maps a finished task's output to the batch adding it to the counter.
#[derive(Debug, Clone, Copy)]
struct PerformAdd;

impl PerformFn<i64, TaskEffect, Calls> for PerformAdd {
    fn perform(self, output: i64) -> Effects<TaskEffect, Calls> {
        Effects::from(TaskEffect::Add(output))
    }
}

#[derive(Debug, Clone, Copy)]
struct PerformChainAdd;

impl PerformFn<i64, ChainEffect, ChainCalls> for PerformChainAdd {
    fn perform(self, output: i64) -> Effects<ChainEffect, ChainCalls> {
        Effects::from(ChainEffect::Add(output))
    }
}

#[derive(Debug, Clone, Copy)]
struct AddTen;

impl MapFn<i64> for AddTen {
    type Output = i64;

    fn apply(self, input: i64) -> i64 {
        input + 10
    }
}

#[derive(Debug)]
struct PingEvent;

impl Event for PingEvent {}

#[derive(Debug)]
struct NoHandler;

fn fresh(counter: i64) -> Syzygy<TaskModel, (), TaskEffect, Calls> {
    SyzygyBuilder::new().model(TaskModel { counter }).build()
}

/// Acts as the host spawner, but synchronously: runs each request's
/// work, maps its output, and dispatches the resulting batch back.
fn run_spawns(runtime: &mut Syzygy<TaskModel, (), TaskEffect, Calls>, expected_kind: TaskKind) {
    let calls = runtime.take_spawns();
    let bus: EventBus<PingEvent, NoHandler> = EventBus::new();
    let cx: Cx = ThreadContext::new(runtime.resources().clone(), runtime.sender(), bus.sender());
    for call in calls {
        assert_eq!(call.kind, expected_kind);
        let output = call.work.call(cx.clone());
        if let Some(after) = call.after {
            cx.dispatch(after.perform(output)).unwrap();
        }
    }
}

#[test]
fn test_thread_task() {
    let mut runtime = fresh(98);

    let effects = Effects::new()
        .spawn(Probe(1), PerformAdd)
        .spawn_request(ThreadTask::new(Probe(1)).perform(PerformAdd));
    runtime.dispatch(effects);

    runtime.handle_effects();
    run_spawns(&mut runtime, TaskKind::Blocking);
    runtime.handle_effects();

    assert_eq!(runtime.model().counter, 100);
}

#[test]
fn thread_task_and_then_composes() {
    let chained = ThreadTask::new(Probe(5)).and_then(AddTen);
    let bus: EventBus<PingEvent, NoHandler> = EventBus::new();
    let runtime = fresh(0);
    let cx: Cx = ThreadContext::new(runtime.resources().clone(), runtime.sender(), bus.sender());

    let output = chained.work.call(cx);
    assert_eq!(output, 15);
}

#[test]
fn chained_task_round_trip() {
    let mut runtime: Syzygy<TaskModel, (), ChainEffect, ChainCalls> =
        SyzygyBuilder::new().model(TaskModel { counter: 0 }).build();

    let task = ThreadTask::new(Probe(5)).and_then(AddTen);
    runtime.dispatch(Effects::new().spawn_request(task.perform(PerformChainAdd)));
    runtime.handle_effects();

    let calls = runtime.take_spawns();
    assert_eq!(calls.len(), 1);
    let bus: EventBus<PingEvent, NoHandler> = EventBus::new();
    let cx: ThreadContext<(), ChainEffect, ChainCalls, PingEvent> =
        ThreadContext::new(runtime.resources().clone(), runtime.sender(), bus.sender());
    for call in calls {
        let output = call.work.call(cx.clone());
        assert_eq!(output, 15);
        cx.dispatch(call.after.unwrap().perform(output)).unwrap();
    }
    runtime.handle_effects();

    assert_eq!(runtime.model().counter, 15);
}

#[test]
fn test_async_task_round_trip() {
    let mut runtime = fresh(0);

    let effects = Effects::new().task(Probe(1)).perform(PerformAdd);
    runtime.dispatch(effects);

    runtime.handle_effects();
    run_spawns(&mut runtime, TaskKind::Async);
    runtime.handle_effects();

    assert_eq!(runtime.model().counter, 1);
}

#[test]
fn async_task_done_discards_output() {
    let mut runtime = fresh(0);

    let effects: Effects<TaskEffect, Calls> = Effects::new().task(Probe(1)).done();
    runtime.dispatch(effects);

    runtime.handle_effects();
    run_spawns(&mut runtime, TaskKind::Async);
    runtime.handle_effects();

    assert_eq!(runtime.model().counter, 0);
}

#[test]
fn unfinished_thread_batch_terminates_with_perform() {
    let mut runtime = fresh(0);

    let effects =
        Effects::new().effect(TaskEffect::Add(3)).thread_task(Probe(2)).perform(PerformAdd);
    runtime.dispatch(effects);

    runtime.handle_effects();
    assert_eq!(runtime.model().counter, 3);

    run_spawns(&mut runtime, TaskKind::Blocking);
    runtime.handle_effects();
    assert_eq!(runtime.model().counter, 5);
}

#[test]
fn async_task_constructors_compose() {
    let task = AsyncTask::new(Probe(7)).and_then(AddTen);
    let bus: EventBus<PingEvent, NoHandler> = EventBus::new();
    let runtime = fresh(0);
    let cx: Cx = ThreadContext::new(runtime.resources().clone(), runtime.sender(), bus.sender());

    assert_eq!(task.work.call(cx), 17);
}

#[test]
fn context_side_dispatch_crosses_the_channel() {
    let mut runtime = fresh(0);
    let bus: EventBus<PingEvent, NoHandler> = EventBus::new();
    let cx: Cx = ThreadContext::new(runtime.resources().clone(), runtime.sender(), bus.sender());

    cx.trigger(TaskEffect::Add(2)).unwrap();
    let handle = cx.dispatch_sync(TaskEffect::Add(3)).unwrap();

    runtime.handle_effects();
    handle.wait().unwrap();

    assert_eq!(runtime.model().counter, 5);
}
