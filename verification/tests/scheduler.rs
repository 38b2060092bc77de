use std::cell::RefCell;
use std::rc::Rc;

use sprinkles_os::runtime::executor::{Executor, PollRecord, SpawnError, TASK_QUEUE_CAPACITY};
use sprinkles_os::runtime::simple_executor::SimpleExecutor;
use sprinkles_os::runtime::{Poll, PollOutcome, StateMachine, Task, TaskId, TaskIdCounter, TaskWaker};
use sprinkles_os::task::keyboard::{add_scancode, InterruptBridge, ScancodeDelivery, ScancodeStream};

/// A task body that reports the outcomes it was given, one per poll, and
/// counts its polls in a place that the test can see.
struct Scripted {
    outcomes: Vec<PollOutcome>,
    polls: Rc<RefCell<usize>>,
}

impl Scripted {
    fn new(outcomes: Vec<PollOutcome>) -> Self {
        Scripted { outcomes, polls: Rc::new(RefCell::new(0)) }
    }

    fn counted(outcomes: Vec<PollOutcome>, polls: &Rc<RefCell<usize>>) -> Self {
        Scripted { outcomes, polls: polls.clone() }
    }
}

impl StateMachine for Scripted {
    fn poll(&mut self, _waker: &TaskWaker) -> PollOutcome {
        let mut polls = self.polls.borrow_mut();
        let outcome = self.outcomes[*polls];
        *polls += 1;
        outcome
    }
}

/// Either a scripted body or one that reads one scancode from a stream.
enum Body {
    Script(Scripted),
    Reader {
        stream: ScancodeStream,
        bridge: Rc<RefCell<InterruptBridge>>,
        seen: Rc<RefCell<Vec<u8>>>,
    },
}

impl StateMachine for Body {
    fn poll(&mut self, waker: &TaskWaker) -> PollOutcome {
        match self {
            Body::Script(script) => script.poll(waker),
            Body::Reader { stream, bridge, seen } => {
                match stream.poll_next(&mut bridge.borrow_mut(), waker) {
                    Poll::Ready(Some(scancode)) => {
                        seen.borrow_mut().push(scancode);
                        PollOutcome::Finished
                    }
                    Poll::Ready(None) => PollOutcome::Finished,
                    Poll::Pending => PollOutcome::Suspended,
                }
            }
        }
    }
}

fn record(id: TaskId, outcome: PollOutcome) -> PollRecord {
    PollRecord { id, outcome }
}

#[test]
fn identifiers_count_up_from_zero() {
    let mut counter = TaskIdCounter::new();
    assert_eq!(TaskId::new(&mut counter), TaskId(0));
    assert_eq!(TaskId::new(&mut counter), TaskId(1));
    let task = Task::new(Scripted::new(vec![]), &mut counter);
    assert_eq!(task.task_id(), TaskId(2));
    assert_eq!(counter.fetch_add(), TaskId(3));
}

#[test]
fn waker_names_its_task() {
    assert_eq!(TaskWaker::new(TaskId(7)).target(), TaskId(7));
}

#[test]
fn task_poll_runs_the_body_with_the_waker() {
    let mut counter = TaskIdCounter::new();
    let polls = Rc::new(RefCell::new(0));
    let mut task = Task::new(
        Scripted::counted(vec![PollOutcome::Runnable, PollOutcome::Finished], &polls),
        &mut counter,
    );
    let waker = TaskWaker::new(task.task_id());
    assert_eq!(task.poll(&waker), PollOutcome::Runnable);
    assert_eq!(task.poll(&waker), PollOutcome::Finished);
    assert_eq!(*polls.borrow(), 2);
    assert_eq!(task.task_id(), TaskId(0));
}

#[test]
fn new_executor_is_idle_and_empty() {
    let mut executor: Executor<Scripted> = Executor::new();
    assert!(executor.is_idle());
    assert!(!executor.has_task(TaskId(0)));
    assert_eq!(executor.run_ready_tasks(), vec![]);
    assert_eq!(TASK_QUEUE_CAPACITY, 100);
}

#[test]
fn finished_task_is_polled_once_and_removed() {
    let mut counter = TaskIdCounter::new();
    let mut executor = Executor::new();
    let polls = Rc::new(RefCell::new(0));
    let a = Task::new(Scripted::counted(vec![PollOutcome::Finished], &polls), &mut counter);
    let id = a.task_id();
    executor.spawn(a);
    assert!(executor.has_task(id));
    assert!(!executor.is_idle());
    let report = executor.run_ready_tasks();
    assert_eq!(report, vec![record(id, PollOutcome::Finished)]);
    assert_eq!(*polls.borrow(), 1);
    assert!(!executor.has_task(id));
    assert!(executor.is_idle());
    assert_eq!(executor.run_ready_tasks(), vec![]);
    assert_eq!(*polls.borrow(), 1);
}

#[test]
fn suspended_task_is_kept_and_not_polled_until_woken() {
    let mut counter = TaskIdCounter::new();
    let mut executor = Executor::new();
    let polls = Rc::new(RefCell::new(0));
    let task = Task::new(
        Scripted::counted(vec![PollOutcome::Suspended, PollOutcome::Finished], &polls),
        &mut counter,
    );
    let id = task.task_id();
    executor.spawn(task);
    assert_eq!(executor.run_ready_tasks(), vec![record(id, PollOutcome::Suspended)]);
    assert!(executor.has_task(id));
    assert!(executor.is_idle());
    assert_eq!(executor.run_ready_tasks(), vec![]);
    assert_eq!(executor.run_ready_tasks(), vec![]);
    assert_eq!(*polls.borrow(), 1);
    executor.wake(&TaskWaker::new(id));
    assert!(!executor.is_idle());
    assert_eq!(executor.run_ready_tasks(), vec![record(id, PollOutcome::Finished)]);
    assert_eq!(*polls.borrow(), 2);
    assert!(!executor.has_task(id));
}

#[test]
fn duplicate_wake_entries_cause_one_poll_per_pass() {
    let mut counter = TaskIdCounter::new();
    let mut executor = Executor::new();
    let polls = Rc::new(RefCell::new(0));
    let task = Task::new(
        Scripted::counted(
            vec![PollOutcome::Suspended, PollOutcome::Suspended, PollOutcome::Suspended],
            &polls,
        ),
        &mut counter,
    );
    let id = task.task_id();
    executor.spawn(task);
    assert_eq!(executor.run_ready_tasks().len(), 1);
    let waker = TaskWaker::new(id);
    executor.wake(&waker);
    executor.wake(&waker);
    executor.wake(&waker);
    assert_eq!(executor.run_ready_tasks(), vec![record(id, PollOutcome::Suspended)]);
    assert_eq!(*polls.borrow(), 2);
    assert!(executor.is_idle());
    assert_eq!(executor.run_ready_tasks(), vec![]);
    assert_eq!(*polls.borrow(), 2);
}

#[test]
fn tasks_are_polled_in_the_order_of_readiness() {
    let mut counter = TaskIdCounter::new();
    let mut executor = Executor::new();
    let mut ids = Vec::new();
    for _ in 0..4 {
        let task = Task::new(
            Scripted::new(vec![PollOutcome::Suspended, PollOutcome::Finished]),
            &mut counter,
        );
        ids.push(task.task_id());
        executor.spawn(task);
    }
    let first: Vec<TaskId> = executor.run_ready_tasks().iter().map(|r| r.id).collect();
    assert_eq!(first, ids);
    executor.wake(&TaskWaker::new(ids[2]));
    executor.wake(&TaskWaker::new(ids[0]));
    executor.wake(&TaskWaker::new(ids[2]));
    executor.wake(&TaskWaker::new(ids[3]));
    let second: Vec<TaskId> = executor.run_ready_tasks().iter().map(|r| r.id).collect();
    assert_eq!(second, vec![ids[2], ids[0], ids[3]]);
    assert!(executor.has_task(ids[1]));
    assert!(!executor.has_task(ids[0]));
}

#[test]
fn runnable_task_is_revisited_in_the_next_pass_only() {
    let mut counter = TaskIdCounter::new();
    let mut executor = Executor::new();
    let polls = Rc::new(RefCell::new(0));
    let yielding = Task::new(
        Scripted::counted(vec![PollOutcome::Runnable, PollOutcome::Runnable, PollOutcome::Finished], &polls),
        &mut counter,
    );
    let other = Task::new(Scripted::new(vec![PollOutcome::Finished]), &mut counter);
    let (a, b) = (yielding.task_id(), other.task_id());
    executor.spawn(yielding);
    executor.spawn(other);
    assert_eq!(
        executor.run_ready_tasks(),
        vec![record(a, PollOutcome::Runnable), record(b, PollOutcome::Finished)]
    );
    assert_eq!(*polls.borrow(), 1);
    assert!(!executor.is_idle());
    assert_eq!(executor.run_ready_tasks(), vec![record(a, PollOutcome::Runnable)]);
    assert_eq!(executor.run_ready_tasks(), vec![record(a, PollOutcome::Finished)]);
    assert!(executor.is_idle());
    assert!(!executor.has_task(a));
}

#[test]
fn wake_of_a_finished_task_is_discarded() {
    let mut counter = TaskIdCounter::new();
    let mut executor = Executor::new();
    let task = Task::new(Scripted::new(vec![PollOutcome::Finished]), &mut counter);
    let id = task.task_id();
    executor.spawn(task);
    assert_eq!(executor.run_ready_tasks().len(), 1);
    executor.wake(&TaskWaker::new(id));
    executor.wake(&TaskWaker::new(TaskId(99)));
    assert!(!executor.is_idle());
    assert_eq!(executor.run_ready_tasks(), vec![]);
    assert!(executor.is_idle());
}

#[test]
fn duplicate_identifier_is_rejected() {
    let mut first = TaskIdCounter::new();
    let mut second = TaskIdCounter::new();
    let mut executor = Executor::new();
    let a = Task::new(Scripted::new(vec![PollOutcome::Suspended]), &mut first);
    let b = Task::new(Scripted::new(vec![PollOutcome::Finished]), &mut second);
    let id = a.task_id();
    assert_eq!(b.task_id(), id);
    assert_eq!(executor.try_spawn(a), Ok(()));
    assert_eq!(executor.try_spawn(b), Err(SpawnError::DuplicateId));
    assert_eq!(executor.run_ready_tasks(), vec![record(id, PollOutcome::Suspended)]);
    assert!(executor.has_task(id));
}

#[test]
fn full_ready_queue_rejects_spawn_and_wake() {
    let mut counter = TaskIdCounter::new();
    let mut executor = Executor::new();
    for _ in 0..TASK_QUEUE_CAPACITY {
        let task = Task::new(Scripted::new(vec![PollOutcome::Finished]), &mut counter);
        assert_eq!(executor.try_spawn(task), Ok(()));
    }
    let extra = Task::new(Scripted::new(vec![PollOutcome::Finished]), &mut counter);
    let extra_id = extra.task_id();
    assert_eq!(executor.try_spawn(extra), Err(SpawnError::QueueFull));
    assert!(!executor.has_task(extra_id));
    assert!(!executor.try_wake(&TaskWaker::new(TaskId(0))));
    assert_eq!(executor.run_ready_tasks().len(), 100);
    assert!(executor.try_wake(&TaskWaker::new(TaskId(0))));
}

#[test]
fn one_pass_polls_a_full_queue_of_runnable_tasks() {
    let mut counter = TaskIdCounter::new();
    let mut executor = Executor::new();
    for _ in 0..TASK_QUEUE_CAPACITY {
        let task = Task::new(
            Scripted::new(vec![PollOutcome::Runnable, PollOutcome::Finished]),
            &mut counter,
        );
        executor.spawn(task);
    }
    let first = executor.run_ready_tasks();
    assert_eq!(first.len(), 100);
    assert!(first.iter().all(|r| r.outcome == PollOutcome::Runnable));
    let second = executor.run_ready_tasks();
    assert_eq!(second.len(), 100);
    assert!(second.iter().all(|r| r.outcome == PollOutcome::Finished));
    assert!(executor.is_idle());
}

#[test]
fn begin_and_finish_poll_file_a_task() {
    let mut counter = TaskIdCounter::new();
    let mut executor = Executor::new();
    let task = Task::new(Scripted::new(vec![PollOutcome::Suspended]), &mut counter);
    let id = task.task_id();
    executor.spawn(task);
    assert_eq!(executor.take_ready(), vec![id]);
    assert!(executor.is_idle());
    let (task, waker) = executor.begin_poll(id);
    assert_eq!(waker.target(), id);
    assert!(!executor.has_task(id));
    executor.finish_poll(task, PollOutcome::Runnable);
    assert!(executor.has_task(id));
    assert!(!executor.is_idle());
    assert_eq!(executor.poll_task(id), PollOutcome::Suspended);
    assert_eq!(executor.take_ready(), vec![id]);
    let (task, _) = executor.begin_poll(id);
    executor.finish_poll(task, PollOutcome::Finished);
    assert!(!executor.has_task(id));
}

#[test]
fn task_waiting_for_a_scancode_is_woken_by_it() {
    let bridge = Rc::new(RefCell::new(InterruptBridge::uninit()));
    let stream = ScancodeStream::new(&mut bridge.borrow_mut());
    let seen = Rc::new(RefCell::new(Vec::new()));
    let mut counter = TaskIdCounter::new();
    let mut executor = Executor::new();
    let a = Task::new(Body::Script(Scripted::new(vec![PollOutcome::Finished])), &mut counter);
    let b = Task::new(
        Body::Reader { stream, bridge: bridge.clone(), seen: seen.clone() },
        &mut counter,
    );
    let (a_id, b_id) = (a.task_id(), b.task_id());
    executor.spawn(a);
    executor.spawn(b);

    let first = executor.run_ready_tasks();
    assert_eq!(
        first,
        vec![record(a_id, PollOutcome::Finished), record(b_id, PollOutcome::Suspended)]
    );
    assert!(!executor.has_task(a_id));
    assert!(executor.has_task(b_id));
    assert!(executor.is_idle());
    assert_eq!(executor.run_ready_tasks(), vec![]);

    let delivery = add_scancode(&mut bridge.borrow_mut(), 0x1e);
    assert_eq!(delivery, ScancodeDelivery::Queued { wake: Some(TaskWaker::new(b_id)) });
    if let ScancodeDelivery::Queued { wake: Some(waker) } = delivery {
        executor.wake(&waker);
    }
    assert!(!executor.is_idle());
    assert_eq!(executor.run_ready_tasks(), vec![record(b_id, PollOutcome::Finished)]);
    assert_eq!(*seen.borrow(), vec![0x1e]);
    assert!(!executor.has_task(b_id));
    assert!(executor.is_idle());
}

#[test]
fn simple_executor_polls_round_robin() {
    let mut counter = TaskIdCounter::new();
    let mut executor = SimpleExecutor::new();
    let a = Task::new(
        Scripted::new(vec![PollOutcome::Suspended, PollOutcome::Finished]),
        &mut counter,
    );
    let b = Task::new(Scripted::new(vec![PollOutcome::Finished]), &mut counter);
    let c = Task::new(
        Scripted::new(vec![PollOutcome::Runnable, PollOutcome::Runnable, PollOutcome::Finished]),
        &mut counter,
    );
    let (a_id, b_id, c_id) = (a.task_id(), b.task_id(), c.task_id());
    executor.spawn(a);
    executor.spawn(b);
    executor.spawn(c);
    let report = executor.run(100);
    assert_eq!(
        report,
        vec![
            record(a_id, PollOutcome::Suspended),
            record(b_id, PollOutcome::Finished),
            record(c_id, PollOutcome::Runnable),
            record(a_id, PollOutcome::Finished),
            record(c_id, PollOutcome::Runnable),
            record(c_id, PollOutcome::Finished),
        ]
    );
    assert_eq!(executor.run(100), vec![]);
}

#[test]
fn simple_executor_stops_at_the_poll_limit() {
    let mut counter = TaskIdCounter::new();
    let mut executor = SimpleExecutor::new();
    let a = Task::new(
        Scripted::new(vec![PollOutcome::Suspended, PollOutcome::Suspended, PollOutcome::Finished]),
        &mut counter,
    );
    let id = a.task_id();
    executor.spawn(a);
    assert_eq!(executor.run(0), vec![]);
    assert_eq!(
        executor.run(2),
        vec![record(id, PollOutcome::Suspended), record(id, PollOutcome::Suspended)]
    );
    assert_eq!(executor.run(5), vec![record(id, PollOutcome::Finished)]);
}

#[test]
fn waker_fired_on_the_executor_queues_its_task() {
    let mut counter = TaskIdCounter::new();
    let mut executor = Executor::new();
    let polls = Rc::new(RefCell::new(0));
    let task = Task::new(
        Scripted::counted(vec![PollOutcome::Suspended, PollOutcome::Finished], &polls),
        &mut counter,
    );
    let id = task.task_id();
    executor.spawn(task);
    assert_eq!(executor.run_ready_tasks(), vec![record(id, PollOutcome::Suspended)]);
    assert!(executor.is_idle());
    TaskWaker::new(id).wake_task(&mut executor);
    assert!(!executor.is_idle());
    assert_eq!(executor.run_ready_tasks(), vec![record(id, PollOutcome::Finished)]);
    assert_eq!(*polls.borrow(), 2);
}

#[test]
fn simple_executor_queues_a_task_unpolled() {
    let mut counter = TaskIdCounter::new();
    let mut executor = SimpleExecutor::new();
    let polls = Rc::new(RefCell::new(0));
    let task = Task::new(Scripted::counted(vec![PollOutcome::Finished], &polls), &mut counter);
    let id = task.task_id();
    executor.spawn(task);
    assert_eq!(*polls.borrow(), 0);
    assert_eq!(executor.run(3), vec![record(id, PollOutcome::Finished)]);
    assert_eq!(*polls.borrow(), 1);
}
