use spin_on::{Action, Driver, Event, Phase, TaskPoll, WakeFlag, WakeHandle};
use std::future::Future;
use std::pin::Pin;
use std::sync::Arc;
use std::task::{Context, Poll, Wake, Waker};

struct FlagWaker(WakeFlag);

impl Wake for FlagWaker {
    fn wake(self: Arc<Self>) {
        WakeHandle::new(&self.0).notify();
    }

    fn wake_by_ref(self: &Arc<Self>) {
        WakeHandle::new(&self.0).notify_by_ref();
    }
}

/// Runs a future to completion with the library's driver and wake flag, and
/// hands back its value with the driver's final state.
fn drive<F: Future>(fut: F) -> (F::Output, Driver) {
    let notifier = Arc::new(FlagWaker(WakeFlag::new()));
    let waker = Waker::from(notifier.clone());
    let mut cx = Context::from_waker(&waker);
    let mut fut = Box::pin(fut);
    let mut driver = Driver::new();
    let mut action = Action::Poll;
    loop {
        let event = match action {
            Action::Poll => Event::Polled(match fut.as_mut().poll(&mut cx) {
                Poll::Ready(v) => TaskPoll::Ready(v),
                Poll::Pending => TaskPoll::Suspended,
            }),
            Action::Check => Event::Woken(notifier.0.take()),
            Action::Spin => {
                std::hint::spin_loop();
                Event::Woken(notifier.0.take())
            }
            Action::Return(v) => return (v, driver),
        };
        assert!(driver.expects(&event));
        action = driver.step(event);
    }
}

fn block_on<F: Future>(fut: F) -> F::Output {
    drive(fut).0
}

/// Suspends on its first poll after waking itself `wakes` times, and
/// completes with its value on the next.
struct YieldOnce<T> {
    value: Option<T>,
    wakes: usize,
    yielded: bool,
}

fn yield_once<T>(value: T, wakes: usize) -> YieldOnce<T> {
    YieldOnce { value: Some(value), wakes, yielded: false }
}

impl<T: Unpin> Future for YieldOnce<T> {
    type Output = T;

    fn poll(mut self: Pin<&mut Self>, cx: &mut Context<'_>) -> Poll<T> {
        if self.yielded {
            Poll::Ready(self.value.take().expect("polled after completion"))
        } else {
            self.yielded = true;
            for _ in 0..self.wakes {
                cx.waker().wake_by_ref();
            }
            Poll::Pending
        }
    }
}

/// Suspends `spurious` times, each time waking itself although it cannot yet
/// progress, then completes with its value.
struct Stubborn {
    value: i32,
    spurious: usize,
    polls: usize,
}

impl Future for Stubborn {
    type Output = (i32, usize);

    fn poll(mut self: Pin<&mut Self>, cx: &mut Context<'_>) -> Poll<(i32, usize)> {
        self.polls += 1;
        if self.polls > self.spurious {
            Poll::Ready((self.value, self.polls))
        } else {
            cx.waker().wake_by_ref();
            Poll::Pending
        }
    }
}

#[test]
fn simple() {
    let result = async { 2 + 2 };
    assert_eq!(block_on(result), 4);
}

async fn async_calc() -> i32 {
    2 + 2
}

#[test]
fn complicated() {
    let fut = async_calc();
    assert_eq!(block_on(fut), 4);
}

async fn async_sub1() -> i32 {
    2
}

async fn async_sub2() -> i32 {
    2
}

async fn async_calc_complicated() -> i32 {
    async_sub1().await + async_sub2().await
}

#[test]
fn more_complicated() {
    let fut = async_calc_complicated();
    assert_eq!(block_on(fut), 4);
}

#[test]
fn immediate_task_polls_once_without_spinning() {
    let (v, d) = drive(async { 4 });
    assert_eq!(v, 4);
    assert_eq!(d, Driver { phase: Phase::Done, polls: 1, spins: 0 });
}

#[test]
fn composed_subtasks_that_suspend_add_up() {
    let fut = async { yield_once(2, 1).await + yield_once(2, 1).await };
    let (v, d) = drive(fut);
    assert_eq!(v, 4);
    assert_eq!(d.polls, 3);
    assert_eq!(d.phase, Phase::Done);
}

#[test]
fn spurious_wakeups_cost_one_poll_each() {
    let (v, d) = drive(Stubborn { value: 7, spurious: 3, polls: 0 });
    assert_eq!(v, (7, 4));
    assert_eq!(d.polls, 4);
    assert_eq!(d.spins, 0);
}

#[test]
fn double_notification_gives_one_repoll() {
    let (v, d) = drive(yield_once(9, 2));
    assert_eq!(v, 9);
    assert_eq!(d, Driver { phase: Phase::Done, polls: 2, spins: 0 });
}

#[test]
fn double_notification_is_seen_once() {
    let flag = WakeFlag::new();
    let h = WakeHandle::new(&flag);
    h.notify_by_ref();
    h.notify();
    assert!(flag.take());
    assert!(!flag.take());
}

#[test]
fn late_notification_ends_the_wait() {
    let flag = WakeFlag::new();
    let notifier = WakeHandle::new(&flag);
    let mut d = Driver::new();
    assert!(matches!(d.step(Event::Polled(TaskPoll::<i32>::Suspended)), Action::Check));
    assert!(matches!(d.step(Event::<i32>::Woken(flag.take())), Action::Spin));
    assert!(matches!(d.step(Event::<i32>::Woken(flag.take())), Action::Spin));
    assert_eq!(d.phase, Phase::Waiting);
    notifier.notify();
    assert!(matches!(d.step(Event::<i32>::Woken(flag.take())), Action::Poll));
    match d.step(Event::Polled(TaskPoll::Ready(42))) {
        Action::Return(v) => assert_eq!(v, 42),
        _ => panic!("a completed poll must end the drive call"),
    }
    assert_eq!(d, Driver { phase: Phase::Done, polls: 2, spins: 2 });
}

#[test]
fn spurious_wake_returns_to_waiting() {
    let mut d = Driver { phase: Phase::Waiting, polls: 5, spins: 1 };
    assert!(matches!(d.step(Event::<u8>::Woken(true)), Action::Poll));
    assert!(matches!(d.step(Event::Polled(TaskPoll::<u8>::Suspended)), Action::Check));
    assert_eq!(d, Driver { phase: Phase::Waiting, polls: 6, spins: 1 });
}

#[test]
fn clone_notifies_the_same_flag() {
    let flag = WakeFlag::new();
    let h = WakeHandle::new(&flag);
    let c = h.clone_handle();
    assert!(std::ptr::eq(c.flag(), h.flag()));
    assert!(std::ptr::eq(h.flag(), &flag));
    c.notify();
    assert!(flag.take());
    h.notify_by_ref();
    assert!(flag.take());
}

#[test]
fn release_leaves_the_flag_alone() {
    let flag = WakeFlag::new();
    let h = WakeHandle::new(&flag);
    h.notify_by_ref();
    h.release();
    assert!(flag.take());
    assert!(!flag.take());
}

#[test]
fn new_flag_is_clear() {
    let flag = WakeFlag::new();
    assert!(!flag.take());
}

#[test]
fn counts_stop_at_the_largest_value() {
    let mut d = Driver { phase: Phase::Waiting, polls: u64::MAX, spins: u64::MAX };
    assert!(matches!(d.step(Event::<u8>::Woken(false)), Action::Spin));
    assert_eq!(d.spins, u64::MAX);
    assert!(matches!(d.step(Event::<u8>::Woken(true)), Action::Poll));
    assert!(matches!(d.step(Event::Polled(TaskPoll::<u8>::Suspended)), Action::Check));
    assert_eq!(d.polls, u64::MAX);
}

#[test]
fn expects_matches_the_phase() {
    let d = Driver::new();
    assert!(d.expects(&Event::Polled(TaskPoll::Ready(1))));
    assert!(!d.expects(&Event::<i32>::Woken(true)));
    let w = Driver { phase: Phase::Waiting, polls: 1, spins: 0 };
    assert!(w.expects(&Event::<i32>::Woken(false)));
    assert!(!w.expects(&Event::Polled(TaskPoll::<i32>::Suspended)));
    let done = Driver { phase: Phase::Done, polls: 1, spins: 0 };
    assert!(!done.expects(&Event::<i32>::Woken(true)));
    assert!(!done.expects(&Event::Polled(TaskPoll::Ready(3))));
}
