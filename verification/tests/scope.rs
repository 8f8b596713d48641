use std::future::{poll_fn, Future, IntoFuture};
use std::pin::Pin;
use std::sync::atomic::{AtomicUsize, Ordering};
use std::sync::Mutex;
use std::task::{Context, Waker};

use futures::executor::block_on;
use futures::task::FutureObj;
use pinned_scope::task::give_back;
use pinned_scope::{
    generic_scope, ChildStep, CompletenessGuard, CompletenessHolder, CountedGuard, DropAction, DropMode,
    Enter, Finish, MayCount, Poll, PollStep, Scope, ScopedFuture, SharedHolder, Task, TaskSpawner,
};

/// Runs each task where it is awaited.
struct InPlace;

impl TaskSpawner for InPlace {
    fn spawn<'a, R: Send + 'static, F: Future<Output = R> + Send + 'a>(
        task: Task<F>,
    ) -> FutureObj<'a, R> {
        FutureObj::new(Box::pin(task.into_future()))
    }
}

type Holder = Mutex<CompletenessHolder<Waker>>;

#[derive(Clone, Copy)]
struct Shared<'h>(&'h Holder);

struct Held<'h> {
    holder: &'h Holder,
    guard: Option<CompletenessGuard>,
}

impl<'h> SharedHolder for Shared<'h> {
    type Guard = Held<'h>;

    fn make_guard(&self, _now: MayCount) -> Held<'h> {
        let guard = self.0.lock().unwrap().make_guard();
        assert!(guard.is_some());
        Held { holder: self.0, guard }
    }
}

impl CountedGuard for Held<'_> {
    fn release(self) {
        drop(self);
    }
}

impl Drop for Held<'_> {
    fn drop(&mut self) {
        let due = self.guard.take().unwrap().release(&mut self.holder.lock().unwrap());
        if let Some(waker) = due {
            waker.wake();
        }
    }
}

/// Drives a scope to its end, once the way is free for it to end without waiting.
fn run<'h, R, Spawner: TaskSpawner, Fut, C>(mut scoped: ScopedFuture<Shared<'h>, Fut, C>, holder: &'h Holder) -> R
where
    Fut: Future<Output = Scope<Shared<'h>, Finish<R>, Spawner>> + Unpin,
    C: FnOnce(Shared<'h>) -> Fut,
{
    let mut cx = Context::from_waker(Waker::noop());
    loop {
        let outcome = match scoped.begin_poll(Shared(holder)) {
            PollStep::PollChild => {
                let polled = match Pin::new(scoped.child_mut()).poll(&mut cx) {
                    std::task::Poll::Ready(ended) => Poll::Ready(ended),
                    std::task::Poll::Pending => Poll::Pending,
                };
                let completed = holder.lock().unwrap().is_completed();
                match scoped.child_polled(polled, completed) {
                    ChildStep::Return(outcome) => outcome,
                    ChildStep::Drain => scoped.drain(&mut holder.lock().unwrap(), cx.waker().clone()),
                }
            }
            PollStep::Drain => scoped.drain(&mut holder.lock().unwrap(), cx.waker().clone()),
        };
        if let Poll::Ready(ended) = outcome {
            return ended.into_result();
        }
    }
}

fn count(holder: &Holder) -> usize {
    holder.lock().unwrap().child_task_count()
}

#[test]
fn std_thread_scope_example_sequential() {
    let holder = Holder::default();
    let scoped = generic_scope(|s: Scope<Shared, Enter, InPlace>| {
        Box::pin(async move {
            let a = vec![1, 2, 3];
            let mut x = 0;
            let (s, _) = s
                .spawn(async {
                    println!("hello from the first scoped task");
                    assert_eq!(&a, &vec![1, 2, 3]);
                })
                .await;
            let (s, _) = s
                .spawn(async {
                    println!("hello from the second scoped task");
                    x += a[0] + a[2];
                })
                .await;
            println!("hello from the main thread");
            s.finish((a, x))
        })
    });
    let (mut a, x) = run(scoped, &holder);
    a.push(4);
    assert_eq!(x, a.len());
    assert_eq!(count(&holder), 0);
}

#[test]
fn std_thread_scope_example_concurrent() {
    let a = vec![1, 2, 3];
    let mut x = 0;
    let holder = Holder::default();
    let scoped = generic_scope(|s: Scope<Shared, Enter, InPlace>| {
        Box::pin(async move {
            let s = s.spawn(async {
                println!("hello from the first scoped task");
                assert_eq!(&a, &vec![1, 2, 3]);
            });
            let ((s, _), _) = s
                .with(async {
                    println!("hello from the second scoped task");
                    x += a[0] + a[2];
                })
                .await;
            println!("hello from the main thread");
            s.finish((a, x))
        })
    });
    let (mut a, x) = run(scoped, &holder);
    a.push(4);
    assert_eq!(x, a.len());
    assert_eq!(count(&holder), 0);
}

#[test]
fn it_works() {
    let mut vec = vec![1, 2, 3];
    let holder = Holder::default();
    let scoped = generic_scope(|scope: Scope<Shared, Enter, InPlace>| {
        Box::pin(async move {
            let (scope, result) = scope
                .spawn(async {
                    vec.push(0);
                    vec.len() as i32 + 1
                })
                .await;
            vec.push(result);
            let scope_2 = scope.spawn(async { vec.len() as i32 + 1 });
            let (scope_2, _) = scope_2.spawn(async { vec.len() as i32 + 1 }).await;
            let (scope, result) = scope_2.await;
            vec.push(result);
            scope.finish(vec)
        })
    });
    let vec = run(scoped, &holder);
    println!("{:?}", vec);
    assert_eq!(vec, vec![1, 2, 3, 0, 5, 6]);
}

async fn process_data(data: &str) {
    println!("Data: \"{}\" processed", data);
}

async fn save_data(data: &str) {
    println!("Data: \"{}\" saved", data);
}

fn manage_data(data: String) -> String {
    let holder = Holder::default();
    let scoped = generic_scope(|s: Scope<Shared, Enter, InPlace>| {
        Box::pin(async move {
            let s = s.spawn(process_data(&data));
            let ((s, _), _) = s.with(save_data(&data)).await;
            s.finish(data)
        })
    });
    run(scoped, &holder)
}

#[test]
fn limitations() {
    let data = "requested data".to_string();
    let data = manage_data(data);
    assert_eq!(data, "requested data");
}

/// Counts how many tasks were started, and runs each where it is awaited.
struct Counting;

static STARTED: AtomicUsize = AtomicUsize::new(0);

impl TaskSpawner for Counting {
    fn spawn<'a, R: Send + 'static, F: Future<Output = R> + Send + 'a>(
        task: Task<F>,
    ) -> FutureObj<'a, R> {
        STARTED.fetch_add(1, Ordering::SeqCst);
        FutureObj::new(Box::pin(task.into_future()))
    }
}

#[test]
fn a_task_is_started_and_counted_when_awaited() {
    let holder = Holder::default();
    let mut scoped = generic_scope(|s: Scope<Shared, Enter, Counting>| {
        Box::pin(async {
            let s = s.spawn(async {
                let alone = count(&holder);
                yield_once().await;
                (alone, count(&holder))
            });
            let s = s.with(async { count(&holder) });
            assert_eq!(count(&holder), 0);
            assert_eq!(STARTED.load(Ordering::SeqCst), 0);
            let ((s, (alone, last)), both) = s.await;
            assert_eq!((alone, both, last), (1, 2, 1));
            assert_eq!(count(&holder), 0);
            assert_eq!(STARTED.load(Ordering::SeqCst), 2);
            s.finish("ended")
        })
    });
    assert_eq!(scoped.begin_poll(Shared(&holder)), PollStep::PollChild);
    let ended = block_on(scoped.child_mut());
    assert_eq!(ended.into_result(), "ended");
}

/// Lets others run before it goes on.
async fn yield_once() {
    let mut yielded = false;
    poll_fn(|cx| {
        if yielded {
            return std::task::Poll::Ready(());
        }
        yielded = true;
        cx.waker().wake_by_ref();
        std::task::Poll::Pending
    })
    .await
}

#[test]
fn a_dropped_scope_waits_for_started_tasks_only() {
    let holder = Holder::default();
    let mut unstarted_ran = false;
    let mut scoped = generic_scope(|s: Scope<Shared, Enter, InPlace>| {
        Box::pin(async {
            let (s, _) = s.spawn(async {}).await;
            let _unstarted = s.spawn(async { unstarted_ran = true });
            futures::future::pending::<Scope<Shared, Finish<()>, InPlace>>().await
        })
    });
    assert_eq!(scoped.begin_poll(Shared(&holder)), PollStep::PollChild);
    let polled = Pin::new(scoped.child_mut()).poll(&mut Context::from_waker(Waker::noop()));
    assert!(polled.is_pending());
    assert_eq!(count(&holder), 0);
    let action = scoped.on_drop(&holder.lock().unwrap(), DropMode::Blocking);
    assert_eq!(action, DropAction::Proceed);
    drop(scoped);
    assert!(!unstarted_ran);
}

#[test]
fn a_task_that_is_dropped_on_its_way_gives_its_guard_back() {
    let holder = Holder::default();
    let mut scoped = generic_scope(|s: Scope<Shared, Enter, InPlace>| {
        Box::pin(async {
            let (s, _) = s.spawn(futures::future::pending::<()>()).await;
            s.finish(())
        })
    });
    assert_eq!(scoped.begin_poll(Shared(&holder)), PollStep::PollChild);
    let polled = Pin::new(scoped.child_mut()).poll(&mut Context::from_waker(Waker::noop()));
    assert!(polled.is_pending());
    assert_eq!(count(&holder), 1);
    let action = scoped.on_drop(&holder.lock().unwrap(), DropMode::AsyncDrop);
    assert_eq!(action, DropAction::Refuse(1));
    drop(scoped);
    assert_eq!(count(&holder), 0);
}

/// Notes how many guards are out when it is dropped.
struct Noting<'h> {
    holder: &'h Holder,
    seen: &'h Mutex<Vec<usize>>,
}

impl Drop for Noting<'_> {
    fn drop(&mut self) {
        self.seen.lock().unwrap().push(count(self.holder));
    }
}

#[test]
fn a_guard_is_given_back_after_the_future_of_its_task_is_gone() {
    let holder = Holder::default();
    let seen = Mutex::new(Vec::new());
    let mut scoped = generic_scope(|s: Scope<Shared, Enter, InPlace>| {
        Box::pin(async {
            let noting = Noting { holder: &holder, seen: &seen };
            let (s, _) = s.spawn(async move { drop(noting) }).await;
            let noted = seen.lock().unwrap().clone();
            assert_eq!((count(&holder), noted), (0, vec![1]));
            let noting = Noting { holder: &holder, seen: &seen };
            let endless = async move {
                yield_once().await;
                futures::future::pending::<()>().await;
                drop(noting);
            };
            let (s, _) = s.spawn(endless).await;
            s.finish(())
        })
    });
    assert_eq!(scoped.begin_poll(Shared(&holder)), PollStep::PollChild);
    let polled = Pin::new(scoped.child_mut()).poll(&mut Context::from_waker(Waker::noop()));
    assert!(polled.is_pending());
    assert_eq!(count(&holder), 1);
    drop(scoped);
    let noted = seen.lock().unwrap().clone();
    assert_eq!((count(&holder), noted), (0, vec![1, 1]));
}

#[test]
fn a_nested_scope_starts_its_tasks_one_await_after_the_other() {
    let holder = Holder::default();
    let started = Mutex::new(Vec::new());
    let scoped = generic_scope(|s: Scope<Shared, Enter, InPlace>| {
        Box::pin(async {
            let outer = s.spawn(async {
                started.lock().unwrap().push("outer");
                1
            });
            let nested = outer.spawn(async {
                started.lock().unwrap().push("nested");
                count(&holder)
            });
            assert!(started.lock().unwrap().is_empty());
            let (outer, counted) = nested.await;
            assert_eq!(counted, 1);
            assert_eq!(*started.lock().unwrap(), vec!["nested"]);
            assert_eq!(count(&holder), 0);
            let (s, value) = outer.await;
            assert_eq!(*started.lock().unwrap(), vec!["nested", "outer"]);
            assert_eq!(count(&holder), 0);
            s.finish(value)
        })
    });
    assert_eq!(run(scoped, &holder), 1);
}

#[test]
fn tasks_run_at_once_all_start_in_the_first_poll() {
    let holder = Holder::default();
    let scope_of = |s: Scope<Shared, Enter, InPlace>| {
        let s = s.spawn(futures::future::pending::<()>());
        let s = s.with(futures::future::pending::<()>());
        let s = s.with(futures::future::pending::<()>());
        let mut waiting = Box::pin(s.into_future());
        assert_eq!(count(&holder), 0);
        let polled = waiting.as_mut().poll(&mut Context::from_waker(Waker::noop()));
        assert!(polled.is_pending());
        assert_eq!(count(&holder), 3);
        let polled = waiting.as_mut().poll(&mut Context::from_waker(Waker::noop()));
        assert!(polled.is_pending());
        assert_eq!(count(&holder), 3);
        drop(waiting);
        assert_eq!(count(&holder), 0);
        futures::future::pending::<Scope<Shared, Finish<()>, InPlace>>()
    };
    let mut scoped = generic_scope(scope_of);
    assert_eq!(scoped.begin_poll(Shared(&holder)), PollStep::PollChild);
}

/// Runs each task on its own, before its handle is awaited, and keeps the value in the handle.
struct AtOnce;

impl TaskSpawner for AtOnce {
    fn spawn<'a, R: Send + 'static, F: Future<Output = R> + Send + 'a>(
        task: Task<F>,
    ) -> FutureObj<'a, R> {
        let value = block_on(task.into_future());
        FutureObj::new(Box::pin(futures::future::ready(value)))
    }
}

#[test]
fn a_task_that_ended_gave_its_guard_back_before_its_value_is_awaited() {
    let holder = Holder::default();
    let scoped = generic_scope(|s: Scope<Shared, Enter, AtOnce>| {
        Box::pin(async {
            let s = s.spawn(async { count(&holder) });
            let ((s, first), second) = s.with(async { count(&holder) }).await;
            assert_eq!((first, second), (1, 1));
            assert_eq!(count(&holder), 0);
            s.finish(())
        })
    });
    run(scoped, &holder);
}

#[test]
fn a_task_that_panics_gives_its_guard_back() {
    let holder: &'static Holder = Box::leak(Box::default());
    let runtime = tokio::runtime::Builder::new_multi_thread().worker_threads(1).build().unwrap();
    let run_to_panic = runtime.spawn_blocking(move || {
        let scoped = generic_scope(|s: Scope<Shared<'static>, Enter, InPlace>| {
            Box::pin(async {
                let (s, _) = s
                    .spawn(async {
                        yield_once().await;
                        assert_eq!(count(holder), 0);
                    })
                    .await;
                s.finish(())
            })
        });
        run(scoped, holder)
    });
    assert!(block_on(run_to_panic).unwrap_err().is_panic());
    assert_eq!(count(holder), 0);
}

#[test]
fn a_spawned_scope_that_is_dropped_unpolled_leaves_the_count_as_it_was() {
    let holder = Holder::default();
    let _other = holder.lock().unwrap().make_guard().unwrap();
    let mut scoped = generic_scope(|s: Scope<Shared, Enter, Counting>| {
        let spawned = s.spawn(async {}).with(async {});
        assert_eq!(count(&holder), 1);
        drop(spawned.into_future());
        assert_eq!(count(&holder), 1);
        futures::future::pending::<Scope<Shared, Finish<()>, Counting>>()
    });
    assert_eq!(scoped.begin_poll(Shared(&holder)), PollStep::PollChild);
    assert_eq!(count(&holder), 1);
}

#[test]
fn giving_back_releases_the_guard() {
    let holder = Holder::default();
    let guard = holder.lock().unwrap().make_guard();
    assert_eq!(count(&holder), 1);
    let value = give_back((7, Held { holder: &holder, guard }));
    assert_eq!(value, 7);
    assert_eq!(count(&holder), 0);
}

#[test]
fn a_scope_that_can_be_finished_has_no_task_left() {
    let holder = Holder::default();
    let scoped = generic_scope(|s: Scope<Shared, Enter, InPlace>| {
        Box::pin(async {
            let outer = s.spawn(yield_once()).with(yield_once());
            let nested = outer.spawn(yield_once()).with(yield_once()).with(yield_once());
            let (((outer, _), _), _) = nested.await;
            let ((s, _), _) = outer.await;
            let left = count(&holder);
            s.finish(left)
        })
    });
    assert_eq!(run(scoped, &holder), 0);
}

#[test]
fn a_scope_becomes_the_future_of_its_tasks() {
    let holder = Holder::default();
    let scoped = generic_scope(|s: Scope<Shared, Enter, InPlace>| {
        let (s, value) = block_on(s.spawn(async { "value" }).into_future());
        assert_eq!(value, "value");
        futures::future::ready(s.finish(value))
    });
    assert_eq!(run(scoped, &holder), "value");
}

fn sent_to_another_thread<T: Send>(value: T) -> T {
    value
}

#[test]
fn a_scope_can_be_sent_to_another_thread() {
    let holder = Holder::default();
    let scoped = generic_scope(|s: Scope<Shared, Enter, InPlace>| {
        Box::pin(async {
            let s = sent_to_another_thread(s.spawn(async { 1 }).with(async { 2 }));
            let ((s, first), second) = s.await;
            s.finish(first + second)
        })
    });
    assert_eq!(run(scoped, &holder), 3);
}

#[test]
fn a_scope_may_end_without_a_value() {
    let holder = Holder::default();
    let scoped =
        generic_scope(|s: Scope<Shared, Enter, InPlace>| futures::future::ready(s.finish(())));
    run(scoped, &holder);
    let _: Finish<()> = Finish::from(Enter);
    let _: Finish<u8> = Finish::new(3);
}
