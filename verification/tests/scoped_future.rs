use std::future::{ready, Ready};

use pinned_scope::{
    AsyncClosure, BlockStep, ChildStep, CompletenessHolder, DropAction, DropMode, FutureState, Poll, PollStep,
    ScopedFuture,
};

fn body(handle: u32) -> Ready<u32> {
    ready(handle + 1)
}

type Body = fn(u32) -> Ready<u32>;

fn scoped() -> ScopedFuture<u32, Ready<u32>, Body> {
    ScopedFuture::new(body as Body)
}

fn busy_holder() -> (CompletenessHolder<&'static str>, pinned_scope::CompletenessGuard) {
    let mut holder = CompletenessHolder::default();
    let guard = holder.make_guard().unwrap();
    (holder, guard)
}

#[test]
fn a_closure_is_called_with_the_handle() {
    let future = AsyncClosure::call(body as Body, 4);
    assert_eq!(future.into_inner(), 5);
}

#[test]
fn the_first_poll_starts_the_body_with_the_handle() {
    let mut scoped = scoped();
    assert!(matches!(scoped.state, FutureState::NotEntered(Some(_))));
    assert_eq!(scoped.begin_poll(41), PollStep::PollChild);
    assert!(matches!(scoped.state, FutureState::Pending(_)));
    let mut started = ready(0);
    std::mem::swap(scoped.child_mut(), &mut started);
    assert_eq!(started.into_inner(), 42);
    assert_eq!(scoped.begin_poll(99), PollStep::PollChild);
    std::mem::swap(scoped.child_mut(), &mut ready(7));
    assert!(matches!(scoped.state, FutureState::Pending(_)));
}

#[test]
fn a_body_that_is_not_ready_leaves_everything_as_it_was() {
    let mut scoped = scoped();
    scoped.begin_poll(0);
    assert_eq!(scoped.child_polled(Poll::Pending, true), ChildStep::Return(Poll::Pending));
    assert_eq!(scoped.child_polled(Poll::Pending, false), ChildStep::Return(Poll::Pending));
    assert!(matches!(scoped.state, FutureState::Pending(_)));
}

#[test]
fn a_result_is_handed_out_when_no_task_runs() {
    let mut scoped = scoped();
    scoped.begin_poll(0);
    assert_eq!(scoped.child_polled(Poll::Ready(5), true), ChildStep::Return(Poll::Ready(5)));
    assert!(matches!(scoped.state, FutureState::Pending(_)));
}

#[test]
fn a_result_waits_for_the_last_task() {
    let (mut holder, guard) = busy_holder();
    let mut scoped = scoped();
    scoped.begin_poll(0);
    assert_eq!(scoped.child_polled(Poll::Ready(5), holder.is_completed()), ChildStep::Drain);
    assert!(matches!(scoped.state, FutureState::Completed(Some(5))));
    assert_eq!(scoped.drain(&mut holder, "first"), Poll::Pending);
    for _ in 0..3 {
        assert_eq!(scoped.begin_poll(0), PollStep::Drain);
        assert_eq!(scoped.drain(&mut holder, "parent"), Poll::Pending);
    }
    assert_eq!(guard.release(&mut holder), Some("parent"));
    assert_eq!(scoped.begin_poll(0), PollStep::Drain);
    assert_eq!(scoped.drain(&mut holder, "parent"), Poll::Ready(5));
    assert!(matches!(scoped.state, FutureState::Completed(None)));
    assert_eq!(holder.settle(), None);
}

#[test]
fn a_task_that_ends_between_the_two_checks_lets_the_result_out() {
    let (mut holder, guard) = busy_holder();
    let mut scoped = scoped();
    scoped.begin_poll(0);
    let completed = holder.is_completed();
    assert_eq!(guard.release(&mut holder), None);
    assert_eq!(scoped.child_polled(Poll::Ready(5), completed), ChildStep::Drain);
    assert_eq!(scoped.drain(&mut holder, "parent"), Poll::Ready(5));
    assert_eq!(holder.settle(), None);
}

#[test]
fn asking_again_for_a_result_that_is_gone_waits_while_a_task_runs() {
    let (mut holder, guard) = busy_holder();
    let mut scoped = scoped();
    scoped.state = FutureState::Completed(None);
    assert_eq!(scoped.drain(&mut holder, "parent"), Poll::Pending);
    assert_eq!(guard.release(&mut holder), Some("parent"));
}

#[test]
fn a_thread_does_not_wait_when_no_task_runs() {
    let mut holder = CompletenessHolder::default();
    assert_eq!(scoped().block_sync_thread(&mut holder, "thread"), BlockStep::Return);
    assert_eq!(holder.settle(), None);
}

#[test]
fn a_thread_sleeps_until_the_last_task_ended() {
    let (mut holder, first) = busy_holder();
    let second = holder.make_guard().unwrap();
    let scoped = scoped();
    assert_eq!(scoped.block_sync_thread(&mut holder, "thread"), BlockStep::Park);
    assert_eq!(scoped.resume_blocked(&holder), BlockStep::Park);
    assert_eq!(first.release(&mut holder), None);
    assert_eq!(scoped.resume_blocked(&holder), BlockStep::Park);
    assert_eq!(second.release(&mut holder), Some("thread"));
    assert_eq!(scoped.resume_blocked(&holder), BlockStep::Return);
}

#[test]
fn a_dropped_scope_goes_at_once_when_no_task_runs() {
    let holder: CompletenessHolder<&str> = CompletenessHolder::default();
    assert_eq!(scoped().on_drop(&holder, DropMode::Blocking), DropAction::Proceed);
    assert_eq!(scoped().on_drop(&holder, DropMode::AsyncDrop), DropAction::Proceed);
}

#[test]
fn a_dropped_scope_waits_for_its_tasks_and_does_not_go_on() {
    let (mut holder, first) = busy_holder();
    let second = holder.make_guard().unwrap();
    let mut scoped = scoped();
    scoped.begin_poll(0);
    assert_eq!(scoped.on_drop(&holder, DropMode::Blocking), DropAction::BlockThread);
    assert_eq!(scoped.on_drop(&holder, DropMode::AsyncDrop), DropAction::Refuse(2));
    assert!(matches!(scoped.state, FutureState::Pending(_)));
    assert_eq!(first.release(&mut holder), None);
    assert_eq!(scoped.on_drop(&holder, DropMode::AsyncDrop), DropAction::Refuse(1));
    assert_eq!(second.release(&mut holder), None);
    assert_eq!(scoped.on_drop(&holder, DropMode::Blocking), DropAction::Proceed);
}
