use std::future::poll_fn;
use std::sync::{Arc, Mutex};
use std::task::Waker;

use pinned_scope::holder::MAX_REFCOUNT;
use pinned_scope::{CompletenessHolder, Poll};

#[test]
fn fresh_holder_is_completed() {
    let mut holder = CompletenessHolder::default();
    assert!(holder.is_completed());
    assert_eq!(holder.child_task_count(), 0);
    assert_eq!(holder.poll(1), Poll::Ready(()));
    assert_eq!(holder.settle(), None);
}

#[test]
fn largest_admitted_count_is_half_the_range() {
    assert_eq!(MAX_REFCOUNT, isize::MAX as usize);
}

#[test]
fn inc_and_dec_undo_each_other() {
    let mut holder: CompletenessHolder<u8> = CompletenessHolder::default();
    assert!(holder.inc());
    assert!(holder.inc());
    assert_eq!(holder.child_task_count(), 2);
    assert!(!holder.is_completed());
    holder.dec();
    holder.dec();
    assert_eq!(holder.child_task_count(), 0);
    assert!(holder.is_completed());
}

#[test]
fn counts_wrap_and_too_many_guards_are_not_admitted() {
    let mut holder: CompletenessHolder<u8> = CompletenessHolder::default();
    holder.dec();
    assert_eq!(holder.child_task_count(), usize::MAX);
    assert!(!holder.inc());
    assert_eq!(holder.child_task_count(), 0);
    holder.dec();
    assert!(holder.make_guard().is_none());
    assert_eq!(holder.child_task_count(), 0);
    assert!(holder.make_guard().is_some());
}

#[test]
fn release_of_the_last_guard_hands_out_the_waker_once() {
    let mut holder = CompletenessHolder::default();
    let first = holder.make_guard().unwrap();
    let second = holder.make_guard().unwrap();
    assert_eq!(holder.poll("parent"), Poll::Pending);
    assert_eq!(first.release(&mut holder), None);
    assert_eq!(holder.child_task_count(), 1);
    assert_eq!(second.release(&mut holder), Some("parent"));
    assert_eq!(holder.settle(), None);
    assert_eq!(holder.poll("parent"), Poll::Ready(()));
}

#[test]
fn release_without_a_waiter_hands_out_nothing() {
    let mut holder: CompletenessHolder<u8> = CompletenessHolder::default();
    let guard = holder.make_guard().unwrap();
    assert_eq!(guard.release(&mut holder), None);
    assert!(holder.is_completed());
}

#[test]
fn a_later_waker_takes_the_place_of_an_earlier_one() {
    let mut holder = CompletenessHolder::default();
    let guard = holder.make_guard().unwrap();
    assert_eq!(holder.poll(1), Poll::Pending);
    assert_eq!(holder.poll(2), Poll::Pending);
    assert_eq!(guard.release(&mut holder), Some(2));
}

#[test]
fn a_waker_that_registers_between_the_two_halves_of_a_release_is_called() {
    let mut holder = CompletenessHolder::default();
    assert!(holder.inc());
    holder.dec();
    holder.register(7);
    assert_eq!(holder.settle(), Some(7));
}

#[test]
fn a_waker_that_registers_after_the_last_release_waits_in_vain() {
    let mut holder = CompletenessHolder::default();
    let guard = holder.make_guard().unwrap();
    assert!(!holder.is_completed());
    assert_eq!(guard.release(&mut holder), None);
    holder.register(7);
    assert!(holder.is_completed());
    assert_eq!(holder.poll(8), Poll::Ready(()));
}

#[test]
fn nobody_waits_at_a_completed_holder() {
    let mut holder = CompletenessHolder::default();
    for round in 0..3 {
        let first = holder.make_guard().unwrap();
        assert_eq!(holder.poll(round), Poll::Pending);
        let second = holder.make_guard().unwrap();
        assert_eq!(first.release(&mut holder), None);
        assert_eq!(second.release(&mut holder), Some(round));
        assert_eq!(holder.settle(), None);
    }
}

#[test]
fn a_waker_is_called_once_until_another_registers() {
    let mut holder = CompletenessHolder::default();
    let guard = holder.make_guard().unwrap();
    holder.register(1);
    assert_eq!(guard.release(&mut holder), Some(1));
    assert_eq!(holder.make_guard().unwrap().release(&mut holder), None);
    assert_eq!(holder.settle(), None);
    holder.register(2);
    assert_eq!(holder.settle(), Some(2));
    assert_eq!(holder.settle(), None);
}

#[test]
fn tasks_on_several_threads_wake_whoever_waits() {
    let runtime = tokio::runtime::Builder::new_multi_thread().worker_threads(4).build().unwrap();
    let holder: Arc<Mutex<CompletenessHolder<Waker>>> = Arc::new(Mutex::new(CompletenessHolder::default()));
    for _ in 0..64 {
        let guard = holder.lock().unwrap().make_guard().unwrap();
        let shared = holder.clone();
        runtime.spawn(async move {
            tokio::task::yield_now().await;
            let due = guard.release(&mut shared.lock().unwrap());
            if let Some(waker) = due {
                waker.wake();
            }
        });
    }
    let waiting = holder.clone();
    runtime.block_on(poll_fn(move |cx| match waiting.lock().unwrap().poll(cx.waker().clone()) {
        Poll::Ready(()) => std::task::Poll::Ready(()),
        Poll::Pending => std::task::Poll::Pending,
    }));
    assert!(holder.lock().unwrap().is_completed());
}
