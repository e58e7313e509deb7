use async_task_pool::pool::AsyncTaskPool;
use async_task_pool::status::AsyncTaskStatus;
use async_task_pool::task::AsyncTask;
use std::future::Future;
use std::sync::mpsc::{Sender, TryRecvError};
use std::task::{Context, Poll};
use std::time::{Duration, Instant};

/// A computation that produces `value` once something was sent through the
/// returned sender, and never if that sender is dropped unused.
fn held_back(value: u32) -> (Sender<()>, impl Future<Output = u32> + Send + 'static) {
    let (release, opened) = std::sync::mpsc::channel::<()>();
    let computation = std::future::poll_fn(move |cx: &mut Context<'_>| match opened.try_recv() {
        Ok(()) => Poll::Ready(value),
        Err(TryRecvError::Empty) => {
            cx.waker().wake_by_ref();
            Poll::Pending
        }
        Err(TryRecvError::Disconnected) => Poll::Pending,
    });
    (release, computation)
}

fn deadline() -> Instant {
    Instant::now() + Duration::from_secs(10)
}

/// Scans until a value comes, and returns it.
fn next_value(pool: &mut AsyncTaskPool<u32>) -> u32 {
    let end = deadline();
    loop {
        if let Some(value) = pool.poll_finished() {
            return value;
        }
        assert!(Instant::now() < end, "no task finished in time");
        std::hint::spin_loop();
    }
}

/// Makes passes until one reports a finished task, and returns that pass.
/// Every pass before it must have reported `quiet`.
fn pass_with_a_value(
    pool: &mut AsyncTaskPool<u32>,
    quiet: &[AsyncTaskStatus<u32>],
) -> Vec<AsyncTaskStatus<u32>> {
    let end = deadline();
    loop {
        let statuses: Vec<AsyncTaskStatus<u32>> = pool.iter_poll().collect();
        if statuses.iter().any(|status| matches!(status, AsyncTaskStatus::Finished(_))) {
            return statuses;
        }
        assert_eq!(statuses.as_slice(), quiet);
        assert!(Instant::now() < end, "no task finished in time");
        std::hint::spin_loop();
    }
}

#[test]
fn empty_pool_is_idle_and_reports_nothing() {
    let mut pool: AsyncTaskPool<u32> = AsyncTaskPool::new();
    assert!(pool.is_idle());
    assert_eq!(pool.len(), 0);
    assert_eq!(pool.iter_poll().count(), 0);
    assert_eq!(pool.poll_finished(), None);
    assert!(pool.is_idle());
    assert_eq!(pool.len(), 0);
}

#[test]
fn default_pool_is_empty() {
    let pool: AsyncTaskPool<String> = AsyncTaskPool::default();
    assert!(pool.is_idle());
    assert_eq!(pool.len(), 0);
}

#[test]
fn three_tasks_of_which_the_second_finishes_first() {
    let mut pool: AsyncTaskPool<u32> = AsyncTaskPool::new();
    let (release_one, one) = held_back(1);
    let (release_two, two) = held_back(2);
    let (release_three, three) = held_back(3);
    pool.spawn(one);
    pool.spawn(two);
    pool.spawn(three);
    assert_eq!(pool.len(), 3);

    let all_pending =
        vec![AsyncTaskStatus::Pending, AsyncTaskStatus::Pending, AsyncTaskStatus::Pending];
    let statuses: Vec<AsyncTaskStatus<u32>> = pool.iter_poll().collect();
    assert_eq!(statuses, all_pending);
    assert_eq!(pool.len(), 3);

    release_two.send(()).unwrap();
    let statuses = pass_with_a_value(&mut pool, &all_pending);
    assert_eq!(
        statuses,
        vec![AsyncTaskStatus::Pending, AsyncTaskStatus::Finished(2), AsyncTaskStatus::Pending]
    );
    assert_eq!(pool.len(), 2);
    assert!(!pool.is_idle());

    for _ in 0..100 {
        assert_eq!(pool.poll_finished(), None);
    }
    assert_eq!(pool.len(), 2);

    release_three.send(()).unwrap();
    assert_eq!(next_value(&mut pool), 3);
    assert_eq!(pool.len(), 1);
    assert_eq!(pool.poll_finished(), None);

    release_one.send(()).unwrap();
    assert_eq!(next_value(&mut pool), 1);
    assert_eq!(pool.len(), 0);
    assert!(pool.is_idle());
    assert_eq!(pool.poll_finished(), None);
}

#[test]
fn pool_is_busy_from_spawn_until_drained() {
    let mut pool: AsyncTaskPool<u32> = AsyncTaskPool::new();
    assert!(pool.is_idle());
    let (release, computation) = held_back(8);
    pool.spawn(computation);
    assert!(!pool.is_idle());
    assert_eq!(pool.iter_poll().count(), 1);
    assert!(!pool.is_idle());
    release.send(()).unwrap();
    assert_eq!(next_value(&mut pool), 8);
    assert!(pool.is_idle());
}

#[test]
fn two_passes_without_a_completion_say_pending_twice() {
    let mut pool: AsyncTaskPool<u32> = AsyncTaskPool::new();
    let (release_one, one) = held_back(1);
    let (_release_two, two) = held_back(2);
    pool.spawn(one);
    pool.spawn(two);
    let pending = vec![AsyncTaskStatus::Pending, AsyncTaskStatus::Pending];
    let first: Vec<AsyncTaskStatus<u32>> = pool.iter_poll().collect();
    let second: Vec<AsyncTaskStatus<u32>> = pool.iter_poll().collect();
    assert_eq!(first, pending);
    assert_eq!(second, pending);
    assert_eq!(pool.len(), 2);

    release_one.send(()).unwrap();
    let statuses = pass_with_a_value(&mut pool, &pending);
    assert_eq!(statuses, vec![AsyncTaskStatus::Finished(1), AsyncTaskStatus::Pending]);
    let after: Vec<AsyncTaskStatus<u32>> = pool.iter_poll().collect();
    assert_eq!(after, vec![AsyncTaskStatus::Pending]);
    let again: Vec<AsyncTaskStatus<u32>> = pool.iter_poll().collect();
    assert_eq!(again, vec![AsyncTaskStatus::Pending]);
}

#[test]
fn scan_finds_nothing_among_pending_tasks() {
    let mut pool: AsyncTaskPool<u32> = AsyncTaskPool::new();
    assert_eq!(pool.poll_finished(), None);
    let (_release_one, one) = held_back(1);
    let (_release_two, two) = held_back(2);
    pool.spawn(one);
    pool.spawn(two);
    for _ in 0..1000 {
        assert_eq!(pool.poll_finished(), None);
    }
    assert_eq!(pool.len(), 2);
}

#[test]
fn task_that_never_completes_stays_pending() {
    let mut pool: AsyncTaskPool<u32> = AsyncTaskPool::new();
    pool.spawn(std::future::pending::<u32>());
    let (release, computation) = held_back(5);
    pool.spawn(computation);
    release.send(()).unwrap();
    assert_eq!(next_value(&mut pool), 5);
    for _ in 0..1000 {
        let statuses: Vec<AsyncTaskStatus<u32>> = pool.iter_poll().collect();
        assert_eq!(statuses, vec![AsyncTaskStatus::Pending]);
    }
    assert_eq!(pool.poll_finished(), None);
    assert!(!pool.is_idle());
}

#[test]
fn every_spawned_value_is_reported_exactly_once() {
    let mut pool: AsyncTaskPool<u32> = AsyncTaskPool::new();
    let spawned: u32 = 40;
    for value in 0..spawned {
        pool.spawn(std::future::ready(value));
    }
    assert_eq!(pool.len(), 40);
    let mut seen: Vec<u32> = Vec::new();
    let end = deadline();
    let mut turn: u32 = 0;
    while !pool.is_idle() {
        let slots_before = pool.len();
        let seen_before = seen.len();
        if turn % 2 == 0 {
            let statuses: Vec<AsyncTaskStatus<u32>> = pool.iter_poll().collect();
            assert_eq!(statuses.len(), slots_before);
            for status in statuses {
                match status {
                    AsyncTaskStatus::Finished(value) => seen.push(value),
                    AsyncTaskStatus::Pending => {}
                    AsyncTaskStatus::Idle => panic!("no slot of the pool was ever empty"),
                }
            }
        } else if let Some(value) = pool.poll_finished() {
            seen.push(value);
        }
        assert_eq!(slots_before - pool.len(), seen.len() - seen_before);
        assert!(seen.len() <= 40);
        assert!(Instant::now() < end, "the tasks did not finish in time");
        turn = turn.wrapping_add(1);
    }
    assert_eq!(pool.len(), 0);
    seen.sort();
    let expected: Vec<u32> = (0..spawned).collect();
    assert_eq!(seen, expected);
    assert_eq!(pool.iter_poll().count(), 0);
    assert_eq!(pool.poll_finished(), None);
}

#[test]
fn spawn_accepts_a_task_as_well_as_a_computation() {
    let mut pool: AsyncTaskPool<u32> = AsyncTaskPool::new();
    pool.spawn(AsyncTask::new(std::future::ready(6u32)));
    pool.spawn_task(AsyncTask::new(std::future::ready(6u32)));
    assert_eq!(pool.len(), 2);
    assert_eq!(next_value(&mut pool), 6);
    assert_eq!(next_value(&mut pool), 6);
    assert!(pool.is_idle());
}

#[test]
fn dropping_a_pool_does_not_wait_for_its_tasks() {
    let mut pool: AsyncTaskPool<u32> = AsyncTaskPool::new();
    pool.spawn(std::future::pending::<u32>());
    let (_release, computation) = held_back(1);
    pool.spawn(computation);
    drop(pool);
}
