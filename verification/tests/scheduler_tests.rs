use call_screening::error::ScreeningError;
use call_screening::lifecycle::CallLifecycle;
use call_screening::models::{Callback, CallbackStatus, CallStatus};
use call_screening::scheduler::CallbackScheduler;
use call_screening::timestamp::Timestamp;

fn at(micros: i64) -> Timestamp {
    Timestamp::from_micros(micros)
}

fn one_call() -> CallLifecycle {
    let mut calls = CallLifecycle::new();
    calls.create_at(1, 7, "+15551234567".to_string(), None, at(0)).unwrap();
    calls
}

#[test]
fn a_callback_copies_the_user_and_the_number_of_its_call() {
    let calls = one_call();
    let mut scheduler = CallbackScheduler::new();
    let callback = scheduler
        .schedule_at(&calls, 100, 1, at(5_000), Some("after lunch".to_string()), at(10))
        .unwrap();
    assert_eq!(callback.id, 100);
    assert_eq!(callback.call_id, 1);
    assert_eq!(callback.user_id, 7);
    assert_eq!(callback.caller_number, "+15551234567");
    assert_eq!(callback.scheduled_time, at(5_000));
    assert_eq!(callback.status, CallbackStatus::Scheduled);
    assert_eq!(callback.notes, Some("after lunch".to_string()));
    assert_eq!(callback.created_at, at(10));
    assert_eq!(callback.updated_at, at(10));
    assert_eq!(scheduler.len(), 1);
    assert_eq!(scheduler.get(100).unwrap().call_id, 1);
}

#[test]
fn no_callback_is_made_for_a_call_that_is_not_on_record() {
    let calls = one_call();
    let mut scheduler = CallbackScheduler::new();
    let refused = scheduler.schedule_at(&calls, 100, 2, at(5_000), None, at(10));
    assert_eq!(refused.err(), Some(ScreeningError::NotFound));
    assert_eq!(scheduler.len(), 0);
    assert_eq!(scheduler.get(100).err(), Some(ScreeningError::NotFound));
    assert!(scheduler.list_upcoming().is_empty());

    let refused = scheduler.schedule(&calls, 2, at(5_000), None);
    assert_eq!(refused.err(), Some(ScreeningError::NotFound));
    assert_eq!(scheduler.len(), 0);
}

#[test]
fn a_callback_identifier_is_used_once() {
    let calls = one_call();
    let mut scheduler = CallbackScheduler::new();
    scheduler.schedule_at(&calls, 100, 1, at(5_000), None, at(10)).unwrap();
    let refused = scheduler.schedule_at(&calls, 100, 1, at(6_000), None, at(11));
    assert_eq!(refused.err(), Some(ScreeningError::Conflict));
    assert_eq!(scheduler.len(), 1);
    assert_eq!(scheduler.get(100).unwrap().scheduled_time, at(5_000));
}

#[test]
fn a_callback_outlives_what_happens_to_its_call() {
    let mut calls = one_call();
    let mut scheduler = CallbackScheduler::new();
    scheduler.schedule_at(&calls, 100, 1, at(5_000), None, at(10)).unwrap();
    calls.transition_at(1, CallStatus::Blocked, at(20)).unwrap();
    let callback = scheduler.get(100).unwrap();
    assert_eq!(callback.status, CallbackStatus::Scheduled);
    assert_eq!(callback.caller_number, "+15551234567");
}

#[test]
fn a_callback_is_completed_once() {
    let calls = one_call();
    let mut scheduler = CallbackScheduler::new();
    scheduler.schedule_at(&calls, 100, 1, at(5_000), None, at(10)).unwrap();
    let done = scheduler.complete_at(100, at(20)).unwrap();
    assert_eq!(done.status, CallbackStatus::Completed);
    assert_eq!(done.updated_at, at(20));
    assert_eq!(done.created_at, at(10));
    assert_eq!(scheduler.complete_at(100, at(30)).err(), Some(ScreeningError::InvalidTransition));
    assert_eq!(scheduler.cancel_at(100, at(30)).err(), Some(ScreeningError::InvalidTransition));
    let kept = scheduler.get(100).unwrap();
    assert_eq!(kept.status, CallbackStatus::Completed);
    assert_eq!(kept.updated_at, at(20));
}

#[test]
fn a_callback_is_cancelled_once() {
    let calls = one_call();
    let mut scheduler = CallbackScheduler::new();
    scheduler.schedule_at(&calls, 100, 1, at(5_000), None, at(10)).unwrap();
    let gone = scheduler.cancel_at(100, at(20)).unwrap();
    assert_eq!(gone.status, CallbackStatus::Cancelled);
    assert_eq!(gone.updated_at, at(20));
    assert_eq!(scheduler.cancel_at(100, at(30)).err(), Some(ScreeningError::InvalidTransition));
    assert_eq!(scheduler.complete_at(100, at(30)).err(), Some(ScreeningError::InvalidTransition));
    assert_eq!(scheduler.get(100).unwrap().status, CallbackStatus::Cancelled);
}

#[test]
fn unknown_callbacks_are_not_found() {
    let mut scheduler = CallbackScheduler::new();
    assert_eq!(scheduler.complete_at(1, at(0)).err(), Some(ScreeningError::NotFound));
    assert_eq!(scheduler.cancel_at(1, at(0)).err(), Some(ScreeningError::NotFound));
    assert_eq!(scheduler.complete(1).err(), Some(ScreeningError::NotFound));
    assert_eq!(scheduler.cancel(1).err(), Some(ScreeningError::NotFound));
    assert_eq!(scheduler.get(1).err(), Some(ScreeningError::NotFound));
}

#[test]
fn scheduling_and_closing_read_the_clock() {
    let calls = one_call();
    let mut scheduler = CallbackScheduler::new();
    let first = scheduler.schedule(&calls, 1, at(5_000), None).unwrap();
    let second = scheduler.schedule(&calls, 1, at(6_000), None).unwrap();
    assert_ne!(first.id, second.id);
    assert_eq!((first.id >> 76) & 0xF, 4);
    assert_eq!(first.created_at, first.updated_at);
    assert!(first.created_at.micros > 1_577_836_800_000_000);
    let done = scheduler.complete(first.id).unwrap();
    assert_eq!(done.status, CallbackStatus::Completed);
    assert!(done.updated_at.micros >= first.created_at.micros);
    let gone = scheduler.cancel(second.id).unwrap();
    assert_eq!(gone.status, CallbackStatus::Cancelled);
    assert_eq!(scheduler.complete(second.id).err(), Some(ScreeningError::InvalidTransition));
}

#[test]
fn upcoming_callbacks_are_the_scheduled_ones_soonest_first() {
    let calls = one_call();
    let mut scheduler = CallbackScheduler::new();
    let made = [(50u128, 300i64), (20, 100), (40, 300), (30, 200), (10, 400), (60, 50)];
    for (id, due) in made {
        scheduler.schedule_at(&calls, id, 1, at(due), None, at(0)).unwrap();
    }
    scheduler.complete_at(30, at(1)).unwrap();
    scheduler.cancel_at(60, at(1)).unwrap();
    let ids = |callbacks: Vec<Callback>| callbacks.iter().map(|c| c.id).collect::<Vec<u128>>();
    let upcoming = scheduler.list_upcoming();
    assert!(upcoming.iter().all(|callback| callback.status == CallbackStatus::Scheduled));
    assert_eq!(ids(upcoming), vec![20, 40, 50, 10]);
    assert_eq!(scheduler.len(), 6);
}

#[test]
fn callbacks_are_restored_unless_an_identifier_repeats() {
    let calls = one_call();
    let mut scheduler = CallbackScheduler::new();
    scheduler.schedule_at(&calls, 100, 1, at(5_000), None, at(10)).unwrap();
    scheduler.schedule_at(&calls, 101, 1, at(4_000), None, at(10)).unwrap();
    let records = scheduler.list_upcoming();
    let restored = CallbackScheduler::restore(records.clone()).ok().unwrap();
    assert_eq!(restored.len(), 2);
    assert_eq!(restored.get(101).unwrap().scheduled_time, at(4_000));
    let mut twice = records.clone();
    twice.push(records[1].clone());
    assert_eq!(CallbackScheduler::restore(twice).err(), Some(ScreeningError::Validation));
}

#[test]
fn callback_statuses_know_whether_they_are_terminal() {
    assert!(!CallbackStatus::Scheduled.is_terminal());
    assert!(CallbackStatus::Completed.is_terminal());
    assert!(CallbackStatus::Missed.is_terminal());
    assert!(CallbackStatus::Cancelled.is_terminal());
}
