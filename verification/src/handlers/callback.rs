//! Requests about callbacks.

use crate::error::ScreeningError;
use crate::lifecycle::{call_ids, find_call, has_call};
use crate::models::call::{Callback, CallbackRequest, CallbackStatus};
use crate::models::state::AppState;
use crate::scheduler::{
    after_closing, after_schedule, answers_callback, callback_ids, callback_index,
    callback_views, closing_result, find_callback, lists_upcoming, schedule_result,
};
use crate::timestamp::Timestamp;
use vstd::prelude::*;

verus! {

/// Schedules a callback for a call, under a new identifier and at the time
/// that the clock shows.
///
/// Refuses with `NotFound` if the call is not on record; no callback is
/// made then.
pub fn schedule_callback(state: &mut AppState, request: CallbackRequest) -> (r: Result<
    Callback,
    ScreeningError,
>)
    requires
        old(state).inv(),
    ensures
        final(state).inv(),
        old(state).referential() ==> final(state).referential(),
        final(state).calls@ == old(state).calls@,
        exists|id: u128, now: Timestamp|
            {
                &&& answers_callback(
                    r,
                    #[trigger] schedule_result(
                        old(state).callbacks@,
                        old(state).calls@,
                        id,
                        request.call_id,
                        request.scheduled_time,
                        request.notes.deep_view(),
                        now,
                    ),
                )
                &&& final(state).callbacks@ == after_schedule(
                    old(state).callbacks@,
                    old(state).calls@,
                    id,
                    request.call_id,
                    request.scheduled_time,
                    request.notes.deep_view(),
                    now,
                )
            },
        find_call(old(state).calls@, request.call_id) is None ==> r is Err && r->Err_0
            == ScreeningError::NotFound && final(state).callbacks@ == old(state).callbacks@,
{
    let ghost before = state.callbacks@;
    let ghost calls = state.calls@;
    let made = state.callbacks.schedule(
        &state.calls,
        request.call_id,
        request.scheduled_time,
        request.notes,
    );
    proof {
        if made is Ok && old(state).referential() {
            let callback = made->Ok_0;
            let i = call_ids(calls).index_of(request.call_id);
            assert(call_ids(calls)[i] == request.call_id);
            assert(callback@.call_id == request.call_id);
            assert(state.callbacks@ == before.push(callback@));
            assert forall|j: int| 0 <= j < state.callbacks@.len() implies has_call(
                calls,
                (#[trigger] state.callbacks@[j]).call_id,
            ) by {
                if j < before.len() {
                    assert(state.callbacks@[j] == before[j]);
                }
            }
        }
    }
    made
}

/// The callback with the identifier `callback_id`.
///
/// Refuses with `NotFound` if no such callback is on record.
pub fn get_callback(state: &AppState, callback_id: u128) -> (r: Result<Callback, ScreeningError>)
    requires
        state.inv(),
    ensures
        match r {
            Ok(callback) => find_callback(state.callbacks@, callback_id) == Some(callback@),
            Err(error) => find_callback(state.callbacks@, callback_id) is None && error
                == ScreeningError::NotFound,
        },
{
    state.callbacks.get(callback_id)
}

proof fn lemma_closing_keeps_calls_referred(
    state_before: AppState,
    state_after: AppState,
    id: u128,
    outcome: CallbackStatus,
    now: Timestamp,
)
    requires
        state_before.inv(),
        state_before.referential(),
        state_after.calls@ == state_before.calls@,
        state_after.callbacks@ == after_closing(state_before.callbacks@, id, outcome, now),
    ensures
        crate::models::state::callbacks_refer(state_after.callbacks@, state_after.calls@),
{
    let callbacks = state_before.callbacks@;
    if let Ok(closed) = closing_result(callbacks, id, outcome, now) {
        let i = callback_index(callbacks, id);
        assert(callback_ids(callbacks)[i] == id);
        assert forall|j: int| 0 <= j < state_after.callbacks@.len() implies has_call(
            state_after.calls@,
            (#[trigger] state_after.callbacks@[j]).call_id,
        ) by {
            assert(has_call(state_before.calls@, callbacks[j].call_id));
        }
    }
}

/// Marks a callback as completed, at the time that the clock shows.
///
/// Refuses with `NotFound` if no such callback is on record, and with
/// `InvalidTransition` if the callback is no longer scheduled.
pub fn complete_callback(state: &mut AppState, callback_id: u128) -> (r: Result<
    Callback,
    ScreeningError,
>)
    requires
        old(state).inv(),
    ensures
        final(state).inv(),
        old(state).referential() ==> final(state).referential(),
        final(state).calls@ == old(state).calls@,
        exists|now: Timestamp|
            {
                &&& answers_callback(
                    r,
                    #[trigger] closing_result(
                        old(state).callbacks@,
                        callback_id,
                        CallbackStatus::Completed,
                        now,
                    ),
                )
                &&& final(state).callbacks@ == after_closing(
                    old(state).callbacks@,
                    callback_id,
                    CallbackStatus::Completed,
                    now,
                )
            },
{
    let ghost before = state.callbacks@;
    let closed = state.callbacks.complete(callback_id);
    proof {
        let now = choose|now: Timestamp|
            {
                &&& answers_callback(
                    closed,
                    #[trigger] closing_result(before, callback_id, CallbackStatus::Completed, now),
                )
                &&& state.callbacks@ == after_closing(
                    before,
                    callback_id,
                    CallbackStatus::Completed,
                    now,
                )
            };
        if old(state).referential() {
            lemma_closing_keeps_calls_referred(
                *old(state),
                *state,
                callback_id,
                CallbackStatus::Completed,
                now,
            );
        }
    }
    closed
}

/// Marks a callback as cancelled, at the time that the clock shows.
///
/// Refuses with `NotFound` if no such callback is on record, and with
/// `InvalidTransition` if the callback is no longer scheduled.
pub fn cancel_callback(state: &mut AppState, callback_id: u128) -> (r: Result<
    Callback,
    ScreeningError,
>)
    requires
        old(state).inv(),
    ensures
        final(state).inv(),
        old(state).referential() ==> final(state).referential(),
        final(state).calls@ == old(state).calls@,
        exists|now: Timestamp|
            {
                &&& answers_callback(
                    r,
                    #[trigger] closing_result(
                        old(state).callbacks@,
                        callback_id,
                        CallbackStatus::Cancelled,
                        now,
                    ),
                )
                &&& final(state).callbacks@ == after_closing(
                    old(state).callbacks@,
                    callback_id,
                    CallbackStatus::Cancelled,
                    now,
                )
            },
{
    let ghost before = state.callbacks@;
    let closed = state.callbacks.cancel(callback_id);
    proof {
        let now = choose|now: Timestamp|
            {
                &&& answers_callback(
                    closed,
                    #[trigger] closing_result(before, callback_id, CallbackStatus::Cancelled, now),
                )
                &&& state.callbacks@ == after_closing(
                    before,
                    callback_id,
                    CallbackStatus::Cancelled,
                    now,
                )
            };
        if old(state).referential() {
            lemma_closing_keeps_calls_referred(
                *old(state),
                *state,
                callback_id,
                CallbackStatus::Cancelled,
                now,
            );
        }
    }
    closed
}

/// The callbacks that are still scheduled, the soonest first.
pub fn get_callbacks(state: &AppState) -> (r: Vec<Callback>)
    requires
        state.inv(),
    ensures
        lists_upcoming(callback_views(r@), state.callbacks@),
{
    state.callbacks.list_upcoming()
}

} // verus!
