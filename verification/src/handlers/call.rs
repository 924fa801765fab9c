//! Requests about calls.

use crate::error::ScreeningError;
use crate::identity::{id_text, write_id};
use crate::lifecycle::{
    after_create, after_transition, create_result, find_call, lemma_create_keeps_consistent,
    lemma_transition_keeps_consistent, lists_recent, call_views, transition_result,
};
use crate::models::call::{
    Call, CallResponse, CallRouteRequest, CallStartRequest, CallView,
};
use crate::models::state::AppState;
use crate::routing::{route, route_effects, route_target, SideEffect};
use crate::timestamp::Timestamp;
use vstd::prelude::*;
use vstd::string::*;

verus! {

/// How many calls the history shows at most.
pub const HISTORY_LIMIT: usize = 50;

/// The name under which the session of the call `call_id` is kept.
pub open spec fn session_key_text(call_id: u128) -> Seq<char> {
    "call:"@ + id_text(call_id) + ":twilio_sid"@
}

/// The name under which the session of the call `call_id` is kept.
pub fn session_key(call_id: u128) -> (key: String)
    ensures
        key@ == session_key_text(call_id),
{
    let id = write_id(call_id);
    let mut key = String::from_str("call:");
    key.append(id.as_str());
    key.append(":twilio_sid");
    key
}

/// Whether a response that was given tells of the call that was expected,
/// or an error that was given is the one that was expected.
pub open spec fn answers_response(
    given: Result<CallResponse, ScreeningError>,
    expected: Result<CallView, ScreeningError>,
) -> bool {
    match given {
        Ok(response) => expected matches Ok(call) && response@ == call.response(),
        Err(error) => expected == Err::<CallView, ScreeningError>(error),
    }
}

/// A call that was routed: what is told about it, and what has to be done
/// besides.
#[derive(Debug)]
pub struct Routed {
    pub response: CallResponse,
    pub effects: Vec<SideEffect>,
}

/// Whether a routing that was given is the one that was expected.
pub open spec fn answers_routing(
    given: Result<Routed, ScreeningError>,
    expected: Result<CallView, ScreeningError>,
    effects: Seq<SideEffect>,
) -> bool {
    match given {
        Ok(routed) => expected matches Ok(call) && routed.response@ == call.response()
            && routed.effects@ == effects,
        Err(error) => expected == Err::<CallView, ScreeningError>(error),
    }
}

/// Begins the screening of a call: puts the call on record, in status
/// `Ringing`, under a new identifier and at the time that the clock shows.
///
/// Refuses with `Validation` if the caller's number is empty.
pub fn start_call(state: &mut AppState, request: CallStartRequest) -> (r: Result<
    CallResponse,
    ScreeningError,
>)
    requires
        old(state).inv(),
    ensures
        final(state).inv(),
        old(state).referential() ==> final(state).referential(),
        final(state).callbacks@ == old(state).callbacks@,
        exists|id: u128, now: Timestamp|
            {
                &&& answers_response(
                    r,
                    #[trigger] create_result(
                        old(state).calls@,
                        id,
                        request.user_id,
                        request.caller_number@,
                        request.caller_name.deep_view(),
                        now,
                    ),
                )
                &&& final(state).calls@ == after_create(
                    old(state).calls@,
                    id,
                    request.user_id,
                    request.caller_number@,
                    request.caller_name.deep_view(),
                    now,
                )
            },
        request.caller_number@.len() == 0 ==> r is Err && r->Err_0 == ScreeningError::Validation,
{
    let ghost before = state.calls@;
    let ghost number = request.caller_number@;
    let ghost name = request.caller_name.deep_view();
    let made = state.calls.create(request.user_id, request.caller_number, request.caller_name);
    proof {
        let (id, now) = choose|id: u128, now: Timestamp|
            {
                &&& crate::lifecycle::answers(
                    made,
                    #[trigger] create_result(before, id, request.user_id, number, name, now),
                )
                &&& state.calls@ == after_create(before, id, request.user_id, number, name, now)
            };
        lemma_create_keeps_consistent(before, id, request.user_id, number, name, now);
    }
    match made {
        Ok(call) => Ok(CallResponse::of(&call)),
        Err(error) => Err(error),
    }
}

/// Routes a call: asks the policy what becomes of the call, and moves the
/// call there at the time that the clock shows.
///
/// Refuses with `NotFound` if no such call is on record, and with
/// `InvalidTransition` if the call is in a terminal status.
pub fn route_call(state: &mut AppState, request: CallRouteRequest) -> (r: Result<
    Routed,
    ScreeningError,
>)
    requires
        old(state).inv(),
    ensures
        final(state).inv(),
        old(state).referential() ==> final(state).referential(),
        final(state).callbacks@ == old(state).callbacks@,
        exists|now: Timestamp|
            {
                &&& answers_routing(
                    r,
                    #[trigger] transition_result(
                        old(state).calls@,
                        request.call_id,
                        route_target(request.action),
                        now,
                    ),
                    route_effects(request.action),
                )
                &&& final(state).calls@ == after_transition(
                    old(state).calls@,
                    request.call_id,
                    route_target(request.action),
                    now,
                )
            },
{
    let ghost before = state.calls@;
    let decision = route(request.action);
    let moved = state.calls.transition(request.call_id, decision.target);
    proof {
        let now = choose|now: Timestamp|
            {
                &&& crate::lifecycle::answers(
                    moved,
                    #[trigger] transition_result(before, request.call_id, decision.target, now),
                )
                &&& state.calls@ == after_transition(
                    before,
                    request.call_id,
                    decision.target,
                    now,
                )
            };
        lemma_transition_keeps_consistent(before, request.call_id, decision.target, now);
    }
    match moved {
        Ok(call) => Ok(Routed { response: CallResponse::of(&call), effects: decision.effects }),
        Err(error) => Err(error),
    }
}

/// The call with the identifier `call_id`.
///
/// Refuses with `NotFound` if no such call is on record.
pub fn get_call(state: &AppState, call_id: u128) -> (r: Result<Call, ScreeningError>)
    requires
        state.inv(),
    ensures
        match r {
            Ok(call) => find_call(state.calls@, call_id) == Some(call@) && call@.well_formed(),
            Err(error) => find_call(state.calls@, call_id) is None && error
                == ScreeningError::NotFound,
        },
{
    state.calls.get(call_id)
}

/// The most recent calls, the most recent first, no more than
/// `HISTORY_LIMIT` of them.
pub fn get_call_history(state: &AppState) -> (r: Vec<Call>)
    requires
        state.inv(),
    ensures
        lists_recent(call_views(r@), state.calls@, HISTORY_LIMIT as int),
{
    state.calls.list_recent(HISTORY_LIMIT)
}

} // verus!
