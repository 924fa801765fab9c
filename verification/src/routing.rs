//! The routing policy: what becomes of a call when somebody asks for an
//! action. The policy decides; it reads and changes nothing.

use crate::error::ScreeningError;
use crate::models::call::{CallRouteAction, CallStatus};
use crate::text::same_text;
use vstd::prelude::*;

verus! {

/// Something that has to be done besides moving the call.
#[derive(Clone, Copy, Debug, PartialEq, Eq, Structural)]
pub enum SideEffect {
    /// A callback has to be scheduled for the caller.
    ScheduleCallback,
}

/// What the policy decides: the status that the call moves to, and what has
/// to be done besides.
#[derive(Debug)]
pub struct RoutingDecision {
    pub target: CallStatus,
    pub effects: Vec<SideEffect>,
}

/// The status that a call moves to when `action` is asked for.
///
/// Voicemail leaves the call in progress: taking the message is itself part
/// of the call, which is completed later.
pub open spec fn route_target(action: CallRouteAction) -> CallStatus {
    match action {
        CallRouteAction::Accept => CallStatus::InProgress,
        CallRouteAction::Decline => CallStatus::Missed,
        CallRouteAction::Voicemail => CallStatus::InProgress,
        CallRouteAction::ScheduleCallback => CallStatus::Missed,
    }
}

/// What has to be done besides moving the call when `action` is asked for.
pub open spec fn route_effects(action: CallRouteAction) -> Seq<SideEffect> {
    match action {
        CallRouteAction::ScheduleCallback => seq![SideEffect::ScheduleCallback],
        _ => Seq::empty(),
    }
}

/// Decides what becomes of a call when `action` is asked for.
pub fn route(action: CallRouteAction) -> (decision: RoutingDecision)
    ensures
        decision.target == route_target(action),
        decision.effects@ == route_effects(action),
{
    let mut effects: Vec<SideEffect> = Vec::new();
    let target = match action {
        CallRouteAction::Accept => CallStatus::InProgress,
        CallRouteAction::Decline => CallStatus::Missed,
        CallRouteAction::Voicemail => CallStatus::InProgress,
        CallRouteAction::ScheduleCallback => {
            effects.push(SideEffect::ScheduleCallback);
            CallStatus::Missed
        },
    };
    proof {
        assert(effects@ =~= route_effects(action));
    }
    RoutingDecision { target, effects }
}

/// The action that goes by the name `name`, if there is one.
pub open spec fn action_with_name(name: Seq<char>) -> Option<CallRouteAction> {
    if name == "Accept"@ {
        Some(CallRouteAction::Accept)
    } else if name == "Decline"@ {
        Some(CallRouteAction::Decline)
    } else if name == "Voicemail"@ {
        Some(CallRouteAction::Voicemail)
    } else if name == "ScheduleCallback"@ {
        Some(CallRouteAction::ScheduleCallback)
    } else {
        None
    }
}

/// The action that goes by the name `name`.
///
/// Refuses with `InvalidAction` if there is no such action.
pub fn action_named(name: &str) -> (r: Result<CallRouteAction, ScreeningError>)
    ensures
        match r {
            Ok(action) => action_with_name(name@) == Some(action),
            Err(error) => action_with_name(name@) is None && error
                == ScreeningError::InvalidAction,
        },
{
    if same_text(name, "Accept") {
        Ok(CallRouteAction::Accept)
    } else if same_text(name, "Decline") {
        Ok(CallRouteAction::Decline)
    } else if same_text(name, "Voicemail") {
        Ok(CallRouteAction::Voicemail)
    } else if same_text(name, "ScheduleCallback") {
        Ok(CallRouteAction::ScheduleCallback)
    } else {
        Err(ScreeningError::InvalidAction)
    }
}

/// Decides what becomes of a call when the action that goes by the name
/// `name` is asked for.
///
/// Refuses with `InvalidAction` if there is no such action.
pub fn route_named(name: &str) -> (r: Result<RoutingDecision, ScreeningError>)
    ensures
        match r {
            Ok(decision) => action_with_name(name@) matches Some(action) && decision.target
                == route_target(action) && decision.effects@ == route_effects(action),
            Err(error) => action_with_name(name@) is None && error
                == ScreeningError::InvalidAction,
        },
{
    match action_named(name) {
        Ok(action) => Ok(route(action)),
        Err(error) => Err(error),
    }
}

/// The whole policy, action by action: accepting and voicemail put the call
/// in progress, declining and scheduling a callback make it missed, and only
/// scheduling a callback asks for anything besides.
pub proof fn lemma_routing_table()
    ensures
        route_target(CallRouteAction::Accept) == CallStatus::InProgress,
        route_effects(CallRouteAction::Accept) == Seq::<SideEffect>::empty(),
        route_target(CallRouteAction::Decline) == CallStatus::Missed,
        route_effects(CallRouteAction::Decline) == Seq::<SideEffect>::empty(),
        route_target(CallRouteAction::Voicemail) == CallStatus::InProgress,
        route_effects(CallRouteAction::Voicemail) == Seq::<SideEffect>::empty(),
        route_target(CallRouteAction::ScheduleCallback) == CallStatus::Missed,
        route_effects(CallRouteAction::ScheduleCallback) == seq![SideEffect::ScheduleCallback],
{
}

/// The policy never sends a call back to ringing, and it ends a call exactly
/// when the action is to decline or to schedule a callback.
pub proof fn lemma_routing_targets(action: CallRouteAction)
    ensures
        route_target(action) != CallStatus::Ringing,
        route_target(action).terminal() <==> (action == CallRouteAction::Decline || action
            == CallRouteAction::ScheduleCallback),
        route_effects(action).len() > 0 ==> route_target(action) == CallStatus::Missed,
{
}

} // verus!
