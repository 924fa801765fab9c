use call_screening::error::ScreeningError;
use call_screening::models::{CallRouteAction, CallStatus};
use call_screening::routing::{action_named, route, route_named, SideEffect};

#[test]
fn accept_puts_the_call_in_progress() {
    let decision = route(CallRouteAction::Accept);
    assert_eq!(decision.target, CallStatus::InProgress);
    assert!(decision.effects.is_empty());
}

#[test]
fn decline_makes_the_call_missed() {
    let decision = route(CallRouteAction::Decline);
    assert_eq!(decision.target, CallStatus::Missed);
    assert!(decision.effects.is_empty());
}

#[test]
fn voicemail_keeps_the_call_in_progress() {
    let decision = route(CallRouteAction::Voicemail);
    assert_eq!(decision.target, CallStatus::InProgress);
    assert!(decision.effects.is_empty());
}

#[test]
fn scheduling_a_callback_makes_the_call_missed_and_asks_for_the_callback() {
    let decision = route(CallRouteAction::ScheduleCallback);
    assert_eq!(decision.target, CallStatus::Missed);
    assert_eq!(decision.effects, vec![SideEffect::ScheduleCallback]);
}

#[test]
fn the_policy_answers_the_same_every_time() {
    let actions = [
        CallRouteAction::Accept,
        CallRouteAction::Decline,
        CallRouteAction::Voicemail,
        CallRouteAction::ScheduleCallback,
    ];
    for action in actions {
        let first = route(action);
        for _ in 0..3 {
            let again = route(action);
            assert_eq!(again.target, first.target);
            assert_eq!(again.effects, first.effects);
        }
    }
}

#[test]
fn actions_go_by_their_names() {
    assert_eq!(action_named("Accept"), Ok(CallRouteAction::Accept));
    assert_eq!(action_named("Decline"), Ok(CallRouteAction::Decline));
    assert_eq!(action_named("Voicemail"), Ok(CallRouteAction::Voicemail));
    assert_eq!(action_named("ScheduleCallback"), Ok(CallRouteAction::ScheduleCallback));
    assert_eq!(action_named("accept"), Err(ScreeningError::InvalidAction));
    assert_eq!(action_named(""), Err(ScreeningError::InvalidAction));
    assert_eq!(action_named("Hang up"), Err(ScreeningError::InvalidAction));
    let decision = route_named("ScheduleCallback").unwrap();
    assert_eq!(decision.target, CallStatus::Missed);
    assert_eq!(decision.effects, vec![SideEffect::ScheduleCallback]);
    assert_eq!(route_named("Forward").err(), Some(ScreeningError::InvalidAction));
}
