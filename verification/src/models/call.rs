//! Calls, callbacks and the requests that act on them.

use crate::score::Score;
use crate::timestamp::Timestamp;
use vstd::prelude::*;

verus! {

/// Where a call stands. `Ringing` is where every call begins; `Completed`,
/// `Missed`, `Blocked` and `Failed` are terminal: a call that has reached one
/// of them never changes status again.
#[derive(Clone, Copy, Debug, PartialEq, Eq, Structural)]
pub enum CallStatus {
    Ringing,
    InProgress,
    Completed,
    Missed,
    Blocked,
    Failed,
}

impl CallStatus {
    /// Whether no transition leads out of this status.
    pub open spec fn terminal(self) -> bool {
        self == CallStatus::Completed || self == CallStatus::Missed || self == CallStatus::Blocked
            || self == CallStatus::Failed
    }

    /// Whether no transition leads out of this status.
    pub fn is_terminal(&self) -> (r: bool)
        ensures
            r == self.terminal(),
    {
        match self {
            CallStatus::Ringing => false,
            CallStatus::InProgress => false,
            CallStatus::Completed => true,
            CallStatus::Missed => true,
            CallStatus::Blocked => true,
            CallStatus::Failed => true,
        }
    }
}

/// What a caller or an operator asks to be done with a call.
#[derive(Clone, Copy, Debug, PartialEq, Eq, Structural)]
pub enum CallRouteAction {
    Accept,
    Decline,
    Voicemail,
    ScheduleCallback,
}

/// Where a callback stands. `Scheduled` is where every callback begins; the
/// other three are terminal.
#[derive(Clone, Copy, Debug, PartialEq, Eq, Structural)]
pub enum CallbackStatus {
    Scheduled,
    Completed,
    Missed,
    Cancelled,
}

impl CallbackStatus {
    /// Whether no transition leads out of this status.
    pub open spec fn terminal(self) -> bool {
        self != CallbackStatus::Scheduled
    }

    /// Whether no transition leads out of this status.
    pub fn is_terminal(&self) -> (r: bool)
        ensures
            r == self.terminal(),
    {
        match self {
            CallbackStatus::Scheduled => false,
            CallbackStatus::Completed => true,
            CallbackStatus::Missed => true,
            CallbackStatus::Cancelled => true,
        }
    }
}

/// A copy of an optional text.
pub fn clone_text(text: &Option<String>) -> (r: Option<String>)
    ensures
        r == *text,
{
    match text {
        Some(s) => Some(s.clone()),
        None => None,
    }
}

/// One inbound phone call under screening.
#[derive(Debug)]
pub struct Call {
    pub id: u128,
    pub user_id: u128,
    pub caller_number: String,
    pub caller_name: Option<String>,
    pub status: CallStatus,
    pub started_at: Timestamp,
    pub ended_at: Option<Timestamp>,
    pub duration_seconds: Option<i64>,
    pub transcription: Option<String>,
    pub spam_score: Option<Score>,
    pub intent: Option<String>,
    pub created_at: Timestamp,
    pub updated_at: Timestamp,
}

/// What a call is, as a mathematical value.
pub struct CallView {
    pub id: u128,
    pub user_id: u128,
    pub caller_number: Seq<char>,
    pub caller_name: Option<Seq<char>>,
    pub status: CallStatus,
    pub started_at: Timestamp,
    pub ended_at: Option<Timestamp>,
    pub duration_seconds: Option<i64>,
    pub transcription: Option<Seq<char>>,
    pub spam_score: Option<Score>,
    pub intent: Option<Seq<char>>,
    pub created_at: Timestamp,
    pub updated_at: Timestamp,
}

impl View for Call {
    type V = CallView;

    open spec fn view(&self) -> CallView {
        CallView {
            id: self.id,
            user_id: self.user_id,
            caller_number: self.caller_number@,
            caller_name: self.caller_name.deep_view(),
            status: self.status,
            started_at: self.started_at,
            ended_at: self.ended_at,
            duration_seconds: self.duration_seconds,
            transcription: self.transcription.deep_view(),
            spam_score: self.spam_score,
            intent: self.intent.deep_view(),
            created_at: self.created_at,
            updated_at: self.updated_at,
        }
    }
}

impl CallView {
    /// What holds of every call at every moment:
    /// the caller's number is there; the call has an end exactly when its
    /// status is terminal; it has a duration exactly when it has an end, and
    /// the duration is then the whole seconds from start to end, which are
    /// not negative; a spam score lies between 0.0 and 1.0.
    pub open spec fn well_formed(self) -> bool {
        &&& self.caller_number.len() > 0
        &&& (self.ended_at is Some <==> self.status.terminal())
        &&& (self.duration_seconds is Some <==> self.ended_at is Some)
        &&& (self.ended_at matches Some(end) ==> {
            &&& self.started_at.micros <= end.micros
            &&& self.duration_seconds == Some(self.started_at.whole_seconds_until(end) as i64)
        })
        &&& (self.spam_score matches Some(score) ==> score.in_unit_interval())
    }
}

impl Clone for Call {
    fn clone(&self) -> (r: Call)
        ensures
            r == *self,
    {
        Call {
            id: self.id,
            user_id: self.user_id,
            caller_number: self.caller_number.clone(),
            caller_name: clone_text(&self.caller_name),
            status: self.status,
            started_at: self.started_at,
            ended_at: self.ended_at,
            duration_seconds: self.duration_seconds,
            transcription: clone_text(&self.transcription),
            spam_score: self.spam_score,
            intent: clone_text(&self.intent),
            created_at: self.created_at,
            updated_at: self.updated_at,
        }
    }
}

impl Call {
    /// Whether the record is one that the library could have produced.
    pub fn is_well_formed(&self) -> (r: bool)
        ensures
            r == self@.well_formed(),
    {
        if self.caller_number.as_str().is_empty() {
            return false;
        }
        let score_fits = match self.spam_score {
            Some(score) => score.is_in_unit_interval(),
            None => true,
        };
        let ends_fit = match (self.ended_at, self.duration_seconds) {
            (Some(end), Some(duration)) => self.status.is_terminal()
                && !end.is_before(&self.started_at)
                && duration == self.started_at.seconds_until(&end),
            (None, None) => !self.status.is_terminal(),
            _ => false,
        };
        score_fits && ends_fit
    }
}

/// The request to begin screening a call.
#[derive(Debug)]
pub struct CallStartRequest {
    pub user_id: u128,
    pub caller_number: String,
    pub caller_name: Option<String>,
    pub twilio_call_sid: String,
}

/// The request to route a call.
#[derive(Clone, Copy, Debug)]
pub struct CallRouteRequest {
    pub call_id: u128,
    pub action: CallRouteAction,
}

/// What is told about a call in answer to a request.
#[derive(Debug)]
pub struct CallResponse {
    pub id: u128,
    pub status: CallStatus,
    pub transcription: Option<String>,
    pub spam_score: Option<Score>,
    pub intent: Option<String>,
}

/// What a response is, as a mathematical value.
pub struct CallResponseView {
    pub id: u128,
    pub status: CallStatus,
    pub transcription: Option<Seq<char>>,
    pub spam_score: Option<Score>,
    pub intent: Option<Seq<char>>,
}

impl View for CallResponse {
    type V = CallResponseView;

    open spec fn view(&self) -> CallResponseView {
        CallResponseView {
            id: self.id,
            status: self.status,
            transcription: self.transcription.deep_view(),
            spam_score: self.spam_score,
            intent: self.intent.deep_view(),
        }
    }
}

impl CallView {
    /// The response that tells of this call.
    pub open spec fn response(self) -> CallResponseView {
        CallResponseView {
            id: self.id,
            status: self.status,
            transcription: self.transcription,
            spam_score: self.spam_score,
            intent: self.intent,
        }
    }
}

impl CallResponse {
    /// The response that tells of `call`.
    pub fn of(call: &Call) -> (r: CallResponse)
        ensures
            r@ == call@.response(),
    {
        CallResponse {
            id: call.id,
            status: call.status,
            transcription: clone_text(&call.transcription),
            spam_score: call.spam_score,
            intent: clone_text(&call.intent),
        }
    }
}

/// The request to call somebody back.
#[derive(Debug)]
pub struct CallbackRequest {
    pub call_id: u128,
    pub scheduled_time: Timestamp,
    pub notes: Option<String>,
}

/// A promise to call somebody back, tied to the call it came from.
///
/// The user and the caller's number are copied from the call when the
/// callback is made, and are not kept in step with it afterwards.
#[derive(Debug)]
pub struct Callback {
    pub id: u128,
    pub call_id: u128,
    pub user_id: u128,
    pub caller_number: String,
    pub scheduled_time: Timestamp,
    pub status: CallbackStatus,
    pub notes: Option<String>,
    pub created_at: Timestamp,
    pub updated_at: Timestamp,
}

/// What a callback is, as a mathematical value.
pub struct CallbackView {
    pub id: u128,
    pub call_id: u128,
    pub user_id: u128,
    pub caller_number: Seq<char>,
    pub scheduled_time: Timestamp,
    pub status: CallbackStatus,
    pub notes: Option<Seq<char>>,
    pub created_at: Timestamp,
    pub updated_at: Timestamp,
}

impl View for Callback {
    type V = CallbackView;

    open spec fn view(&self) -> CallbackView {
        CallbackView {
            id: self.id,
            call_id: self.call_id,
            user_id: self.user_id,
            caller_number: self.caller_number@,
            scheduled_time: self.scheduled_time,
            status: self.status,
            notes: self.notes.deep_view(),
            created_at: self.created_at,
            updated_at: self.updated_at,
        }
    }
}

impl Clone for Callback {
    fn clone(&self) -> (r: Callback)
        ensures
            r == *self,
    {
        Callback {
            id: self.id,
            call_id: self.call_id,
            user_id: self.user_id,
            caller_number: self.caller_number.clone(),
            scheduled_time: self.scheduled_time,
            status: self.status,
            notes: clone_text(&self.notes),
            created_at: self.created_at,
            updated_at: self.updated_at,
        }
    }
}

} // verus!
