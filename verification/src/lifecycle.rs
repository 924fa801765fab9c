//! The lifecycle of a call: the one place that says in which status a call
//! is, and that makes and changes call records.

use crate::error::ScreeningError;
use crate::identity::draw_id;
use crate::listing::{all_before, among, lists, select_first, ListingKey};
use crate::models::call::{Call, CallStatus, CallView};
use crate::score::Score;
use crate::timestamp::{clock_now, Timestamp};
use vstd::prelude::*;

verus! {

/// The record of a call that has just come in.
pub open spec fn ringing_call(
    id: u128,
    user_id: u128,
    caller_number: Seq<char>,
    caller_name: Option<Seq<char>>,
    now: Timestamp,
) -> CallView {
    CallView {
        id,
        user_id,
        caller_number,
        caller_name,
        status: CallStatus::Ringing,
        started_at: now,
        ended_at: None,
        duration_seconds: None,
        transcription: None,
        spam_score: None,
        intent: None,
        created_at: now,
        updated_at: now,
    }
}

impl CallView {
    /// Why the call cannot move to `target` at the time `now`, if it cannot:
    /// a call in a terminal status moves nowhere, and no call ends before it
    /// began.
    pub open spec fn transition_refusal(self, target: CallStatus, now: Timestamp) -> Option<
        ScreeningError,
    > {
        if self.status.terminal() {
            Some(ScreeningError::InvalidTransition)
        } else if target.terminal() && now.micros < self.started_at.micros {
            Some(ScreeningError::Validation)
        } else {
            None
        }
    }

    /// The call after it has moved to `target` at the time `now`. A move to a
    /// terminal status ends the call and fixes its duration.
    pub open spec fn transitioned(self, target: CallStatus, now: Timestamp) -> CallView {
        if target.terminal() {
            CallView {
                status: target,
                updated_at: now,
                ended_at: Some(now),
                duration_seconds: Some(self.started_at.whole_seconds_until(now) as i64),
                ..self
            }
        } else {
            CallView { status: target, updated_at: now, ..self }
        }
    }

    /// The call after screening has reported on it at the time `now`: each
    /// field that is supplied replaces what was there, the spam score after it
    /// has been brought into the interval from 0.0 to 1.0; the status stays.
    pub open spec fn screened(
        self,
        transcription: Option<Seq<char>>,
        intent: Option<Seq<char>>,
        spam_score: Option<Score>,
        now: Timestamp,
    ) -> CallView {
        CallView {
            transcription: if transcription is Some {
                transcription
            } else {
                self.transcription
            },
            intent: if intent is Some {
                intent
            } else {
                self.intent
            },
            spam_score: match spam_score {
                Some(score) => Some(score.clamped()),
                None => self.spam_score,
            },
            updated_at: now,
            ..self
        }
    }
}

/// The identifiers of the calls in `calls`, in the same order.
pub open spec fn call_ids(calls: Seq<CallView>) -> Seq<u128> {
    calls.map_values(|call: CallView| call.id)
}

/// Whether `calls` holds a call with the identifier `id`.
pub open spec fn has_call(calls: Seq<CallView>, id: u128) -> bool {
    call_ids(calls).contains(id)
}

/// The place in `calls` of the call with the identifier `id`.
pub open spec fn call_index(calls: Seq<CallView>, id: u128) -> int
    recommends
        has_call(calls, id),
{
    call_ids(calls).index_of(id)
}

/// The call in `calls` with the identifier `id`, if there is one.
pub open spec fn find_call(calls: Seq<CallView>, id: u128) -> Option<CallView> {
    if has_call(calls, id) {
        Some(calls[call_index(calls, id)])
    } else {
        None
    }
}

/// What holds of the calls on record: no identifier occurs twice, and every
/// call is well formed.
pub open spec fn calls_consistent(calls: Seq<CallView>) -> bool {
    &&& call_ids(calls).no_duplicates()
    &&& forall|i: int| 0 <= i < calls.len() ==> (#[trigger] calls[i]).well_formed()
}

/// Where no identifier occurs twice, the call at place `i` is the one that
/// its identifier finds.
pub proof fn lemma_call_found_at(calls: Seq<CallView>, i: int)
    requires
        call_ids(calls).no_duplicates(),
        0 <= i < calls.len(),
    ensures
        has_call(calls, calls[i].id),
        call_index(calls, calls[i].id) == i,
        find_call(calls, calls[i].id) == Some(calls[i]),
{
    let ids = call_ids(calls);
    assert(ids[i] == calls[i].id);
    let j = ids.index_of(calls[i].id);
    assert(0 <= j < ids.len() && ids[j] == calls[i].id);
}

/// What `create` answers.
pub open spec fn create_result(
    calls: Seq<CallView>,
    id: u128,
    user_id: u128,
    caller_number: Seq<char>,
    caller_name: Option<Seq<char>>,
    now: Timestamp,
) -> Result<CallView, ScreeningError> {
    if caller_number.len() == 0 {
        Err(ScreeningError::Validation)
    } else if has_call(calls, id) {
        Err(ScreeningError::Conflict)
    } else {
        Ok(ringing_call(id, user_id, caller_number, caller_name, now))
    }
}

/// The calls on record after `create`.
pub open spec fn after_create(
    calls: Seq<CallView>,
    id: u128,
    user_id: u128,
    caller_number: Seq<char>,
    caller_name: Option<Seq<char>>,
    now: Timestamp,
) -> Seq<CallView> {
    match create_result(calls, id, user_id, caller_number, caller_name, now) {
        Ok(call) => calls.push(call),
        Err(_) => calls,
    }
}

/// What `transition` answers.
pub open spec fn transition_result(
    calls: Seq<CallView>,
    id: u128,
    target: CallStatus,
    now: Timestamp,
) -> Result<CallView, ScreeningError> {
    match find_call(calls, id) {
        None => Err(ScreeningError::NotFound),
        Some(call) => match call.transition_refusal(target, now) {
            Some(error) => Err(error),
            None => Ok(call.transitioned(target, now)),
        },
    }
}

/// The calls on record after `transition`.
pub open spec fn after_transition(
    calls: Seq<CallView>,
    id: u128,
    target: CallStatus,
    now: Timestamp,
) -> Seq<CallView> {
    match transition_result(calls, id, target, now) {
        Ok(call) => calls.update(call_index(calls, id), call),
        Err(_) => calls,
    }
}

/// What `record_screening_fields` answers.
pub open spec fn screening_result(
    calls: Seq<CallView>,
    id: u128,
    transcription: Option<Seq<char>>,
    intent: Option<Seq<char>>,
    spam_score: Option<Score>,
    now: Timestamp,
) -> Result<CallView, ScreeningError> {
    match find_call(calls, id) {
        None => Err(ScreeningError::NotFound),
        Some(call) => if spam_score matches Some(score) && score.is_nan() {
            Err(ScreeningError::Validation)
        } else {
            Ok(call.screened(transcription, intent, spam_score, now))
        },
    }
}

/// The calls on record after `record_screening_fields`.
pub open spec fn after_screening(
    calls: Seq<CallView>,
    id: u128,
    transcription: Option<Seq<char>>,
    intent: Option<Seq<char>>,
    spam_score: Option<Score>,
    now: Timestamp,
) -> Seq<CallView> {
    match screening_result(calls, id, transcription, intent, spam_score, now) {
        Ok(call) => calls.update(call_index(calls, id), call),
        Err(_) => calls,
    }
}

/// What a sequence of call records is, as a mathematical value.
pub open spec fn call_views(calls: Seq<Call>) -> Seq<CallView> {
    calls.map_values(|call: Call| call@)
}

/// Whether `a` is listed before `b` among recent calls: the call made later
/// comes first, and of two made at the same time the one with the smaller
/// identifier.
pub open spec fn more_recent(a: CallView, b: CallView) -> bool {
    a.created_at.micros > b.created_at.micros || (a.created_at.micros == b.created_at.micros
        && a.id < b.id)
}

/// Whether every one of `listed` is listed before `call` among recent calls.
pub open spec fn all_more_recent(listed: Seq<CallView>, call: CallView) -> bool {
    forall|i: int| 0 <= i < listed.len() ==> more_recent(#[trigger] listed[i], call)
}

/// Whether `listed` holds the most recent of `calls`, the most recent first,
/// as many as there are but no more than `limit`: a call that is left out
/// was made no later than any that is listed, and is left out only because
/// the limit was reached.
pub open spec fn lists_recent(listed: Seq<CallView>, calls: Seq<CallView>, limit: int) -> bool {
    &&& listed.len() == if calls.len() <= limit {
        calls.len() as int
    } else {
        limit
    }
    &&& forall|i: int, j: int|
        0 <= i < j < listed.len() ==> more_recent(#[trigger] listed[i], #[trigger] listed[j])
    &&& forall|i: int| 0 <= i < listed.len() ==> calls.contains(#[trigger] listed[i])
    &&& forall|k: int|
        0 <= k < calls.len() ==> listed.contains(#[trigger] calls[k]) || (listed.len() == limit
            && all_more_recent(listed, calls[k]))
}

proof fn lemma_not_listed_more_recent(
    a: Seq<CallView>,
    b: Seq<CallView>,
    calls: Seq<CallView>,
    limit: int,
    i: int,
)
    requires
        lists_recent(a, calls, limit),
        lists_recent(b, calls, limit),
        0 <= i < a.len(),
        forall|j: int| 0 <= j < i ==> a[j] == b[j],
    ensures
        !more_recent(a[i], b[i]),
{
    if more_recent(a[i], b[i]) {
        assert(calls.contains(a[i]));
        let k = choose|k: int| 0 <= k < calls.len() && calls[k] == a[i];
        if b.contains(calls[k]) {
            let m = choose|m: int| 0 <= m < b.len() && b[m] == calls[k];
            if m < i {
                assert(more_recent(a[m], a[i]));
            } else if m > i {
                assert(more_recent(b[i], b[m]));
            }
        } else {
            assert(all_more_recent(b, calls[k]));
            assert(more_recent(b[i], calls[k]));
        }
    }
}

proof fn lemma_recent_listings_agree(
    a: Seq<CallView>,
    b: Seq<CallView>,
    calls: Seq<CallView>,
    limit: int,
    upto: int,
)
    requires
        calls_consistent(calls),
        lists_recent(a, calls, limit),
        lists_recent(b, calls, limit),
        0 <= upto <= a.len(),
    ensures
        forall|j: int| 0 <= j < upto ==> a[j] == b[j],
    decreases upto,
{
    if upto > 0 {
        let i = upto - 1;
        lemma_recent_listings_agree(a, b, calls, limit, i);
        lemma_not_listed_more_recent(a, b, calls, limit, i);
        lemma_not_listed_more_recent(b, a, calls, limit, i);
        assert(calls.contains(a[i]));
        assert(calls.contains(b[i]));
        let ka = choose|k: int| 0 <= k < calls.len() && calls[k] == a[i];
        let kb = choose|k: int| 0 <= k < calls.len() && calls[k] == b[i];
        if ka != kb {
            assert(call_ids(calls)[ka] != call_ids(calls)[kb]);
        }
    }
}

/// The listing of recent calls is determined by the calls on record and by
/// the limit: two listings that both meet `lists_recent` are the same.
pub proof fn lemma_recent_listing_is_unique(
    a: Seq<CallView>,
    b: Seq<CallView>,
    calls: Seq<CallView>,
    limit: int,
)
    requires
        calls_consistent(calls),
        lists_recent(a, calls, limit),
        lists_recent(b, calls, limit),
    ensures
        a == b,
{
    lemma_recent_listings_agree(a, b, calls, limit, a.len() as int);
    assert(a =~= b);
}

/// The key by which the call kept at place `slot` is listed among recent
/// calls.
pub open spec fn recency_key(call: CallView, slot: int) -> ListingKey {
    ListingKey { rank: (-1 - call.created_at.micros) as i64, id: call.id, slot: slot as usize }
}

/// A call that has just come in is well formed.
pub proof fn lemma_new_call_well_formed(
    id: u128,
    user_id: u128,
    caller_number: Seq<char>,
    caller_name: Option<Seq<char>>,
    now: Timestamp,
)
    requires
        caller_number.len() > 0,
    ensures
        ringing_call(id, user_id, caller_number, caller_name, now).well_formed(),
{
}

/// A transition that is not refused leaves a well-formed call well formed:
/// the call has an end afterwards exactly if its new status is terminal.
pub proof fn lemma_transition_keeps_well_formed(call: CallView, target: CallStatus, now: Timestamp)
    requires
        call.well_formed(),
        call.transition_refusal(target, now) is None,
    ensures
        call.transitioned(target, now).well_formed(),
        call.transitioned(target, now).status == target,
        call.transitioned(target, now).id == call.id,
{
}

/// Screening leaves a well-formed call well formed, and in its status:
/// whatever spam score is supplied, the one that is kept lies between 0.0 and
/// 1.0.
pub proof fn lemma_screening_keeps_well_formed(
    call: CallView,
    transcription: Option<Seq<char>>,
    intent: Option<Seq<char>>,
    spam_score: Option<Score>,
    now: Timestamp,
)
    requires
        call.well_formed(),
        spam_score matches Some(score) ==> !score.is_nan(),
    ensures
        call.screened(transcription, intent, spam_score, now).well_formed(),
        call.screened(transcription, intent, spam_score, now).status == call.status,
        call.screened(transcription, intent, spam_score, now).id == call.id,
        spam_score matches Some(score) ==> call.screened(
            transcription,
            intent,
            spam_score,
            now,
        ).spam_score == Some(score.clamped()) && score.clamped().in_unit_interval(),
{
}

/// A well-formed call has an end exactly when its status is one of
/// `Completed`, `Missed`, `Blocked` and `Failed`.
pub proof fn lemma_ended_iff_terminal(call: CallView)
    requires
        call.well_formed(),
    ensures
        call.ended_at is Some <==> (call.status == CallStatus::Completed || call.status
            == CallStatus::Missed || call.status == CallStatus::Blocked || call.status
            == CallStatus::Failed),
{
}

/// A well-formed call that has an end has a duration: the whole seconds
/// from its start to its end, which are not negative.
pub proof fn lemma_duration_is_span(call: CallView)
    requires
        call.well_formed(),
        call.ended_at is Some,
    ensures
        call.duration_seconds is Some,
        call.duration_seconds->0 == (call.ended_at->0.micros - call.started_at.micros)
            / 1_000_000,
        call.duration_seconds->0 >= 0,
{
}

/// A transition changes the call it is asked for and no other, and keeps
/// every identifier in its place; the calls on record stay consistent.
pub proof fn lemma_transition_keeps_consistent(
    calls: Seq<CallView>,
    id: u128,
    target: CallStatus,
    now: Timestamp,
)
    requires
        calls_consistent(calls),
    ensures
        calls_consistent(after_transition(calls, id, target, now)),
        call_ids(after_transition(calls, id, target, now)) == call_ids(calls),
        transition_result(calls, id, target, now) matches Ok(call) ==> find_call(
            after_transition(calls, id, target, now),
            id,
        ) == Some(call),
{
    let after = after_transition(calls, id, target, now);
    if let Ok(call) = transition_result(calls, id, target, now) {
        let i = call_index(calls, id);
        assert(call_ids(calls)[i] == id);
        lemma_transition_keeps_well_formed(calls[i], target, now);
        assert(call_ids(after) =~= call_ids(calls));
        lemma_call_found_at(after, i);
    }
}

/// Screening changes the call it is asked for and no other, and keeps every
/// identifier in its place; the calls on record stay consistent.
pub proof fn lemma_screening_keeps_consistent(
    calls: Seq<CallView>,
    id: u128,
    transcription: Option<Seq<char>>,
    intent: Option<Seq<char>>,
    spam_score: Option<Score>,
    now: Timestamp,
)
    requires
        calls_consistent(calls),
    ensures
        calls_consistent(after_screening(calls, id, transcription, intent, spam_score, now)),
        call_ids(after_screening(calls, id, transcription, intent, spam_score, now)) == call_ids(
            calls,
        ),
        screening_result(calls, id, transcription, intent, spam_score, now) matches Ok(call)
            ==> find_call(
            after_screening(calls, id, transcription, intent, spam_score, now),
            id,
        ) == Some(call),
{
    let after = after_screening(calls, id, transcription, intent, spam_score, now);
    if let Ok(call) = screening_result(calls, id, transcription, intent, spam_score, now) {
        let i = call_index(calls, id);
        assert(call_ids(calls)[i] == id);
        lemma_screening_keeps_well_formed(calls[i], transcription, intent, spam_score, now);
        assert(call_ids(after) =~= call_ids(calls));
        lemma_call_found_at(after, i);
    }
}

/// Making a call keeps every call that was on record, as it was, and the
/// new call is found under its identifier; the calls on record stay
/// consistent.
pub proof fn lemma_create_keeps_consistent(
    calls: Seq<CallView>,
    id: u128,
    user_id: u128,
    caller_number: Seq<char>,
    caller_name: Option<Seq<char>>,
    now: Timestamp,
)
    requires
        calls_consistent(calls),
    ensures
        calls_consistent(after_create(calls, id, user_id, caller_number, caller_name, now)),
        forall|other: u128|
            has_call(calls, other) ==> #[trigger] has_call(
                after_create(calls, id, user_id, caller_number, caller_name, now),
                other,
            ),
        create_result(calls, id, user_id, caller_number, caller_name, now) matches Ok(call)
            ==> find_call(
            after_create(calls, id, user_id, caller_number, caller_name, now),
            id,
        ) == Some(call),
{
    let after = after_create(calls, id, user_id, caller_number, caller_name, now);
    if let Ok(call) = create_result(calls, id, user_id, caller_number, caller_name, now) {
        assert(call_ids(after) =~= call_ids(calls).push(id));
        lemma_call_found_at(after, calls.len() as int);
        assert forall|other: u128| has_call(calls, other) implies #[trigger] has_call(
            after,
            other,
        ) by {
            let i = call_ids(calls).index_of(other);
            assert(call_ids(after)[i] == other);
        }
    }
}

/// A call in a terminal status never changes again: whatever status a
/// transition asks for, and whenever, it is refused with `InvalidTransition`
/// and the calls on record stay exactly as they were.
pub proof fn lemma_terminal_call_never_changes(
    calls: Seq<CallView>,
    id: u128,
    target: CallStatus,
    now: Timestamp,
)
    requires
        find_call(calls, id) matches Some(call) && call.status.terminal(),
    ensures
        transition_result(calls, id, target, now) == Err::<CallView, ScreeningError>(
            ScreeningError::InvalidTransition,
        ),
        after_transition(calls, id, target, now) == calls,
{
}

/// A transition and a report of screening on the same call may come in
/// either order: both are then carried out, and the record holds the new
/// status and what screening found. Where the new status is not terminal,
/// the two orders end in the very same records.
pub proof fn lemma_transition_and_screening_commute(
    calls: Seq<CallView>,
    id: u128,
    target: CallStatus,
    transcription: Option<Seq<char>>,
    intent: Option<Seq<char>>,
    spam_score: Option<Score>,
    first: Timestamp,
    second: Timestamp,
)
    requires
        calls_consistent(calls),
        find_call(calls, id) matches Some(call) && call.transition_refusal(target, first) is None
            && call.transition_refusal(target, second) is None,
        spam_score matches Some(score) ==> !score.is_nan(),
    ensures
        ({
            let moved_first = after_screening(
                after_transition(calls, id, target, first),
                id,
                transcription,
                intent,
                spam_score,
                second,
            );
            let screened_first = after_transition(
                after_screening(calls, id, transcription, intent, spam_score, first),
                id,
                target,
                second,
            );
            &&& find_call(moved_first, id) matches Some(a) && find_call(
                screened_first,
                id,
            ) matches Some(b) && {
                &&& a.status == target && b.status == target
                &&& transcription is Some ==> a.transcription == transcription && b.transcription
                    == transcription
                &&& intent is Some ==> a.intent == intent && b.intent == intent
                &&& spam_score matches Some(score) ==> a.spam_score == Some(score.clamped())
                    && b.spam_score == Some(score.clamped())
            }
            &&& !target.terminal() ==> moved_first == screened_first
        }),
{
    let i = call_index(calls, id);
    let call = calls[i];
    assert(call_ids(calls)[i] == id);
    let moved = after_transition(calls, id, target, first);
    lemma_transition_keeps_consistent(calls, id, target, first);
    assert(moved == calls.update(i, call.transitioned(target, first)));
    lemma_call_found_at(moved, i);
    let moved_first = after_screening(moved, id, transcription, intent, spam_score, second);
    lemma_screening_keeps_consistent(moved, id, transcription, intent, spam_score, second);
    let screened = after_screening(calls, id, transcription, intent, spam_score, first);
    lemma_screening_keeps_consistent(calls, id, transcription, intent, spam_score, first);
    assert(screened == calls.update(i, call.screened(transcription, intent, spam_score, first)));
    lemma_call_found_at(screened, i);
    let screened_first = after_transition(screened, id, target, second);
    lemma_transition_keeps_consistent(screened, id, target, second);
    if !target.terminal() {
        assert(moved_first =~= screened_first);
    }
}

/// Whether an answer is the one that was expected.
pub open spec fn answers(given: Result<Call, ScreeningError>, expected: Result<
    CallView,
    ScreeningError,
>) -> bool {
    match given {
        Ok(call) => expected == Ok::<CallView, ScreeningError>(call@),
        Err(error) => expected == Err::<CallView, ScreeningError>(error),
    }
}

/// The calls on record, and the authority on their status.
pub struct CallLifecycle {
    calls: Vec<Call>,
}

impl View for CallLifecycle {
    type V = Seq<CallView>;

    /// The calls on record, in the order in which they were made.
    closed spec fn view(&self) -> Seq<CallView> {
        call_views(self.calls@)
    }
}

impl CallLifecycle {
    /// What holds of the calls on record at every moment.
    pub open spec fn inv(&self) -> bool {
        calls_consistent(self@)
    }

    /// A lifecycle with no call on record.
    pub fn new() -> (r: CallLifecycle)
        ensures
            r@ == Seq::<CallView>::empty(),
            r.inv(),
    {
        let r = CallLifecycle { calls: Vec::new() };
        assert(r@ =~= Seq::<CallView>::empty());
        r
    }

    /// How many calls are on record.
    pub fn len(&self) -> (r: usize)
        ensures
            r == self@.len(),
    {
        self.calls.len()
    }

    fn position(&self, id: u128) -> (r: Option<usize>)
        requires
            self.inv(),
        ensures
            match r {
                Some(i) => has_call(self@, id) && i == call_index(self@, id) && i
                    < self.calls.len(),
                None => !has_call(self@, id),
            },
    {
        let mut i: usize = 0;
        while i < self.calls.len()
            invariant
                self.inv(),
                i <= self.calls.len(),
                forall|j: int| 0 <= j < i ==> (#[trigger] call_ids(self@)[j]) != id,
            decreases self.calls.len() - i,
        {
            if self.calls[i].id == id {
                proof {
                    lemma_call_found_at(self@, i as int);
                }
                return Some(i);
            }
            i += 1;
        }
        None
    }

    /// Whether a call with the identifier `id` is on record.
    pub fn contains(&self, id: u128) -> (r: bool)
        requires
            self.inv(),
        ensures
            r == has_call(self@, id),
    {
        self.position(id).is_some()
    }

    /// Puts a new call on record, in status `Ringing`, begun at `now`.
    ///
    /// Refuses with `Validation` if the caller's number is empty, and with
    /// `Conflict` if a call with the identifier `id` is already on record.
    pub fn create_at(
        &mut self,
        id: u128,
        user_id: u128,
        caller_number: String,
        caller_name: Option<String>,
        now: Timestamp,
    ) -> (r: Result<Call, ScreeningError>)
        requires
            old(self).inv(),
        ensures
            final(self).inv(),
            answers(
                r,
                create_result(
                    old(self)@,
                    id,
                    user_id,
                    caller_number@,
                    caller_name.deep_view(),
                    now,
                ),
            ),
            final(self)@ == after_create(
                old(self)@,
                id,
                user_id,
                caller_number@,
                caller_name.deep_view(),
                now,
            ),
    {
        if caller_number.as_str().is_empty() {
            return Err(ScreeningError::Validation);
        }
        if self.position(id).is_some() {
            return Err(ScreeningError::Conflict);
        }
        let call = Call {
            id,
            user_id,
            caller_number,
            caller_name,
            status: CallStatus::Ringing,
            started_at: now,
            ended_at: None,
            duration_seconds: None,
            transcription: None,
            spam_score: None,
            intent: None,
            created_at: now,
            updated_at: now,
        };
        let answer = call.clone();
        self.calls.push(call);
        proof {
            assert(self@ =~= old(self)@.push(answer@));
            assert(call_ids(self@) =~= call_ids(old(self)@).push(id));
        }
        Ok(answer)
    }

    /// The call with the identifier `id`.
    ///
    /// Refuses with `NotFound` if no such call is on record.
    pub fn get(&self, id: u128) -> (r: Result<Call, ScreeningError>)
        requires
            self.inv(),
        ensures
            match r {
                Ok(call) => find_call(self@, id) == Some(call@) && call@.well_formed(),
                Err(error) => find_call(self@, id) is None && error == ScreeningError::NotFound,
            },
    {
        match self.position(id) {
            Some(i) => Ok(self.calls[i].clone()),
            None => Err(ScreeningError::NotFound),
        }
    }

    /// Moves the call with the identifier `id` to the status `target` at the
    /// time `now`.
    ///
    /// Refuses with `NotFound` if no such call is on record, with
    /// `InvalidTransition` if the call is in a terminal status, and with
    /// `Validation` if `target` is terminal and `now` lies before the call's
    /// start. A refusal changes nothing.
    pub fn transition_at(&mut self, id: u128, target: CallStatus, now: Timestamp) -> (r: Result<
        Call,
        ScreeningError,
    >)
        requires
            old(self).inv(),
        ensures
            final(self).inv(),
            answers(r, transition_result(old(self)@, id, target, now)),
            final(self)@ == after_transition(old(self)@, id, target, now),
    {
        let i = match self.position(id) {
            Some(i) => i,
            None => {
                return Err(ScreeningError::NotFound);
            },
        };
        let current = self.calls[i].clone();
        if current.status.is_terminal() {
            return Err(ScreeningError::InvalidTransition);
        }
        let mut changed = current;
        if target.is_terminal() {
            if now.is_before(&changed.started_at) {
                return Err(ScreeningError::Validation);
            }
            changed.ended_at = Some(now);
            changed.duration_seconds = Some(changed.started_at.seconds_until(&now));
        }
        changed.status = target;
        changed.updated_at = now;
        let answer = changed.clone();
        self.calls[i] = changed;
        proof {
            assert(self@ =~= old(self)@.update(i as int, answer@));
            assert(call_ids(self@) =~= call_ids(old(self)@));
        }
        Ok(answer)
    }

    /// Writes what screening has found into the call with the identifier
    /// `id`, at the time `now`. Each field that is supplied replaces what was
    /// there, the spam score after it has been brought into the interval from
    /// 0.0 to 1.0; the status stays as it is.
    ///
    /// Refuses with `NotFound` if no such call is on record, and with
    /// `Validation` if the spam score is not a number. A refusal changes
    /// nothing.
    pub fn record_screening_fields_at(
        &mut self,
        id: u128,
        transcription: Option<String>,
        intent: Option<String>,
        spam_score: Option<Score>,
        now: Timestamp,
    ) -> (r: Result<Call, ScreeningError>)
        requires
            old(self).inv(),
        ensures
            final(self).inv(),
            answers(
                r,
                screening_result(
                    old(self)@,
                    id,
                    transcription.deep_view(),
                    intent.deep_view(),
                    spam_score,
                    now,
                ),
            ),
            final(self)@ == after_screening(
                old(self)@,
                id,
                transcription.deep_view(),
                intent.deep_view(),
                spam_score,
                now,
            ),
    {
        let i = match self.position(id) {
            Some(i) => i,
            None => {
                return Err(ScreeningError::NotFound);
            },
        };
        let mut changed = self.calls[i].clone();
        match spam_score {
            Some(score) => {
                if score.is_not_a_number() {
                    return Err(ScreeningError::Validation);
                }
                changed.spam_score = Some(score.clamp_unit());
            },
            None => {},
        }
        if transcription.is_some() {
            changed.transcription = transcription;
        }
        if intent.is_some() {
            changed.intent = intent;
        }
        changed.updated_at = now;
        let answer = changed.clone();
        self.calls[i] = changed;
        proof {
            assert(self@ =~= old(self)@.update(i as int, answer@));
            assert(call_ids(self@) =~= call_ids(old(self)@));
        }
        Ok(answer)
    }

    /// The most recent calls, the most recent first, as many as there are but
    /// no more than `limit`. Of two calls made at the same time the one with
    /// the smaller identifier comes first.
    pub fn list_recent(&self, limit: usize) -> (r: Vec<Call>)
        requires
            self.inv(),
        ensures
            lists_recent(call_views(r@), self@, limit as int),
    {
        let mut keys: Vec<ListingKey> = Vec::new();
        let mut i: usize = 0;
        while i < self.calls.len()
            invariant
                i <= self.calls.len(),
                keys.len() == i,
                forall|j: int| 0 <= j < i ==> #[trigger] keys@[j] == recency_key(self@[j], j),
            decreases self.calls.len() - i,
        {
            let call = &self.calls[i];
            keys.push(ListingKey { rank: -1i64 - call.created_at.micros, id: call.id, slot: i });
            i += 1;
        }
        proof {
            assert forall|a: int, b: int| 0 <= a < b < keys@.len() implies (#[trigger] keys@[a]).id
                != (#[trigger] keys@[b]).id by {
                assert(call_ids(self@)[a] != call_ids(self@)[b]);
            }
        }
        let order = select_first(&keys, Some(limit));
        let mut listed: Vec<Call> = Vec::new();
        let mut q: usize = 0;
        while q < order.len()
            invariant
                q <= order.len(),
                listed.len() == q,
                keys.len() == self.calls.len(),
                lists(order@, keys@, limit as int),
                forall|j: int|
                    0 <= j < keys.len() ==> #[trigger] keys@[j] == recency_key(self@[j], j),
                forall|t: int|
                    0 <= t < q ==> {
                        &&& 0 <= (#[trigger] order@[t]).slot < self@.len()
                        &&& keys@[order@[t].slot as int] == order@[t]
                        &&& call_views(listed@)[t] == self@[order@[t].slot as int]
                    },
            decreases order.len() - q,
        {
            let key = order[q];
            proof {
                assert(among(order@[q as int], keys@, keys@.len() as int));
                let j = choose|j: int|
                    0 <= j < keys@.len() && #[trigger] keys@[j] == order@[q as int];
                assert(keys@[j] == recency_key(self@[j], j));
            }
            let ghost before = listed@;
            listed.push(self.calls[key.slot].clone());
            proof {
                assert forall|t: int| 0 <= t < q + 1 implies call_views(listed@)[t]
                    == self@[(#[trigger] order@[t]).slot as int] by {
                    if t < q {
                        assert(call_views(before)[t] == self@[order@[t].slot as int]);
                        assert(listed@[t] == before[t]);
                    }
                }
            }
            q += 1;
        }
        proof {
            let views = call_views(listed@);
            let calls = self@;
            assert forall|a: int, b: int| 0 <= a < b < views.len() implies more_recent(
                #[trigger] views[a],
                #[trigger] views[b],
            ) by {
                assert(order@[a].before(order@[b]));
            }
            assert forall|a: int| 0 <= a < views.len() implies calls.contains(
                #[trigger] views[a],
            ) by {
                assert(calls[order@[a].slot as int] == views[a]);
            }
            assert forall|k: int| 0 <= k < calls.len() implies views.contains(#[trigger] calls[k])
                || (views.len() == limit && all_more_recent(views, calls[k])) by {
                assert(keys@[k] == recency_key(calls[k], k));
                if order@.contains(keys@[k]) {
                    let t = choose|t: int| 0 <= t < order@.len() && order@[t] == keys@[k];
                    assert(order@[t].slot == k);
                    assert(views[t] == calls[k]);
                } else {
                    assert(all_before(order@, keys@[k]));
                    assert forall|a: int| 0 <= a < views.len() implies more_recent(
                        #[trigger] views[a],
                        calls[k],
                    ) by {
                        assert(order@[a].before(keys@[k]));
                    }
                }
            }
        }
        listed
    }

    /// Takes over call records that were kept elsewhere.
    ///
    /// Refuses with `Validation` unless every record is well formed and no
    /// identifier occurs twice.
    pub fn restore(calls: Vec<Call>) -> (r: Result<CallLifecycle, ScreeningError>)
        ensures
            match r {
                Ok(lifecycle) => lifecycle.inv() && lifecycle@ == call_views(calls@),
                Err(error) => error == ScreeningError::Validation && !calls_consistent(
                    call_views(calls@),
                ),
            },
    {
        let ghost views = call_views(calls@);
        let mut i: usize = 0;
        while i < calls.len()
            invariant
                i <= calls.len(),
                views == call_views(calls@),
                forall|a: int| 0 <= a < i ==> (#[trigger] views[a]).well_formed(),
                forall|a: int, b: int|
                    0 <= a < b < i ==> (#[trigger] call_ids(views)[a]) != (#[trigger] call_ids(
                        views,
                    )[b]),
            decreases calls.len() - i,
        {
            if !calls[i].is_well_formed() {
                assert(!views[i as int].well_formed());
                return Err(ScreeningError::Validation);
            }
            let mut j: usize = 0;
            while j < i
                invariant
                    j <= i < calls.len(),
                    views == call_views(calls@),
                    forall|a: int|
                        0 <= a < j ==> (#[trigger] call_ids(views)[a]) != call_ids(views)[i as int],
                decreases i - j,
            {
                if calls[j].id == calls[i].id {
                    assert(call_ids(views)[j as int] == call_ids(views)[i as int]);
                    return Err(ScreeningError::Validation);
                }
                j += 1;
            }
            i += 1;
        }
        Ok(CallLifecycle { calls })
    }

    /// Puts a new call on record, in status `Ringing`, under a new identifier
    /// and begun at the time that the clock shows.
    ///
    /// Refuses with `Validation` if the caller's number is empty. The answer
    /// is the one that `create_at` gives for the identifier that was drawn
    /// and the time that was read.
    pub fn create(
        &mut self,
        user_id: u128,
        caller_number: String,
        caller_name: Option<String>,
    ) -> (r: Result<Call, ScreeningError>)
        requires
            old(self).inv(),
        ensures
            final(self).inv(),
            exists|id: u128, now: Timestamp|
                {
                    &&& answers(
                        r,
                        #[trigger] create_result(
                            old(self)@,
                            id,
                            user_id,
                            caller_number@,
                            caller_name.deep_view(),
                            now,
                        ),
                    )
                    &&& final(self)@ == after_create(
                        old(self)@,
                        id,
                        user_id,
                        caller_number@,
                        caller_name.deep_view(),
                        now,
                    )
                },
            caller_number@.len() == 0 ==> r == Err::<Call, ScreeningError>(
                ScreeningError::Validation,
            ),
    {
        let id = draw_id();
        let now = clock_now();
        self.create_at(id, user_id, caller_number, caller_name, now)
    }

    /// Moves the call with the identifier `id` to the status `target`, at
    /// the time that the clock shows.
    ///
    /// The answer is the one that `transition_at` gives for the time that
    /// was read.
    pub fn transition(&mut self, id: u128, target: CallStatus) -> (r: Result<Call, ScreeningError>)
        requires
            old(self).inv(),
        ensures
            final(self).inv(),
            exists|now: Timestamp|
                {
                    &&& answers(r, #[trigger] transition_result(old(self)@, id, target, now))
                    &&& final(self)@ == after_transition(old(self)@, id, target, now)
                },
    {
        let now = clock_now();
        self.transition_at(id, target, now)
    }

    /// Writes what screening has found into the call with the identifier
    /// `id`, at the time that the clock shows.
    ///
    /// The answer is the one that `record_screening_fields_at` gives for the
    /// time that was read.
    pub fn record_screening_fields(
        &mut self,
        id: u128,
        transcription: Option<String>,
        intent: Option<String>,
        spam_score: Option<Score>,
    ) -> (r: Result<Call, ScreeningError>)
        requires
            old(self).inv(),
        ensures
            final(self).inv(),
            exists|now: Timestamp|
                {
                    &&& answers(
                        r,
                        #[trigger] screening_result(
                            old(self)@,
                            id,
                            transcription.deep_view(),
                            intent.deep_view(),
                            spam_score,
                            now,
                        ),
                    )
                    &&& final(self)@ == after_screening(
                        old(self)@,
                        id,
                        transcription.deep_view(),
                        intent.deep_view(),
                        spam_score,
                        now,
                    )
                },
    {
        let now = clock_now();
        self.record_screening_fields_at(id, transcription, intent, spam_score, now)
    }
}

} // verus!
