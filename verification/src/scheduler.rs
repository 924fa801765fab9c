//! The callback scheduler: it makes the callbacks, keeps them and brings
//! each to its end. A callback goes its own way once it is made: what later
//! happens to the call it came from does not touch it.

use crate::error::ScreeningError;
use crate::identity::draw_id;
use crate::lifecycle::{find_call, CallLifecycle};
use crate::listing::{among, lists, select_first, ListingKey};
use crate::models::call::{Call, CallView, Callback, CallbackStatus, CallbackView};
use crate::timestamp::{clock_now, Timestamp};
use vstd::prelude::*;

verus! {

/// The record of a callback that has just been scheduled for `call`.
pub open spec fn scheduled_callback(
    id: u128,
    call: CallView,
    scheduled_time: Timestamp,
    notes: Option<Seq<char>>,
    now: Timestamp,
) -> CallbackView {
    CallbackView {
        id,
        call_id: call.id,
        user_id: call.user_id,
        caller_number: call.caller_number,
        scheduled_time,
        status: CallbackStatus::Scheduled,
        notes,
        created_at: now,
        updated_at: now,
    }
}

impl CallbackView {
    /// The callback after it has come to the end `outcome` at the time `now`.
    pub open spec fn closed_as(self, outcome: CallbackStatus, now: Timestamp) -> CallbackView {
        CallbackView { status: outcome, updated_at: now, ..self }
    }
}

/// What a sequence of callback records is, as a mathematical value.
pub open spec fn callback_views(callbacks: Seq<Callback>) -> Seq<CallbackView> {
    callbacks.map_values(|callback: Callback| callback@)
}

/// The identifiers of the callbacks in `callbacks`, in the same order.
pub open spec fn callback_ids(callbacks: Seq<CallbackView>) -> Seq<u128> {
    callbacks.map_values(|callback: CallbackView| callback.id)
}

/// Whether `callbacks` holds a callback with the identifier `id`.
pub open spec fn has_callback(callbacks: Seq<CallbackView>, id: u128) -> bool {
    callback_ids(callbacks).contains(id)
}

/// The place in `callbacks` of the callback with the identifier `id`.
pub open spec fn callback_index(callbacks: Seq<CallbackView>, id: u128) -> int
    recommends
        has_callback(callbacks, id),
{
    callback_ids(callbacks).index_of(id)
}

/// The callback in `callbacks` with the identifier `id`, if there is one.
pub open spec fn find_callback(callbacks: Seq<CallbackView>, id: u128) -> Option<CallbackView> {
    if has_callback(callbacks, id) {
        Some(callbacks[callback_index(callbacks, id)])
    } else {
        None
    }
}

/// What holds of the callbacks on record: no identifier occurs twice.
pub open spec fn callbacks_consistent(callbacks: Seq<CallbackView>) -> bool {
    callback_ids(callbacks).no_duplicates()
}

/// Where no identifier occurs twice, the callback at place `i` is the one
/// that its identifier finds.
pub proof fn lemma_callback_found_at(callbacks: Seq<CallbackView>, i: int)
    requires
        callbacks_consistent(callbacks),
        0 <= i < callbacks.len(),
    ensures
        has_callback(callbacks, callbacks[i].id),
        callback_index(callbacks, callbacks[i].id) == i,
        find_callback(callbacks, callbacks[i].id) == Some(callbacks[i]),
{
    let ids = callback_ids(callbacks);
    assert(ids[i] == callbacks[i].id);
    let j = ids.index_of(callbacks[i].id);
    assert(0 <= j < ids.len() && ids[j] == callbacks[i].id);
}

/// What `schedule` answers.
pub open spec fn schedule_result(
    callbacks: Seq<CallbackView>,
    calls: Seq<CallView>,
    id: u128,
    call_id: u128,
    scheduled_time: Timestamp,
    notes: Option<Seq<char>>,
    now: Timestamp,
) -> Result<CallbackView, ScreeningError> {
    match find_call(calls, call_id) {
        None => Err(ScreeningError::NotFound),
        Some(call) => if has_callback(callbacks, id) {
            Err(ScreeningError::Conflict)
        } else {
            Ok(scheduled_callback(id, call, scheduled_time, notes, now))
        },
    }
}

/// The callbacks on record after `schedule`.
pub open spec fn after_schedule(
    callbacks: Seq<CallbackView>,
    calls: Seq<CallView>,
    id: u128,
    call_id: u128,
    scheduled_time: Timestamp,
    notes: Option<Seq<char>>,
    now: Timestamp,
) -> Seq<CallbackView> {
    match schedule_result(callbacks, calls, id, call_id, scheduled_time, notes, now) {
        Ok(callback) => callbacks.push(callback),
        Err(_) => callbacks,
    }
}

/// What `complete` and `cancel` answer, `outcome` being the end that is
/// asked for.
pub open spec fn closing_result(
    callbacks: Seq<CallbackView>,
    id: u128,
    outcome: CallbackStatus,
    now: Timestamp,
) -> Result<CallbackView, ScreeningError> {
    match find_callback(callbacks, id) {
        None => Err(ScreeningError::NotFound),
        Some(callback) => if callback.status.terminal() {
            Err(ScreeningError::InvalidTransition)
        } else {
            Ok(callback.closed_as(outcome, now))
        },
    }
}

/// The callbacks on record after `complete` or `cancel`.
pub open spec fn after_closing(
    callbacks: Seq<CallbackView>,
    id: u128,
    outcome: CallbackStatus,
    now: Timestamp,
) -> Seq<CallbackView> {
    match closing_result(callbacks, id, outcome, now) {
        Ok(callback) => callbacks.update(callback_index(callbacks, id), callback),
        Err(_) => callbacks,
    }
}

/// A callback that is no longer scheduled never changes again: both ways of
/// closing it are refused with `InvalidTransition`, whenever they are tried,
/// and the callbacks on record stay exactly as they were.
pub proof fn lemma_closed_callback_never_changes(
    callbacks: Seq<CallbackView>,
    id: u128,
    outcome: CallbackStatus,
    now: Timestamp,
)
    requires
        find_callback(callbacks, id) matches Some(callback) && callback.status.terminal(),
    ensures
        closing_result(callbacks, id, outcome, now) == Err::<CallbackView, ScreeningError>(
            ScreeningError::InvalidTransition,
        ),
        after_closing(callbacks, id, outcome, now) == callbacks,
{
}

/// No callback is made for a call that is not on record: scheduling is
/// refused with `NotFound`, whatever else is asked, and the callbacks on
/// record stay exactly as they were.
pub proof fn lemma_no_callback_without_call(
    callbacks: Seq<CallbackView>,
    calls: Seq<CallView>,
    id: u128,
    call_id: u128,
    scheduled_time: Timestamp,
    notes: Option<Seq<char>>,
    now: Timestamp,
)
    requires
        find_call(calls, call_id) is None,
    ensures
        schedule_result(callbacks, calls, id, call_id, scheduled_time, notes, now) == Err::<
            CallbackView,
            ScreeningError,
        >(ScreeningError::NotFound),
        after_schedule(callbacks, calls, id, call_id, scheduled_time, notes, now) == callbacks,
{
}

/// Closing a scheduled callback leaves it closed for good, and never
/// scheduled again: what it was closed as is terminal.
pub proof fn lemma_closing_is_final(
    callbacks: Seq<CallbackView>,
    id: u128,
    outcome: CallbackStatus,
    now: Timestamp,
)
    requires
        callbacks_consistent(callbacks),
        outcome.terminal(),
        closing_result(callbacks, id, outcome, now) is Ok,
    ensures
        callbacks_consistent(after_closing(callbacks, id, outcome, now)),
        find_callback(after_closing(callbacks, id, outcome, now), id) matches Some(closed)
            && closed.status == outcome && closed.status.terminal(),
{
    let after = after_closing(callbacks, id, outcome, now);
    let i = callback_index(callbacks, id);
    assert(callback_ids(callbacks)[i] == id);
    assert(callback_ids(after) =~= callback_ids(callbacks));
    lemma_callback_found_at(after, i);
}

/// Whether an answer is the one that was expected.
pub open spec fn answers_callback(
    given: Result<Callback, ScreeningError>,
    expected: Result<CallbackView, ScreeningError>,
) -> bool {
    match given {
        Ok(callback) => expected == Ok::<CallbackView, ScreeningError>(callback@),
        Err(error) => expected == Err::<CallbackView, ScreeningError>(error),
    }
}

/// Whether `a` is listed before `b` among upcoming callbacks: the one that
/// is due sooner comes first, and of two due at the same time the one with
/// the smaller identifier.
pub open spec fn sooner(a: CallbackView, b: CallbackView) -> bool {
    a.scheduled_time.micros < b.scheduled_time.micros || (a.scheduled_time.micros
        == b.scheduled_time.micros && a.id < b.id)
}

/// Whether `listed` holds the callbacks of `callbacks` that are still
/// scheduled, each of them once and no others, the soonest first.
pub open spec fn lists_upcoming(listed: Seq<CallbackView>, callbacks: Seq<CallbackView>) -> bool {
    &&& forall|i: int, j: int|
        0 <= i < j < listed.len() ==> sooner(#[trigger] listed[i], #[trigger] listed[j])
    &&& forall|i: int|
        0 <= i < listed.len() ==> callbacks.contains(#[trigger] listed[i]) && listed[i].status
            == CallbackStatus::Scheduled
    &&& forall|k: int|
        0 <= k < callbacks.len() && (#[trigger] callbacks[k]).status == CallbackStatus::Scheduled
            ==> listed.contains(callbacks[k])
}

proof fn lemma_not_listed_sooner(
    a: Seq<CallbackView>,
    b: Seq<CallbackView>,
    callbacks: Seq<CallbackView>,
    i: int,
)
    requires
        lists_upcoming(a, callbacks),
        lists_upcoming(b, callbacks),
        0 <= i < a.len(),
        i < b.len(),
        forall|j: int| 0 <= j < i ==> a[j] == b[j],
    ensures
        !sooner(a[i], b[i]),
{
    if sooner(a[i], b[i]) {
        assert(callbacks.contains(a[i]));
        let k = choose|k: int| 0 <= k < callbacks.len() && callbacks[k] == a[i];
        assert(b.contains(callbacks[k]));
        let m = choose|m: int| 0 <= m < b.len() && b[m] == callbacks[k];
        if m < i {
            assert(sooner(a[m], a[i]));
        } else if m > i {
            assert(sooner(b[i], b[m]));
        }
    }
}

proof fn lemma_upcoming_listings_agree(
    a: Seq<CallbackView>,
    b: Seq<CallbackView>,
    callbacks: Seq<CallbackView>,
    upto: int,
)
    requires
        callbacks_consistent(callbacks),
        lists_upcoming(a, callbacks),
        lists_upcoming(b, callbacks),
        0 <= upto <= a.len(),
        upto <= b.len(),
    ensures
        forall|j: int| 0 <= j < upto ==> a[j] == b[j],
    decreases upto,
{
    if upto > 0 {
        let i = upto - 1;
        lemma_upcoming_listings_agree(a, b, callbacks, i);
        lemma_not_listed_sooner(a, b, callbacks, i);
        lemma_not_listed_sooner(b, a, callbacks, i);
        assert(callbacks.contains(a[i]));
        assert(callbacks.contains(b[i]));
        let ka = choose|k: int| 0 <= k < callbacks.len() && callbacks[k] == a[i];
        let kb = choose|k: int| 0 <= k < callbacks.len() && callbacks[k] == b[i];
        if ka != kb {
            assert(callback_ids(callbacks)[ka] != callback_ids(callbacks)[kb]);
        }
    }
}

proof fn lemma_upcoming_not_longer(
    a: Seq<CallbackView>,
    b: Seq<CallbackView>,
    callbacks: Seq<CallbackView>,
)
    requires
        callbacks_consistent(callbacks),
        lists_upcoming(a, callbacks),
        lists_upcoming(b, callbacks),
    ensures
        a.len() <= b.len(),
{
    if a.len() > b.len() {
        let n = b.len() as int;
        lemma_upcoming_listings_agree(a, b, callbacks, n);
        assert(callbacks.contains(a[n]));
        let k = choose|k: int| 0 <= k < callbacks.len() && callbacks[k] == a[n];
        assert(b.contains(callbacks[k]));
        let m = choose|m: int| 0 <= m < b.len() && b[m] == callbacks[k];
        assert(sooner(a[m], a[n]));
    }
}

/// The listing of upcoming callbacks is determined by the callbacks on
/// record: two listings that both meet `lists_upcoming` are the same.
pub proof fn lemma_upcoming_listing_is_unique(
    a: Seq<CallbackView>,
    b: Seq<CallbackView>,
    callbacks: Seq<CallbackView>,
)
    requires
        callbacks_consistent(callbacks),
        lists_upcoming(a, callbacks),
        lists_upcoming(b, callbacks),
    ensures
        a == b,
{
    lemma_upcoming_not_longer(a, b, callbacks);
    lemma_upcoming_not_longer(b, a, callbacks);
    lemma_upcoming_listings_agree(a, b, callbacks, a.len() as int);
    assert(a =~= b);
}

/// The key by which the callback kept at place `slot` is listed among
/// upcoming callbacks.
pub open spec fn due_key(callback: CallbackView, slot: int) -> ListingKey {
    ListingKey { rank: callback.scheduled_time.micros, id: callback.id, slot: slot as usize }
}

/// The callbacks on record.
pub struct CallbackScheduler {
    callbacks: Vec<Callback>,
}

impl View for CallbackScheduler {
    type V = Seq<CallbackView>;

    /// The callbacks on record, in the order in which they were made.
    closed spec fn view(&self) -> Seq<CallbackView> {
        callback_views(self.callbacks@)
    }
}

impl CallbackScheduler {
    /// What holds of the callbacks on record at every moment.
    pub open spec fn inv(&self) -> bool {
        callbacks_consistent(self@)
    }

    /// A scheduler with no callback on record.
    pub fn new() -> (r: CallbackScheduler)
        ensures
            r@ == Seq::<CallbackView>::empty(),
            r.inv(),
    {
        let r = CallbackScheduler { callbacks: Vec::new() };
        assert(r@ =~= Seq::<CallbackView>::empty());
        r
    }

    /// How many callbacks are on record.
    pub fn len(&self) -> (r: usize)
        ensures
            r == self@.len(),
    {
        self.callbacks.len()
    }

    fn position(&self, id: u128) -> (r: Option<usize>)
        requires
            self.inv(),
        ensures
            match r {
                Some(i) => has_callback(self@, id) && i == callback_index(self@, id) && i
                    < self.callbacks.len(),
                None => !has_callback(self@, id),
            },
    {
        let mut i: usize = 0;
        while i < self.callbacks.len()
            invariant
                self.inv(),
                i <= self.callbacks.len(),
                forall|j: int| 0 <= j < i ==> (#[trigger] callback_ids(self@)[j]) != id,
            decreases self.callbacks.len() - i,
        {
            if self.callbacks[i].id == id {
                proof {
                    lemma_callback_found_at(self@, i as int);
                }
                return Some(i);
            }
            i += 1;
        }
        None
    }

    /// Schedules a callback for the call with the identifier `call_id`, under
    /// the identifier `id`, at the time `now`. The callback takes the user
    /// and the caller's number from the call as they are at this moment.
    ///
    /// Refuses with `NotFound` if no such call is on record, and with
    /// `Conflict` if a callback with the identifier `id` is already on
    /// record. A refusal changes nothing.
    pub fn schedule_at(
        &mut self,
        calls: &CallLifecycle,
        id: u128,
        call_id: u128,
        scheduled_time: Timestamp,
        notes: Option<String>,
        now: Timestamp,
    ) -> (r: Result<Callback, ScreeningError>)
        requires
            old(self).inv(),
            calls.inv(),
        ensures
            final(self).inv(),
            answers_callback(
                r,
                schedule_result(
                    old(self)@,
                    calls@,
                    id,
                    call_id,
                    scheduled_time,
                    notes.deep_view(),
                    now,
                ),
            ),
            final(self)@ == after_schedule(
                old(self)@,
                calls@,
                id,
                call_id,
                scheduled_time,
                notes.deep_view(),
                now,
            ),
    {
        let call: Call = match calls.get(call_id) {
            Ok(call) => call,
            Err(_) => {
                return Err(ScreeningError::NotFound);
            },
        };
        if self.position(id).is_some() {
            return Err(ScreeningError::Conflict);
        }
        let callback = Callback {
            id,
            call_id: call.id,
            user_id: call.user_id,
            caller_number: call.caller_number,
            scheduled_time,
            status: CallbackStatus::Scheduled,
            notes,
            created_at: now,
            updated_at: now,
        };
        let answer = callback.clone();
        self.callbacks.push(callback);
        proof {
            assert(self@ =~= old(self)@.push(answer@));
            assert(callback_ids(self@) =~= callback_ids(old(self)@).push(id));
        }
        Ok(answer)
    }

    /// The callback with the identifier `id`.
    ///
    /// Refuses with `NotFound` if no such callback is on record.
    pub fn get(&self, id: u128) -> (r: Result<Callback, ScreeningError>)
        requires
            self.inv(),
        ensures
            match r {
                Ok(callback) => find_callback(self@, id) == Some(callback@),
                Err(error) => find_callback(self@, id) is None && error == ScreeningError::NotFound,
            },
    {
        match self.position(id) {
            Some(i) => Ok(self.callbacks[i].clone()),
            None => Err(ScreeningError::NotFound),
        }
    }

    fn close_at(&mut self, id: u128, outcome: CallbackStatus, now: Timestamp) -> (r: Result<
        Callback,
        ScreeningError,
    >)
        requires
            old(self).inv(),
        ensures
            final(self).inv(),
            answers_callback(r, closing_result(old(self)@, id, outcome, now)),
            final(self)@ == after_closing(old(self)@, id, outcome, now),
    {
        let i = match self.position(id) {
            Some(i) => i,
            None => {
                return Err(ScreeningError::NotFound);
            },
        };
        let mut changed = self.callbacks[i].clone();
        if changed.status.is_terminal() {
            return Err(ScreeningError::InvalidTransition);
        }
        changed.status = outcome;
        changed.updated_at = now;
        let answer = changed.clone();
        self.callbacks[i] = changed;
        proof {
            assert(self@ =~= old(self)@.update(i as int, answer@));
            assert(callback_ids(self@) =~= callback_ids(old(self)@));
        }
        Ok(answer)
    }

    /// Marks the callback with the identifier `id` as completed, at the time
    /// `now`.
    ///
    /// Refuses with `NotFound` if no such callback is on record, and with
    /// `InvalidTransition` if the callback is no longer scheduled. A refusal
    /// changes nothing.
    pub fn complete_at(&mut self, id: u128, now: Timestamp) -> (r: Result<Callback, ScreeningError>)
        requires
            old(self).inv(),
        ensures
            final(self).inv(),
            answers_callback(r, closing_result(old(self)@, id, CallbackStatus::Completed, now)),
            final(self)@ == after_closing(old(self)@, id, CallbackStatus::Completed, now),
    {
        self.close_at(id, CallbackStatus::Completed, now)
    }

    /// Marks the callback with the identifier `id` as cancelled, at the time
    /// `now`.
    ///
    /// Refuses with `NotFound` if no such callback is on record, and with
    /// `InvalidTransition` if the callback is no longer scheduled. A refusal
    /// changes nothing.
    pub fn cancel_at(&mut self, id: u128, now: Timestamp) -> (r: Result<Callback, ScreeningError>)
        requires
            old(self).inv(),
        ensures
            final(self).inv(),
            answers_callback(r, closing_result(old(self)@, id, CallbackStatus::Cancelled, now)),
            final(self)@ == after_closing(old(self)@, id, CallbackStatus::Cancelled, now),
    {
        self.close_at(id, CallbackStatus::Cancelled, now)
    }

    /// The callbacks that are still scheduled, the soonest first. Of two due
    /// at the same time the one with the smaller identifier comes first.
    pub fn list_upcoming(&self) -> (r: Vec<Callback>)
        requires
            self.inv(),
        ensures
            lists_upcoming(callback_views(r@), self@),
    {
        let mut keys: Vec<ListingKey> = Vec::new();
        let mut i: usize = 0;
        while i < self.callbacks.len()
            invariant
                i <= self.callbacks.len(),
                forall|t: int|
                    0 <= t < keys.len() ==> {
                        &&& 0 <= (#[trigger] keys@[t]).slot < i
                        &&& keys@[t] == due_key(self@[keys@[t].slot as int], keys@[t].slot as int)
                        &&& self@[keys@[t].slot as int].status == CallbackStatus::Scheduled
                    },
                forall|a: int, b: int|
                    0 <= a < b < keys.len() ==> (#[trigger] keys@[a]).slot < (
                    #[trigger] keys@[b]).slot,
                forall|j: int|
                    0 <= j < i && (#[trigger] self@[j]).status == CallbackStatus::Scheduled
                        ==> keys@.contains(due_key(self@[j], j)),
            decreases self.callbacks.len() - i,
        {
            let callback = &self.callbacks[i];
            if !callback.status.is_terminal() {
                let ghost before = keys@;
                let key = ListingKey {
                    rank: callback.scheduled_time.micros,
                    id: callback.id,
                    slot: i,
                };
                keys.push(key);
                proof {
                    assert(keys@[before.len() as int] == key);
                    assert forall|j: int|
                        0 <= j < i + 1 && (#[trigger] self@[j]).status
                            == CallbackStatus::Scheduled implies keys@.contains(
                        due_key(self@[j], j),
                    ) by {
                        if j < i {
                            assert(before.contains(due_key(self@[j], j)));
                            let t = choose|t: int|
                                0 <= t < before.len() && before[t] == due_key(self@[j], j);
                            assert(keys@[t] == due_key(self@[j], j));
                        }
                    }
                }
            }
            i += 1;
        }
        proof {
            assert forall|a: int, b: int| 0 <= a < b < keys@.len() implies (#[trigger] keys@[a]).id
                != (#[trigger] keys@[b]).id by {
                let sa = keys@[a].slot as int;
                let sb = keys@[b].slot as int;
                assert(callback_ids(self@)[sa] != callback_ids(self@)[sb]);
            }
        }
        let order = select_first(&keys, None);
        let mut listed: Vec<Callback> = Vec::new();
        let mut q: usize = 0;
        while q < order.len()
            invariant
                q <= order.len(),
                listed.len() == q,
                lists(order@, keys@, keys@.len() as int + 1),
                forall|t: int|
                    0 <= t < keys.len() ==> {
                        &&& 0 <= (#[trigger] keys@[t]).slot < self.callbacks.len()
                        &&& keys@[t] == due_key(self@[keys@[t].slot as int], keys@[t].slot as int)
                        &&& self@[keys@[t].slot as int].status == CallbackStatus::Scheduled
                    },
                forall|t: int|
                    0 <= t < q ==> {
                        &&& 0 <= (#[trigger] order@[t]).slot < self@.len()
                        &&& order@[t] == due_key(
                            self@[order@[t].slot as int],
                            order@[t].slot as int,
                        )
                        &&& self@[order@[t].slot as int].status == CallbackStatus::Scheduled
                        &&& callback_views(listed@)[t] == self@[order@[t].slot as int]
                    },
            decreases order.len() - q,
        {
            let key = order[q];
            proof {
                assert(among(order@[q as int], keys@, keys@.len() as int));
                let j = choose|j: int|
                    0 <= j < keys@.len() && #[trigger] keys@[j] == order@[q as int];
                assert(0 <= keys@[j].slot < self.callbacks.len());
            }
            let ghost before = listed@;
            listed.push(self.callbacks[key.slot].clone());
            proof {
                assert forall|t: int| 0 <= t < q + 1 implies callback_views(listed@)[t]
                    == self@[(#[trigger] order@[t]).slot as int] by {
                    if t < q {
                        assert(callback_views(before)[t] == self@[order@[t].slot as int]);
                        assert(listed@[t] == before[t]);
                    }
                }
            }
            q += 1;
        }
        proof {
            let views = callback_views(listed@);
            let callbacks = self@;
            assert forall|a: int, b: int| 0 <= a < b < views.len() implies sooner(
                #[trigger] views[a],
                #[trigger] views[b],
            ) by {
                assert(order@[a].before(order@[b]));
            }
            assert forall|a: int| 0 <= a < views.len() implies callbacks.contains(
                #[trigger] views[a],
            ) && views[a].status == CallbackStatus::Scheduled by {
                assert(callbacks[order@[a].slot as int] == views[a]);
            }
            assert forall|k: int|
                0 <= k < callbacks.len() && (#[trigger] callbacks[k]).status
                    == CallbackStatus::Scheduled implies views.contains(callbacks[k]) by {
                let key = due_key(callbacks[k], k);
                assert(keys@.contains(key));
                let j = choose|j: int| 0 <= j < keys@.len() && keys@[j] == key;
                assert(order@.contains(keys@[j]));
                let t = choose|t: int| 0 <= t < order@.len() && order@[t] == keys@[j];
                assert(order@[t].slot == k);
                assert(views[t] == callbacks[k]);
            }
        }
        listed
    }

    /// Takes over callback records that were kept elsewhere.
    ///
    /// Refuses with `Validation` if an identifier occurs twice.
    pub fn restore(callbacks: Vec<Callback>) -> (r: Result<CallbackScheduler, ScreeningError>)
        ensures
            match r {
                Ok(scheduler) => scheduler.inv() && scheduler@ == callback_views(callbacks@),
                Err(error) => error == ScreeningError::Validation && !callbacks_consistent(
                    callback_views(callbacks@),
                ),
            },
    {
        let ghost views = callback_views(callbacks@);
        let mut i: usize = 0;
        while i < callbacks.len()
            invariant
                i <= callbacks.len(),
                views == callback_views(callbacks@),
                forall|a: int, b: int|
                    0 <= a < b < i ==> (#[trigger] callback_ids(views)[a]) != (
                    #[trigger] callback_ids(views)[b]),
            decreases callbacks.len() - i,
        {
            let mut j: usize = 0;
            while j < i
                invariant
                    j <= i < callbacks.len(),
                    views == callback_views(callbacks@),
                    forall|a: int|
                        0 <= a < j ==> (#[trigger] callback_ids(views)[a]) != callback_ids(
                            views,
                        )[i as int],
                decreases i - j,
            {
                if callbacks[j].id == callbacks[i].id {
                    assert(callback_ids(views)[j as int] == callback_ids(views)[i as int]);
                    return Err(ScreeningError::Validation);
                }
                j += 1;
            }
            i += 1;
        }
        Ok(CallbackScheduler { callbacks })
    }

    /// Schedules a callback for the call with the identifier `call_id`, under
    /// a new identifier and at the time that the clock shows.
    ///
    /// Refuses with `NotFound` if no such call is on record. The answer is
    /// the one that `schedule_at` gives for the identifier that was drawn and
    /// the time that was read.
    pub fn schedule(
        &mut self,
        calls: &CallLifecycle,
        call_id: u128,
        scheduled_time: Timestamp,
        notes: Option<String>,
    ) -> (r: Result<Callback, ScreeningError>)
        requires
            old(self).inv(),
            calls.inv(),
        ensures
            final(self).inv(),
            exists|id: u128, now: Timestamp|
                {
                    &&& answers_callback(
                        r,
                        #[trigger] schedule_result(
                            old(self)@,
                            calls@,
                            id,
                            call_id,
                            scheduled_time,
                            notes.deep_view(),
                            now,
                        ),
                    )
                    &&& final(self)@ == after_schedule(
                        old(self)@,
                        calls@,
                        id,
                        call_id,
                        scheduled_time,
                        notes.deep_view(),
                        now,
                    )
                },
            find_call(calls@, call_id) is None ==> r == Err::<Callback, ScreeningError>(
                ScreeningError::NotFound,
            ) && final(self)@ == old(self)@,
    {
        let id = draw_id();
        let now = clock_now();
        self.schedule_at(calls, id, call_id, scheduled_time, notes, now)
    }

    /// Marks the callback with the identifier `id` as completed, at the time
    /// that the clock shows.
    ///
    /// The answer is the one that `complete_at` gives for the time that was
    /// read.
    pub fn complete(&mut self, id: u128) -> (r: Result<Callback, ScreeningError>)
        requires
            old(self).inv(),
        ensures
            final(self).inv(),
            exists|now: Timestamp|
                {
                    &&& answers_callback(
                        r,
                        #[trigger] closing_result(old(self)@, id, CallbackStatus::Completed, now),
                    )
                    &&& final(self)@ == after_closing(
                        old(self)@,
                        id,
                        CallbackStatus::Completed,
                        now,
                    )
                },
    {
        let now = clock_now();
        self.complete_at(id, now)
    }

    /// Marks the callback with the identifier `id` as cancelled, at the time
    /// that the clock shows.
    ///
    /// The answer is the one that `cancel_at` gives for the time that was
    /// read.
    pub fn cancel(&mut self, id: u128) -> (r: Result<Callback, ScreeningError>)
        requires
            old(self).inv(),
        ensures
            final(self).inv(),
            exists|now: Timestamp|
                {
                    &&& answers_callback(
                        r,
                        #[trigger] closing_result(old(self)@, id, CallbackStatus::Cancelled, now),
                    )
                    &&& final(self)@ == after_closing(
                        old(self)@,
                        id,
                        CallbackStatus::Cancelled,
                        now,
                    )
                },
    {
        let now = clock_now();
        self.cancel_at(id, now)
    }
}

} // verus!
