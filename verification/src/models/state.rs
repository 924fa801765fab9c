//! What the application keeps between requests.

use crate::error::ScreeningError;
use crate::lifecycle::{call_views, calls_consistent, has_call, CallLifecycle};
use crate::models::call::{Call, CallView, Callback, CallbackView};
use crate::scheduler::{callback_views, callbacks_consistent, CallbackScheduler};
use vstd::prelude::*;

verus! {

/// Whether every one of `callbacks` comes from a call among `calls`.
pub open spec fn callbacks_refer(callbacks: Seq<CallbackView>, calls: Seq<CallView>) -> bool {
    forall|i: int| 0 <= i < callbacks.len() ==> has_call(calls, (#[trigger] callbacks[i]).call_id)
}

/// The calls and the callbacks on record.
pub struct AppState {
    pub calls: CallLifecycle,
    pub callbacks: CallbackScheduler,
}

impl AppState {
    /// What holds of the records at every moment: the calls are consistent,
    /// and so are the callbacks. Every state that this library hands out is
    /// such a state, and none of its functions leaves one that is not.
    pub open spec fn inv(&self) -> bool {
        &&& self.calls.inv()
        &&& self.callbacks.inv()
    }

    /// Whether every callback on record comes from a call on record.
    pub open spec fn referential(&self) -> bool {
        callbacks_refer(self.callbacks@, self.calls@)
    }

    /// A state with nothing on record.
    pub fn new() -> (r: AppState)
        ensures
            r.inv(),
            r.referential(),
            r.calls@ == Seq::<CallView>::empty(),
            r.callbacks@ == Seq::<CallbackView>::empty(),
    {
        AppState { calls: CallLifecycle::new(), callbacks: CallbackScheduler::new() }
    }

    /// Takes over records that were kept elsewhere.
    ///
    /// Refuses with `Validation` unless the calls are consistent, the
    /// callbacks are, and every callback comes from one of the calls.
    pub fn restore(calls: Vec<Call>, callbacks: Vec<Callback>) -> (r: Result<
        AppState,
        ScreeningError,
    >)
        ensures
            match r {
                Ok(state) => state.inv() && state.referential() && state.calls@ == call_views(
                    calls@,
                ) && state.callbacks@ == callback_views(callbacks@),
                Err(error) => error == ScreeningError::Validation && !(calls_consistent(
                    call_views(calls@),
                ) && callbacks_consistent(callback_views(callbacks@)) && callbacks_refer(
                    callback_views(callbacks@),
                    call_views(calls@),
                )),
            },
    {
        let lifecycle = match CallLifecycle::restore(calls) {
            Ok(lifecycle) => lifecycle,
            Err(error) => {
                return Err(error);
            },
        };
        let ghost views = callback_views(callbacks@);
        let mut i: usize = 0;
        while i < callbacks.len()
            invariant
                i <= callbacks.len(),
                lifecycle.inv(),
                lifecycle@ == call_views(calls@),
                views == callback_views(callbacks@),
                forall|j: int| 0 <= j < i ==> has_call(lifecycle@, (#[trigger] views[j]).call_id),
            decreases callbacks.len() - i,
        {
            if !lifecycle.contains(callbacks[i].call_id) {
                assert(!has_call(lifecycle@, views[i as int].call_id));
                return Err(ScreeningError::Validation);
            }
            i += 1;
        }
        let scheduler = match CallbackScheduler::restore(callbacks) {
            Ok(scheduler) => scheduler,
            Err(error) => {
                return Err(error);
            },
        };
        Ok(AppState { calls: lifecycle, callbacks: scheduler })
    }
}

} // verus!
