//! The supervisor's own persisted state: the bookkeeping done before each
//! save, and the wind-down record written at shutdown.
use vstd::prelude::*;
use crate::model::{error_views, AppError, AppState, ErrorKind};

verus! {

/// Relies on dusa_collection_utils' `current_timestamp`: the seconds since
/// the Unix epoch by the system clock (it panics on a clock set before 1970).
#[verifier::external_body]
fn clock_seconds() -> (r: u64) {
    dusa_collection_utils::core::functions::current_timestamp()
}

/// The current time, in seconds since the Unix epoch. Nothing is promised
/// of its value: it is whatever the clock reads.
pub fn now() -> (r: u64) {
    clock_seconds()
}

/// `s` and `t` agree on everything but the save bookkeeping, the data line
/// and the error log.
pub open spec fn same_identity(s: AppState, t: AppState) -> bool {
    &&& s.name == t.name
    &&& s.version == t.version
    &&& s.pid == t.pid
    &&& s.status == t.status
    &&& s.stdout@ == t.stdout@
    &&& s.stderr@ == t.stderr@
    &&& s.system_application == t.system_application
    &&& s.started_at == t.started_at
}

/// Stamps the state before it is saved: the time of the save, and one more
/// event (the counter saturates).
pub fn touch_state(state: &mut AppState, at: u64)
    ensures
        final(state).last_updated == at,
        final(state).event_counter == if old(state).event_counter == u64::MAX {
            u64::MAX
        } else {
            (old(state).event_counter + 1) as u64
        },
        final(state).data == old(state).data,
        final(state).error_log@ == old(state).error_log@,
        same_identity(*old(state), *final(state)),
{
    state.last_updated = at;
    state.event_counter = state.event_counter.saturating_add(1);
}

/// The error recorded when the supervisor winds down.
pub open spec fn wind_down_message() -> Seq<char> {
    "Wind down requested check logs"@
}

/// Records the supervisor's wind-down in its state: data becomes
/// "Terminated", a wind-down error is logged, and the state is stamped with
/// the clock.
pub fn wind_down_state(state: &mut AppState)
    ensures
        final(state).data@ == "Terminated"@,
        error_views(final(state).error_log@) == error_views(old(state).error_log@).push((ErrorKind::General, wind_down_message())),
        final(state).event_counter == if old(state).event_counter == u64::MAX {
            u64::MAX
        } else {
            (old(state).event_counter + 1) as u64
        },
        same_identity(*old(state), *final(state)),
{
    proof {
        reveal_strlit("Terminated");
        reveal_strlit("Wind down requested check logs");
    }
    state.data = "Terminated".to_owned();
    let ghost before = error_views(state.error_log@);
    state.error_log.push(AppError { kind: ErrorKind::General, message: "Wind down requested check logs".to_owned() });
    assert(error_views(state.error_log@) =~= before.push((ErrorKind::General, wind_down_message())));
    let at = now();
    touch_state(state, at);
}

/// Prepares the supervisor's state for a new run: it is initializing, was
/// started `at`, runs as `pid`, and starts with no events and no errors.
pub fn reset_own_state(state: &mut AppState, at: u64, pid: u32)
    ensures
        final(state).data@ == "Initializing"@,
        final(state).started_at == at,
        final(state).last_updated == at,
        final(state).pid == pid,
        final(state).event_counter == 0,
        final(state).error_log@.len() == 0,
        final(state).name == old(state).name,
        final(state).version == old(state).version,
        final(state).status == old(state).status,
        final(state).system_application == old(state).system_application,
{
    proof { reveal_strlit("Initializing"); }
    state.data = "Initializing".to_owned();
    state.started_at = at;
    state.last_updated = at;
    state.pid = pid;
    state.event_counter = 0;
    state.error_log.clear();
}

} // verus!
