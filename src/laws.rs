//! Properties that hold across the engine's operations.
use vstd::prelude::*;
use crate::classify::{classify, timed_out, Reading};
use crate::keyed::covered_by;
use crate::model::{AppState, AppStatus, Status};
use crate::keyed::Keyed;
use crate::reconcile::{adoption, import_result, imported, same_keys, Handler, Registry};

verus! {

/// A registry that keeps every name it had keeps every handler entry
/// covered: each handler entry still has its status.
pub proof fn lemma_growing_registry_keeps_handlers_covered(h: Handler, r0: Registry, r1: Registry)
    requires
        covered_by(h, r0),
        forall|k: Seq<char>| r0.has(k) ==> #[trigger] r1.has(k),
    ensures
        covered_by(h, r1),
{
    assert forall|i: int| 0 <= i < h.len_spec() implies r1.has(#[trigger] h.key_at(i)) by {
        assert(r0.has(h.key_at(i)));
    }
}

/// A handler map that only loses entries stays covered by the registry.
pub proof fn lemma_shrinking_handler_stays_covered(h0: Handler, h1: Handler, r: Registry)
    requires
        covered_by(h0, r),
        forall|k: Seq<char>| h1.has(k) ==> #[trigger] h0.has(k),
    ensures
        covered_by(h1, r),
{
    assert forall|i: int| 0 <= i < h1.len_spec() implies r.has(#[trigger] h1.key_at(i)) by {
        assert(h1.has(h1.key_at(i)));
        assert(h0.has(h1.key_at(i)));
        let j = choose|j: int| 0 <= j < h0.len_spec() && #[trigger] h0.key_at(j) == h1.key_at(i);
        assert(r.has(h0.key_at(j)));
    }
}

/// After its state file is imported, an application that is running has no
/// errors.
pub proof fn lemma_running_after_import_has_no_errors(a: AppStatus, fresh: AppState, live: bool, now: u64, b: AppStatus)
    requires
        imported(a, fresh, live, now, b),
    ensures
        b.status() == Status::Running ==> b.errors().len() == 0,
{
}

/// Classification never leaves an application running with errors.
pub proof fn lemma_classified_running_has_no_errors(r: Reading, last_updated: u64, live: Option<bool>, now: u64)
    ensures
        classify(r, last_updated, live, now).status == Status::Running ==> classify(r, last_updated, live, now).errors.len()
            == 0,
{
}

/// An application whose state file is stale and whose process is dead is
/// classified stopped, with no metrics and no uptime.
pub proof fn lemma_stale_and_dead_is_stopped(r: Reading, last_updated: u64, now: u64)
    requires
        timed_out(last_updated, now),
    ensures
        classify(r, last_updated, Some(false), now).status == Status::Stopped,
        classify(r, last_updated, Some(false), now).metrics is None,
        classify(r, last_updated, Some(false), now).uptime is None,
{
}

/// After its state file is imported, an application whose process is dead
/// is stopped, with no metrics and no uptime, stale or not.
pub proof fn lemma_dead_after_import_is_stopped(a: AppStatus, fresh: AppState, now: u64, b: AppStatus)
    requires
        imported(a, fresh, false, now, b),
    ensures
        b.status() == Status::Stopped,
        b.metrics is None,
        b.uptime is None,
{
}

/// Adoption is idempotent: adopting again for an application that was just
/// adopted changes neither the handler map nor the registry, so repeated
/// ticks never duplicate a handler entry.
pub proof fn lemma_adoption_idempotent(
    h0: Handler,
    r0: Registry,
    name: String,
    pid: u32,
    status: Status,
    h1: Handler,
    r1: Registry,
    pid2: u32,
    status2: Status,
    h2: Handler,
    r2: Registry,
)
    requires
        h0.wf(),
        adoption(h0, r0, name, pid, status, h1, r1),
        adoption(h1, r1, name, pid2, status2, h2, r2),
        r0.has(name@),
    ensures
        h1.has(name@),
        h2 == h1,
        r2 == r1,
        h2.wf(),
{
    if h0.has(name@) {
        assert(h1 == h0);
    } else {
        let n = h0.len_spec() as int;
        assert(h1.key_at(n) == name@);
    }
}

/// A registry that keeps its names keeps every handler entry covered.
pub proof fn lemma_same_names_keep_handlers_covered(h: Handler, r0: Registry, r1: Registry)
    requires
        covered_by(h, r0),
        same_keys(r0, r1),
    ensures
        covered_by(h, r1),
{
    assert forall|i: int| 0 <= i < h.len_spec() implies r1.has(#[trigger] h.key_at(i)) by {
        let j = choose|j: int| 0 <= j < r0.len_spec() && #[trigger] r0.key_at(j) == h.key_at(i);
        assert(r1.key_at(j) == r0.key_at(j));
    }
}

/// After an import phase, no imported application is running with errors,
/// and every imported application whose process is dead is stopped, with
/// no metrics and no uptime.
pub proof fn lemma_import_phase_classifies(r0: Registry, fresh: Keyed<AppState>, live: Seq<bool>, now: u64, r1: Registry, j: int)
    requires
        import_result(r0, fresh, live, now, r1),
        0 <= j < r0.len_spec(),
        fresh.has(r0.key_at(j)),
    ensures
        r1.value_at(j).status() == Status::Running ==> r1.value_at(j).errors().len() == 0,
        exists|i: int| 0 <= i < fresh.len_spec() && #[trigger] fresh.key_at(i) == r0.key_at(j) && (!live[i] ==> {
            &&& r1.value_at(j).status() == Status::Stopped
            &&& r1.value_at(j).metrics is None
            &&& r1.value_at(j).uptime is None
        }),
{
    let b = r1.value_at(j);
    let i = choose|i: int|
        0 <= i < fresh.len_spec() && #[trigger] fresh.key_at(i) == r0.key_at(j) && imported(r0.value_at(j), fresh.value_at(i), live[i], now, b);
    lemma_running_after_import_has_no_errors(r0.value_at(j), fresh.value_at(i), live[i], now, b);
    if !live[i] {
        lemma_dead_after_import_is_stopped(r0.value_at(j), fresh.value_at(i), now, b);
    }
}

} // verus!
