//! The reconciler's phases over the status registry and the handler maps:
//! adopting live processes, reaping dead ones and importing state files.
use vstd::prelude::*;
use crate::classify::{calculate_uptime, classify, same_record, Reading};
use crate::keyed::{covered_by, Keyed};
use crate::model::{error_views, AppState, AppStatus, ApplicationConfig, Status};
use crate::text::{keep_first, keep_last, last_items};

verus! {

/// Items of the error log kept when a state file is imported.
pub const ERROR_LOG_KEEP: usize = 5;

/// Lines of standard output and error kept when a state file is imported.
pub const OUTPUT_LINES_KEEP: usize = 500;

/// A process under supervision: one adopted by its PID, or one this engine
/// spawned itself.
#[derive(Clone, Copy, Debug, PartialEq, Eq, Structural)]
pub enum SupervisedProcesses {
    Child { pid: u32 },
    Process { pid: u32 },
}

impl SupervisedProcesses {
    pub open spec fn pid_spec(&self) -> u32 {
        match *self {
            SupervisedProcesses::Child { pid } => pid,
            SupervisedProcesses::Process { pid } => pid,
        }
    }

    /// The PID of the supervised process.
    pub fn get_pid(&self) -> (r: u32)
        ensures
            r == self.pid_spec(),
    {
        match *self {
            SupervisedProcesses::Child { pid } => pid,
            SupervisedProcesses::Process { pid } => pid,
        }
    }
}

/// A handler map: the supervised process of each application.
pub type Handler = Keyed<SupervisedProcesses>;

/// The status registry.
pub type Registry = Keyed<AppStatus>;

/// The picture of an application just adopted under `pid`, with the status
/// its state file gives; an idle one carries no metrics.
pub open spec fn adopted_record(a: AppStatus, pid: u32, status: Status) -> AppStatus {
    AppStatus {
        app_data: ApplicationConfig {
            state: AppState { pid, status, ..a.app_data.state },
            ..a.app_data
        },
        metrics: if status == Status::Idle { None } else { a.metrics },
        ..a
    }
}

/// The picture of an application whose process was found dead.
pub open spec fn stopped_record(a: AppStatus, now: u64) -> AppStatus {
    AppStatus {
        app_data: ApplicationConfig {
            state: AppState { status: Status::Stopped, ..a.app_data.state },
            ..a.app_data
        },
        metrics: None,
        uptime: None,
        timestamp: now,
        ..a
    }
}

/// The registry keeps its names, in order.
pub open spec fn same_keys<V, W>(a: Keyed<V>, b: Keyed<W>) -> bool {
    &&& a.len_spec() == b.len_spec()
    &&& forall|j: int| 0 <= j < a.len_spec() ==> #[trigger] a.entries@[j].0 == b.entries@[j].0
}

proof fn lemma_same_keys_wf<V, W>(r1: Keyed<V>, r2: Keyed<W>)
    requires
        same_keys(r1, r2),
        r1.wf(),
    ensures
        r2.wf(),
{
    assert forall|i: int, j: int|
        0 <= i < r2.len_spec() && 0 <= j < r2.len_spec() && i != j
            implies #[trigger] r2.key_at(i) != #[trigger] r2.key_at(j) by {
        assert(r1.key_at(i) == r2.key_at(i));
        assert(r1.key_at(j) == r2.key_at(j));
    }
}

proof fn lemma_same_keys_preserve<W>(h: Handler, r1: Keyed<W>, r2: Keyed<W>)
    requires
        same_keys(r1, r2),
        r1.wf(),
        covered_by(h, r1),
    ensures
        r2.wf(),
        covered_by(h, r2),
{
    assert forall|i: int| 0 <= i < h.len_spec() implies r2.has(#[trigger] h.key_at(i)) by {
        let j = choose|j: int| 0 <= j < r1.len_spec() && #[trigger] r1.key_at(j) == h.key_at(i);
        assert(r2.key_at(j) == r1.key_at(j));
    }
    assert forall|i: int, j: int|
        0 <= i < r2.len_spec() && 0 <= j < r2.len_spec() && i != j
            implies #[trigger] r2.key_at(i) != #[trigger] r2.key_at(j) by {
        assert(r1.key_at(i) == r2.key_at(i));
        assert(r1.key_at(j) == r2.key_at(j));
    }
}

/// `h1` and `r1` are `h0` and `r0` after adopting `pid` for `name`, whose
/// state file reports `status`.
pub open spec fn adoption(
    h0: Handler,
    r0: Registry,
    name: String,
    pid: u32,
    status: Status,
    h1: Handler,
    r1: Registry,
) -> bool {
    &&& h1.wf()
    &&& r1.wf()
    &&& same_keys(r0, r1)
    &&& h0.has(name@) || !r0.has(name@) ==> h1 == h0 && r1 == r0
    &&& !h0.has(name@) && r0.has(name@) ==> {
        &&& h1.entries@ == h0.entries@.push((name, SupervisedProcesses::Process { pid }))
        &&& forall|j: int|
            0 <= j < r0.len_spec() ==> #[trigger] r1.value_at(j) == if r0.key_at(j) == name@ {
                adopted_record(r0.value_at(j), pid, status)
            } else {
                r0.value_at(j)
            }
    }
}

/// Adopts the process `pid` for the application `name`, whose state file
/// reports `status`. An application already in the handler, or absent from
/// the registry, is left alone: adoption never duplicates a handler entry and
/// never creates one without a status.
pub fn adopt_one(handler: &mut Handler, registry: &mut Registry, name: &String, pid: u32, status: Status)
    requires
        old(handler).wf(),
        old(registry).wf(),
        covered_by(*old(handler), *old(registry)),
    ensures
        final(handler).wf(),
        final(registry).wf(),
        covered_by(*final(handler), *final(registry)),
        same_keys(*old(registry), *final(registry)),
        adoption(*old(handler), *old(registry), *name, pid, status, *final(handler), *final(registry)),
        old(handler).has(name@) || !old(registry).has(name@) ==> {
            &&& *final(handler) == *old(handler)
            &&& *final(registry) == *old(registry)
        },
        !old(handler).has(name@) && old(registry).has(name@) ==> {
            &&& final(handler).entries@ == old(handler).entries@.push(
                (*name, SupervisedProcesses::Process { pid }),
            )
            &&& forall|j: int|
                0 <= j < old(registry).len_spec() ==> #[trigger] final(registry).value_at(j) == if old(
                    registry,
                ).key_at(j) == name@ {
                    adopted_record(old(registry).value_at(j), pid, status)
                } else {
                    old(registry).value_at(j)
                }
        },
{
    if handler.contains(name) {
        return;
    }
    let found = registry.find(name);
    match found {
        None => {},
        Some(i) => {
            let ghost before = *registry;
            let (k, mut app) = registry.entries.remove(i);
            app.app_data.state.pid = pid;
            app.app_data.state.status = status;
            if status == Status::Idle {
                app.metrics = None;
            }
            registry.entries.insert(i, (k, app));
            proof {
                assert forall|j: int| 0 <= j < before.len_spec() implies #[trigger] registry.entries@[j].0
                    == before.entries@[j].0 by {}
                lemma_same_keys_preserve(*handler, before, *registry);
                assert forall|j: int| 0 <= j < before.len_spec() implies #[trigger] registry.value_at(j)
                    == if before.key_at(j) == name@ {
                    adopted_record(before.value_at(j), pid, status)
                } else {
                    before.value_at(j)
                } by {
                    if j != i {
                        assert(before.key_at(j) != before.key_at(i as int));
                    }
                }
            }
            let ghost mid = *registry;
            handler.insert_new(name.clone(), SupervisedProcesses::Process { pid });
            proof {
                assert forall|x: int| 0 <= x < handler.len_spec() implies registry.has(
                    #[trigger] handler.key_at(x),
                ) by {
                    if x == handler.len_spec() - 1 {
                        assert(registry.key_at(i as int) == name@);
                    } else {
                        assert(handler.key_at(x) == old(handler).key_at(x));
                    }
                }
            }
        },
    }
}

/// The entries whose liveness flag is set, in their order.
pub open spec fn kept<T>(s: Seq<T>, live: Seq<bool>) -> Seq<T>
    decreases s.len(),
{
    if s.len() == 0 {
        Seq::empty()
    } else {
        (if live[0] {
            seq![s[0]]
        } else {
            Seq::empty()
        }) + kept(s.skip(1), live.skip(1))
    }
}

/// Some handler entry at or after `lo` is named `k` and is dead.
pub open spec fn dead_from(h: Seq<(String, SupervisedProcesses)>, live: Seq<bool>, lo: int, k: Seq<char>) -> bool {
    exists|x: int| lo <= x < h.len() && !live[x] && #[trigger] h[x].0@ == k
}

proof fn lemma_kept_subset<T>(s: Seq<T>, live: Seq<bool>, y: int)
    requires
        s.len() == live.len(),
        0 <= y < kept(s, live).len(),
    ensures
        exists|x: int| 0 <= x < s.len() && kept(s, live)[y] == s[x],
    decreases s.len(),
{
    let head: Seq<T> = if live[0] { seq![s[0]] } else { Seq::empty() };
    if y < head.len() {
        assert(kept(s, live)[y] == s[0]);
    } else {
        lemma_kept_subset(s.skip(1), live.skip(1), y - head.len());
        let x = choose|x: int| 0 <= x < s.skip(1).len() && kept(s.skip(1), live.skip(1))[y - head.len()] == s.skip(1)[x];
        assert(kept(s, live)[y] == s[x + 1]);
    }
}

proof fn lemma_kept_distinct<T>(s: Seq<T>, live: Seq<bool>, y1: int, y2: int)
    requires
        s.len() == live.len(),
        0 <= y1 < y2 < kept(s, live).len(),
    ensures
        exists|x1: int, x2: int| 0 <= x1 < x2 < s.len() && kept(s, live)[y1] == s[x1] && kept(s, live)[y2] == s[x2],
    decreases s.len(),
{
    let head: Seq<T> = if live[0] { seq![s[0]] } else { Seq::empty() };
    let t = kept(s.skip(1), live.skip(1));
    assert(kept(s, live) == head + t);
    if y1 < head.len() {
        lemma_kept_subset(s.skip(1), live.skip(1), y2 - head.len());
        let x = choose|x: int| 0 <= x < s.skip(1).len() && t[y2 - head.len()] == s.skip(1)[x];
        assert(kept(s, live)[y1] == s[0] && kept(s, live)[y2] == s[x + 1]);
    } else {
        lemma_kept_distinct(s.skip(1), live.skip(1), y1 - head.len(), y2 - head.len());
        let (x1, x2) = choose|x1: int, x2: int| 0 <= x1 < x2 < s.skip(1).len() && t[y1 - head.len()] == s.skip(1)[x1] && t[y2 - head.len()] == s.skip(1)[x2];
        assert(kept(s, live)[y1] == s[x1 + 1] && kept(s, live)[y2] == s[x2 + 1]);
    }
}

/// Sweeps the handler map: each entry whose process is no longer live
/// (`live[i]` false for entry `i`) leaves the map, and its application is
/// marked stopped in the registry, with no metrics and no uptime, at `now`.
pub fn reap_dead(handler: &mut Handler, registry: &mut Registry, live: &Vec<bool>, now: u64)
    requires
        old(handler).wf(),
        old(registry).wf(),
        covered_by(*old(handler), *old(registry)),
        live@.len() == old(handler).len_spec(),
    ensures
        final(handler).wf(),
        final(registry).wf(),
        covered_by(*final(handler), *final(registry)),
        same_keys(*old(registry), *final(registry)),
        final(handler).entries@ == kept(old(handler).entries@, live@),
        forall|j: int|
            0 <= j < old(registry).len_spec() ==> #[trigger] final(registry).value_at(j) == if dead_from(
                old(handler).entries@,
                live@,
                0,
                old(registry).key_at(j),
            ) {
                stopped_record(old(registry).value_at(j), now)
            } else {
                old(registry).value_at(j)
            },
{
    let ghost h0 = handler.entries@;
    let ghost r0 = *registry;
    let mut i: usize = handler.entries.len();
    while i > 0
        invariant
            i <= h0.len(),
            h0.len() == live@.len(),
            h0 == old(handler).entries@,
            r0 == *old(registry),
            r0.wf(),
            same_keys(r0, *registry),
            handler.entries@ == h0.take(i as int) + kept(h0.skip(i as int), live@.skip(i as int)),
            forall|j: int|
                0 <= j < r0.len_spec() ==> #[trigger] registry.value_at(j) == if dead_from(
                    h0,
                    live@,
                    i as int,
                    r0.key_at(j),
                ) {
                    stopped_record(r0.value_at(j), now)
                } else {
                    r0.value_at(j)
                },
        decreases i,
    {
        let x = i - 1;
        assert(handler.entries@[x as int] == h0[x as int]);
        let ghost mut hit: Option<int> = None;
        let ghost rb = *registry;
        if !live[x] {
            let found = registry.find(&handler.entries[x].0);
            match found {
                None => {},
                Some(j) => {
                    let ghost before = *registry;
                    let (k, mut app) = registry.entries.remove(j);
                    app.app_data.state.status = Status::Stopped;
                    app.metrics = None;
                    app.uptime = None;
                    app.timestamp = now;
                    registry.entries.insert(j, (k, app));
                    assert forall|y: int| 0 <= y < r0.len_spec() implies #[trigger] registry.entries@[y].0
                        == r0.entries@[y].0 by {
                        assert(before.entries@[y].0 == r0.entries@[y].0);
                    }
                    assert(registry.value_at(j as int) == stopped_record(before.value_at(j as int), now));
                    assert(forall|y: int| 0 <= y < r0.len_spec() && y != j ==> #[trigger] registry.value_at(y) == before.value_at(y));
                    proof { hit = Some(j as int); }
                },
            }
            handler.entries.remove(x);
        }
        proof {
            assert(h0.skip(x as int).skip(1) =~= h0.skip(i as int));
            assert(live@.skip(x as int).skip(1) =~= live@.skip(i as int));
            assert(h0.skip(x as int)[0] == h0[x as int]);
            assert(h0.take(x as int) =~= h0.take(i as int).drop_last());
            assert(handler.entries@ =~= h0.take(x as int) + kept(h0.skip(x as int), live@.skip(x as int)));
            assert forall|j: int| 0 <= j < r0.len_spec() implies #[trigger] registry.value_at(j) == if dead_from(
                h0,
                live@,
                x as int,
                r0.key_at(j),
            ) {
                stopped_record(r0.value_at(j), now)
            } else {
                r0.value_at(j)
            } by {
                assert(registry.key_at(j) == r0.key_at(j));
                assert(rb.key_at(j) == r0.key_at(j));
                if !live@[x as int] && h0[x as int].0@ == r0.key_at(j) {
                    let k = choose|k: int| 0 <= k < r0.len_spec() && #[trigger] r0.key_at(k) == h0[x as int].0@;
                    assert(old(handler).key_at(x as int) == h0[x as int].0@);
                    assert(rb.key_at(k) == r0.key_at(k));
                    assert(hit is Some);
                    let jj = hit->0;
                    assert(rb.key_at(jj) == r0.key_at(jj));
                    assert(jj == j);
                } else if hit is Some {
                    let jj = hit->0;
                    assert(rb.key_at(jj) == r0.key_at(jj));
                    if jj == j {
                        assert(rb.key_at(jj) == h0[x as int].0@);
                    }
                }
                if dead_from(h0, live@, i as int, r0.key_at(j)) {
                    assert(dead_from(h0, live@, x as int, r0.key_at(j)));
                }
                if dead_from(h0, live@, x as int, r0.key_at(j)) && !dead_from(h0, live@, i as int, r0.key_at(j)) {
                    assert(!live@[x as int] && h0[x as int].0@ == r0.key_at(j));
                }
            }
        }
        i = x;
    }
    proof {
        assert(h0.take(0) + kept(h0.skip(0), live@.skip(0)) =~= kept(h0, live@)) by {
            assert(h0.skip(0) =~= h0);
            assert(live@.skip(0) =~= live@);
        }
        lemma_same_keys_preserve(*old(handler), r0, *registry);
        let hs = handler.entries@;
        assert forall|a: int, b: int|
            0 <= a < handler.len_spec() && 0 <= b < handler.len_spec() && a != b
                implies #[trigger] handler.key_at(a) != #[trigger] handler.key_at(b) by {
            let (lo, hi) = if a < b { (a, b) } else { (b, a) };
            lemma_kept_distinct(h0, live@, lo, hi);
            let (x1, x2) = choose|x1: int, x2: int| 0 <= x1 < x2 < h0.len() && kept(h0, live@)[lo] == h0[x1] && kept(h0, live@)[hi] == h0[x2];
            assert(old(handler).key_at(x1) != old(handler).key_at(x2));
        }
        assert forall|a: int| 0 <= a < handler.len_spec() implies registry.has(#[trigger] handler.key_at(a)) by {
            lemma_kept_subset(h0, live@, a);
            let x = choose|x: int| 0 <= x < h0.len() && kept(h0, live@)[a] == h0[x];
            assert(old(handler).key_at(x) == handler.key_at(a));
            let y = choose|y: int| 0 <= y < r0.len_spec() && #[trigger] r0.key_at(y) == old(handler).key_at(x);
            assert(registry.key_at(y) == r0.key_at(y));
        }
    }
}

/// The first `n` items of `s`, or all of them when there are fewer.
pub open spec fn first_items<T>(s: Seq<T>, n: nat) -> Seq<T> {
    if s.len() <= n {
        s
    } else {
        s.subrange(0, n as int)
    }
}

/// What importing a state file sets before classification: a dead process
/// is stopped with no errors; a live one takes the reported status and the
/// first few errors.
pub open spec fn prepared(a: AppStatus, fresh: AppState, live: bool) -> Reading {
    Reading {
        status: if live { fresh.status } else { Status::Stopped },
        errors: if live {
            first_items(error_views(fresh.error_log@), ERROR_LOG_KEEP as nat)
        } else {
            Seq::empty()
        },
        metrics: a.metrics,
        timestamp: a.timestamp,
        uptime: a.uptime,
    }
}

/// `b` is `a` after importing the state file `fresh`, whose process is
/// `live`, and classifying the result at `now`.
pub open spec fn imported(a: AppStatus, fresh: AppState, live: bool, now: u64, b: AppStatus) -> bool {
    &&& b.reading() == classify(prepared(a, fresh, live), fresh.last_updated, Some(live), now)
    &&& b.app_id == a.app_id
    &&& b.git_id == a.git_id
    &&& b.expected_status == a.expected_status
    &&& b.app_data.environment == a.app_data.environment
    &&& b.app_data.state.name == fresh.name
    &&& b.app_data.state.version == fresh.version
    &&& b.app_data.state.data == fresh.data
    &&& b.app_data.state.last_updated == fresh.last_updated
    &&& b.app_data.state.event_counter == fresh.event_counter
    &&& b.app_data.state.pid == fresh.pid
    &&& b.app_data.state.system_application == fresh.system_application
    &&& b.app_data.state.started_at == fresh.started_at
    &&& b.app_data.state.stdout@ == if live {
        last_items(fresh.stdout@, OUTPUT_LINES_KEEP as nat)
    } else {
        fresh.stdout@
    }
    &&& b.app_data.state.stderr@ == if live {
        last_items(fresh.stderr@, OUTPUT_LINES_KEEP as nat)
    } else {
        fresh.stderr@
    }
}

/// Imports the latest state file of one application: takes its state, then,
/// when the process is dead, clears the errors and marks it stopped;
/// otherwise keeps the first few errors and the latest lines of output.
/// Then classifies it.
pub fn import_state(app: &mut AppStatus, fresh: AppState, live: bool, now: u64)
    ensures
        imported(*old(app), fresh, live, now, *final(app)),
        final(app).status() == Status::Running ==> final(app).errors().len() == 0,
        !live ==> {
            &&& final(app).status() == Status::Stopped
            &&& final(app).metrics is None
            &&& final(app).uptime is None
        },
{
    let ghost start = *app;
    let last_updated = fresh.last_updated;
    app.app_data.state = fresh;
    if !live {
        app.app_data.state.error_log.clear();
        app.app_data.state.status = Status::Stopped;
    } else {
        keep_first(&mut app.app_data.state.error_log, ERROR_LOG_KEEP);
        keep_last(&mut app.app_data.state.stdout, OUTPUT_LINES_KEEP);
        keep_last(&mut app.app_data.state.stderr, OUTPUT_LINES_KEEP);
    }
    assert(app.reading().errors =~= prepared(start, fresh, live).errors);
    let ghost mid = *app;
    calculate_uptime(app, last_updated, Some(live), now);
    assert(same_record(mid, *app));
}

/// `r1` is `r0` after importing the state files `fresh`, whose processes
/// have the liveness `live`: each entry named in `fresh` is imported from
/// it, the others are untouched.
pub open spec fn import_result(r0: Registry, fresh: Keyed<AppState>, live: Seq<bool>, now: u64, r1: Registry) -> bool {
    forall|j: int|
        0 <= j < r0.len_spec() ==> ({
            let k = r0.key_at(j);
            let a = r0.value_at(j);
            let b = #[trigger] r1.value_at(j);
            (exists|i: int|
                0 <= i < fresh.len_spec() && #[trigger] fresh.key_at(i) == k && imported(
                    a,
                    fresh.value_at(i),
                    live[i],
                    now,
                    b,
                )) || (!fresh.has(k) && b == a)
        })
}

/// Imports the state files of one catalog into the registry: each registry
/// entry named in `fresh` is imported from it, with `live[i]` the liveness
/// of the process of `fresh` entry `i`; the other entries are untouched.
pub fn import_phase(registry: &mut Registry, fresh: Keyed<AppState>, live: &Vec<bool>, now: u64)
    requires
        old(registry).wf(),
        fresh.wf(),
        live@.len() == fresh.len_spec(),
    ensures
        same_keys(*old(registry), *final(registry)),
        final(registry).wf(),
        import_result(*old(registry), fresh, live@, now, *final(registry)),
{
    let ghost f0 = fresh;
    let ghost r0 = *registry;
    let mut entries = fresh.entries;
    let mut i: usize = entries.len();
    while i > 0
        invariant
            i <= f0.len_spec(),
            f0.wf(),
            live@.len() == f0.len_spec(),
            entries@ == f0.entries@.take(i as int),
            r0 == *old(registry),
            r0.wf(),
            same_keys(r0, *registry),
            forall|j: int|
                0 <= j < r0.len_spec() ==> ({
                    let k = r0.key_at(j);
                    let a = r0.value_at(j);
                    let b = #[trigger] registry.value_at(j);
                    (exists|x: int|
                        i <= x < f0.len_spec() && #[trigger] f0.key_at(x) == k && imported(
                            a,
                            f0.value_at(x),
                            live@[x],
                            now,
                            b,
                        )) || ((forall|x: int| i <= x < f0.len_spec() ==> #[trigger] f0.key_at(x) != k) && b == a)
                }),
        decreases i,
    {
        let x = i - 1;
        let (k, st) = entries.pop().unwrap();
        assert(k == f0.entries@[x as int].0 && st == f0.entries@[x as int].1);
        let ghost rb = *registry;
        let ghost mut hit: Option<int> = None;
        match registry.find(&k) {
            None => {},
            Some(j) => {
                let (k2, mut app) = registry.entries.remove(j);
                import_state(&mut app, st, live[x], now);
                registry.entries.insert(j, (k2, app));
                assert forall|y: int| 0 <= y < r0.len_spec() implies #[trigger] registry.entries@[y].0
                    == r0.entries@[y].0 by {
                    assert(rb.entries@[y].0 == r0.entries@[y].0);
                }
                assert(forall|y: int| 0 <= y < r0.len_spec() && y != j ==> #[trigger] registry.value_at(y) == rb.value_at(y));
                proof { hit = Some(j as int); }
            },
        }
        proof {
            assert(entries@ =~= f0.entries@.take(x as int));
            assert forall|j: int| 0 <= j < r0.len_spec() implies ({
                let k = r0.key_at(j);
                let a = r0.value_at(j);
                let b = #[trigger] registry.value_at(j);
                (exists|z: int|
                    x <= z < f0.len_spec() && #[trigger] f0.key_at(z) == k && imported(
                        a,
                        f0.value_at(z),
                        live@[z],
                        now,
                        b,
                    )) || ((forall|z: int| x <= z < f0.len_spec() ==> #[trigger] f0.key_at(z) != k) && b == a)
            }) by {
                assert(rb.key_at(j) == r0.key_at(j));
                if f0.key_at(x as int) == r0.key_at(j) {
                    assert(hit is Some);
                    let jj = hit->0;
                    assert(rb.key_at(jj) == r0.key_at(jj));
                    assert(jj == j);
                    assert(forall|z: int| i <= z < f0.len_spec() ==> #[trigger] f0.key_at(z) != f0.key_at(x as int));
                    assert(rb.value_at(j) == r0.value_at(j));
                } else if hit is Some {
                    let jj = hit->0;
                    assert(rb.key_at(jj) == r0.key_at(jj));
                    assert(jj != j);
                }
            }
        }
        i = x;
    }
    proof {
        lemma_same_keys_wf(r0, *registry);
        assert forall|j: int| 0 <= j < r0.len_spec() implies ({
            let k = r0.key_at(j);
            let a = r0.value_at(j);
            let b = #[trigger] registry.value_at(j);
            (exists|i: int|
                0 <= i < f0.len_spec() && #[trigger] f0.key_at(i) == k && imported(
                    a,
                    f0.value_at(i),
                    live@[i],
                    now,
                    b,
                )) || (!f0.has(k) && b == a)
        }) by {
            if !(exists|z: int| 0 <= z < f0.len_spec() && #[trigger] f0.key_at(z) == r0.key_at(j) && imported(
                r0.value_at(j), f0.value_at(z), live@[z], now, registry.value_at(j))) {
                assert(forall|z: int| 0 <= z < f0.len_spec() ==> #[trigger] f0.key_at(z) != r0.key_at(j));
            }
        }
    }
}

} // verus!
