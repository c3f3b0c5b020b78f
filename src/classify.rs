//! Classification of one application: the balancing rules and the uptime
//! and timeout policy that every reconciler pass applies.
use vstd::prelude::*;
use crate::model::{elapsed, seconds_since, AppError, AppStatus, ErrorKind, Metrics, Status};
use crate::text::{decimal, decimal_text, joined};

verus! {

/// Seconds without a state-file update after which an application is timed out.
pub const TIMEOUT_SECONDS: u64 = 30;

/// The part of an application's live picture that classification rewrites.
pub struct Reading {
    pub status: Status,
    pub errors: Seq<(ErrorKind, Seq<char>)>,
    pub metrics: Option<Metrics>,
    pub timestamp: u64,
    pub uptime: Option<u64>,
}

impl AppStatus {
    pub open spec fn reading(&self) -> Reading {
        Reading {
            status: self.status(),
            errors: self.errors(),
            metrics: self.metrics,
            timestamp: self.timestamp,
            uptime: self.uptime,
        }
    }
}

/// Two pictures agree on everything that classification leaves alone.
pub open spec fn same_record(a: AppStatus, b: AppStatus) -> bool {
    &&& a.app_id == b.app_id
    &&& a.git_id == b.git_id
    &&& a.expected_status == b.expected_status
    &&& a.app_data.environment == b.app_data.environment
    &&& a.app_data.state.name == b.app_data.state.name
    &&& a.app_data.state.version == b.app_data.state.version
    &&& a.app_data.state.data == b.app_data.state.data
    &&& a.app_data.state.last_updated == b.app_data.state.last_updated
    &&& a.app_data.state.event_counter == b.app_data.state.event_counter
    &&& a.app_data.state.pid == b.app_data.state.pid
    &&& a.app_data.state.stdout@ == b.app_data.state.stdout@
    &&& a.app_data.state.stderr@ == b.app_data.state.stderr@
    &&& a.app_data.state.system_application == b.app_data.state.system_application
    &&& a.app_data.state.started_at == b.app_data.state.started_at
}

/// Stopped or unknown: nothing to measure and nothing to report.
pub open spec fn is_quiet(s: Status) -> bool {
    s == Status::Unknown || s == Status::Stopped
}

/// The statuses under which an application accrues uptime.
pub open spec fn counts_as_running(s: Status) -> bool {
    !(s == Status::Unknown || s == Status::Stopping || s == Status::Stopped)
}

/// The balancing rules: a stopped application restarts its clock and loses
/// its uptime; a running one with errors is a warning; a stopped or unknown
/// one loses its metrics and errors; stopping settles to stopped.
pub open spec fn balance(r: Reading, now: u64) -> Reading {
    Reading {
        status: if r.status == Status::Stopping {
            Status::Stopped
        } else if r.status == Status::Running && r.errors.len() > 0 {
            Status::Warning
        } else {
            r.status
        },
        errors: if is_quiet(r.status) { Seq::empty() } else { r.errors },
        metrics: if is_quiet(r.status) { None } else { r.metrics },
        timestamp: if is_quiet(r.status) { now } else { r.timestamp },
        uptime: if r.status == Status::Stopped { None } else { r.uptime },
    }
}

/// The state file was last written at least the timeout ago.
pub open spec fn timed_out(last_updated: u64, now: u64) -> bool {
    last_updated + TIMEOUT_SECONDS <= now
}

/// The error recorded when a live application stops writing its state file.
pub open spec fn timeout_message(last_updated: u64) -> Seq<char> {
    "TIMED OUT. LAST UPDATED "@ + decimal(last_updated as nat)
}

/// The classification of one application: balance it, then apply the
/// timeout policy, then give uptime exactly to running ones that are live
/// and reporting. `live` is `None` when liveness could not be checked.
pub open spec fn classify(r: Reading, last_updated: u64, live: Option<bool>, now: u64) -> Reading {
    let b = balance(r, now);
    let late = timed_out(last_updated, now);
    let status = if late && live == Some(true) {
        Status::Warning
    } else if late && live == Some(false) {
        Status::Stopped
    } else {
        b.status
    };
    Reading {
        status,
        errors: if late && live == Some(true) {
            b.errors.push((ErrorKind::AppState, timeout_message(last_updated)))
        } else {
            b.errors
        },
        metrics: if late && live != Some(true) { None } else { b.metrics },
        timestamp: b.timestamp,
        uptime: if counts_as_running(status) && (!late || live == Some(true)) {
            Some(elapsed(now, b.timestamp))
        } else {
            None
        },
    }
}

/// Applies the balancing rules to one application.
pub fn check_balances(app: &mut AppStatus, now: u64)
    ensures
        final(app).reading() == balance(old(app).reading(), now),
        same_record(*old(app), *final(app)),
{
    let ghost before = app.reading();
    if app.app_data.state.status == Status::Stopped {
        app.timestamp = now;
        app.uptime = None;
    }
    if app.app_data.state.status == Status::Running && app.app_data.state.error_log.len() > 0 {
        app.app_data.state.status = Status::Warning;
    }
    if app.app_data.state.status == Status::Unknown || app.app_data.state.status == Status::Stopped {
        app.metrics = None;
        app.app_data.state.error_log.clear();
        app.timestamp = now;
    }
    if app.app_data.state.status == Status::Stopping {
        app.app_data.state.status = Status::Stopped;
    }
    assert(app.reading().errors =~= balance(before, now).errors);
}

/// Builds the error recorded for a timed-out live application.
fn timeout_error(last_updated: u64) -> (e: AppError)
    ensures
        e@ == (ErrorKind::AppState, timeout_message(last_updated)),
{
    let digits = decimal_text(last_updated);
    let message = joined("TIMED OUT. LAST UPDATED ", digits.as_str());
    proof {
        reveal_strlit("TIMED OUT. LAST UPDATED ");
    }
    AppError { kind: ErrorKind::AppState, message }
}

/// Classifies one application: the balancing rules, then the timeout and
/// uptime policy, given when its state file was last written and whether
/// its process is live.
pub fn calculate_uptime(app: &mut AppStatus, last_updated: u64, live: Option<bool>, now: u64)
    ensures
        final(app).reading() == classify(old(app).reading(), last_updated, live, now),
        same_record(*old(app), *final(app)),
        final(app).status() == Status::Running ==> final(app).errors().len() == 0,
        timed_out(last_updated, now) && live == Some(false) ==> {
            &&& final(app).status() == Status::Stopped
            &&& final(app).metrics is None
            &&& final(app).uptime is None
        },
{
    let ghost start = app.reading();
    check_balances(app, now);
    let ghost b = app.reading();
    let late = now >= TIMEOUT_SECONDS && last_updated <= now - TIMEOUT_SECONDS;
    if late {
        match live {
            Some(true) => {
                app.app_data.state.status = Status::Warning;
                let e = timeout_error(last_updated);
                app.app_data.state.error_log.push(e);
                app.uptime = Some(seconds_since(now, app.timestamp));
            },
            Some(false) => {
                app.app_data.state.status = Status::Stopped;
                app.metrics = None;
                app.uptime = None;
            },
            None => {
                app.metrics = None;
                app.uptime = None;
            },
        }
    }
    let s = app.app_data.state.status;
    let running = !(s == Status::Unknown || s == Status::Stopping || s == Status::Stopped);
    if !running {
        app.uptime = None;
    }
    if running && !late {
        app.uptime = Some(seconds_since(now, app.timestamp));
    }
    assert(app.reading().errors =~= classify(start, last_updated, live, now).errors);
}

} // verus!
