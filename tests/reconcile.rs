use ais_manager::classify::{calculate_uptime, check_balances};
use ais_manager::keyed::Keyed;
use ais_manager::model::{AppError, AppState, AppStatus, ApplicationConfig, ErrorKind, Metrics, Status};
use ais_manager::reconcile::{adopt_one, import_phase, import_state, reap_dead, SupervisedProcesses};

fn state(name: &str, pid: u32, status: Status, last_updated: u64) -> AppState {
    AppState {
        name: name.to_string(),
        version: "1.0.0".to_string(),
        data: String::new(),
        last_updated,
        event_counter: 0,
        pid,
        status,
        error_log: Vec::new(),
        stdout: Vec::new(),
        stderr: Vec::new(),
        system_application: true,
        started_at: 100,
    }
}

fn status_of(name: &str, status: Status) -> AppStatus {
    AppStatus {
        app_id: format!("id-{}", name),
        git_id: String::new(),
        app_data: ApplicationConfig { state: state(name, 4321, status, 995), environment: None },
        uptime: Some(7),
        metrics: Some(Metrics { cpu_milli_percent: 1500, memory_kib: 2048, network: None }),
        timestamp: 900,
        expected_status: Status::Running,
    }
}

fn error(message: &str) -> AppError {
    AppError { kind: ErrorKind::General, message: message.to_string() }
}

#[test]
fn stopped_app_restarts_clock_and_loses_uptime() {
    let mut app = status_of("ais_gitmon", Status::Stopped);
    app.app_data.state.error_log.push(error("boom"));
    check_balances(&mut app, 1000);
    assert_eq!(app.timestamp, 1000);
    assert_eq!(app.uptime, None);
    assert_eq!(app.metrics, None);
    assert!(app.app_data.state.error_log.is_empty());
    assert_eq!(app.app_data.state.status, Status::Stopped);
}

#[test]
fn running_app_with_errors_becomes_warning() {
    let mut app = status_of("ais_gitmon", Status::Running);
    app.app_data.state.error_log.push(error("boom"));
    check_balances(&mut app, 1000);
    assert_eq!(app.app_data.state.status, Status::Warning);
    assert_eq!(app.app_data.state.error_log.len(), 1);
    assert_eq!(app.timestamp, 900);
    assert!(app.metrics.is_some());
}

#[test]
fn unknown_app_loses_metrics_and_errors() {
    let mut app = status_of("ais_gitmon", Status::Unknown);
    app.app_data.state.error_log.push(error("boom"));
    check_balances(&mut app, 1000);
    assert_eq!(app.metrics, None);
    assert!(app.app_data.state.error_log.is_empty());
    assert_eq!(app.timestamp, 1000);
    assert_eq!(app.uptime, Some(7));
}

#[test]
fn stopping_settles_to_stopped() {
    let mut app = status_of("ais_gitmon", Status::Stopping);
    check_balances(&mut app, 1000);
    assert_eq!(app.app_data.state.status, Status::Stopped);
    assert_eq!(app.metrics.is_some(), true);
}

#[test]
fn fresh_running_app_gets_uptime_from_timestamp() {
    let mut app = status_of("ais_gitmon", Status::Running);
    calculate_uptime(&mut app, 995, Some(true), 1000);
    assert_eq!(app.app_data.state.status, Status::Running);
    assert_eq!(app.uptime, Some(100));
}

#[test]
fn stale_live_app_is_warning_with_timeout_error() {
    let mut app = status_of("ais_gitmon", Status::Running);
    calculate_uptime(&mut app, 970, Some(true), 1000);
    assert_eq!(app.app_data.state.status, Status::Warning);
    assert_eq!(app.app_data.state.error_log.len(), 1);
    assert_eq!(app.app_data.state.error_log[0].kind, ErrorKind::AppState);
    assert_eq!(app.app_data.state.error_log[0].message, "TIMED OUT. LAST UPDATED 970");
    assert_eq!(app.uptime, Some(100));
}

#[test]
fn stale_dead_app_is_stopped_without_metrics_or_uptime() {
    let mut app = status_of("ais_gitmon", Status::Running);
    calculate_uptime(&mut app, 900, Some(false), 1000);
    assert_eq!(app.app_data.state.status, Status::Stopped);
    assert_eq!(app.metrics, None);
    assert_eq!(app.uptime, None);
}

#[test]
fn stale_app_with_unknown_liveness_loses_metrics_and_uptime() {
    let mut app = status_of("ais_gitmon", Status::Running);
    calculate_uptime(&mut app, 900, None, 1000);
    assert_eq!(app.app_data.state.status, Status::Running);
    assert_eq!(app.metrics, None);
    assert_eq!(app.uptime, None);
}

#[test]
fn last_update_exactly_thirty_seconds_ago_is_stale() {
    let mut app = status_of("ais_gitmon", Status::Running);
    calculate_uptime(&mut app, 970, Some(false), 1000);
    assert_eq!(app.app_data.state.status, Status::Stopped);
    let mut other = status_of("ais_gitmon", Status::Running);
    calculate_uptime(&mut other, 971, Some(false), 1000);
    assert_eq!(other.app_data.state.status, Status::Running);
}

#[test]
fn import_keeps_last_500_lines_and_5_errors() {
    let mut app = status_of("ais_mailler", Status::Running);
    let mut fresh = state("ais_mailler", 4321, Status::Running, 995);
    for i in 0..1200 {
        fresh.stderr.push(format!("line {}", i));
        fresh.stdout.push(format!("out {}", i));
    }
    for i in 0..20 {
        fresh.error_log.push(error(&format!("error {}", i)));
    }
    import_state(&mut app, fresh, true, 1000);
    let stderr = &app.app_data.state.stderr;
    assert_eq!(stderr.len(), 500);
    assert_eq!(stderr[0], "line 700");
    assert_eq!(stderr[499], "line 1199");
    assert_eq!(app.app_data.state.stdout.len(), 500);
    assert_eq!(app.app_data.state.stdout[0], "out 700");
    assert_eq!(app.app_data.state.error_log.len(), 5);
    assert_eq!(app.app_data.state.error_log[0].message, "error 0");
    assert_eq!(app.app_data.state.error_log[4].message, "error 4");
    // errors make a running application a warning
    assert_eq!(app.app_data.state.status, Status::Warning);
}

#[test]
fn import_of_dead_process_stops_and_clears_errors() {
    let mut app = status_of("ais_mailler", Status::Running);
    let mut fresh = state("ais_mailler", 4321, Status::Running, 999);
    fresh.error_log.push(error("boom"));
    import_state(&mut app, fresh, false, 1000);
    assert_eq!(app.app_data.state.status, Status::Stopped);
    assert!(app.app_data.state.error_log.is_empty());
    assert_eq!(app.metrics, None);
    assert_eq!(app.uptime, None);
    assert_eq!(app.timestamp, 1000);
}

#[test]
fn running_status_after_import_has_no_errors() {
    let mut app = status_of("ais_mailler", Status::Unknown);
    let fresh = state("ais_mailler", 4321, Status::Running, 999);
    import_state(&mut app, fresh, true, 1000);
    assert_eq!(app.app_data.state.status, Status::Running);
    assert!(app.app_data.state.error_log.is_empty());
    assert_eq!(app.uptime, Some(100));
}

fn registry_with(names: &[&str]) -> Keyed<AppStatus> {
    let mut r = Keyed::new();
    for n in names {
        r.entries.push((n.to_string(), status_of(n, Status::Unknown)));
    }
    r
}

#[test]
fn adopt_after_restart() {
    let mut handler: Keyed<SupervisedProcesses> = Keyed::new();
    let mut registry = registry_with(&["ais_gitmon"]);
    adopt_one(&mut handler, &mut registry, &"ais_gitmon".to_string(), 4321, Status::Running);
    assert_eq!(handler.entries.len(), 1);
    assert_eq!(handler.entries[0].0, "ais_gitmon");
    assert_eq!(handler.entries[0].1, SupervisedProcesses::Process { pid: 4321 });
    assert_eq!(handler.entries[0].1.get_pid(), 4321);
    let app = &registry.entries[0].1;
    assert_eq!(app.app_data.state.status, Status::Running);
    assert_eq!(app.app_data.state.pid, 4321);
    assert!(app.metrics.is_some());
}

#[test]
fn adopted_idle_app_has_no_metrics() {
    let mut handler: Keyed<SupervisedProcesses> = Keyed::new();
    let mut registry = registry_with(&["ais_gitmon"]);
    adopt_one(&mut handler, &mut registry, &"ais_gitmon".to_string(), 12, Status::Idle);
    assert_eq!(registry.entries[0].1.metrics, None);
}

#[test]
fn repeated_adoption_does_not_duplicate() {
    let mut handler: Keyed<SupervisedProcesses> = Keyed::new();
    let mut registry = registry_with(&["ais_gitmon", "ais_mailler"]);
    let name = "ais_gitmon".to_string();
    adopt_one(&mut handler, &mut registry, &name, 4321, Status::Running);
    adopt_one(&mut handler, &mut registry, &name, 9999, Status::Idle);
    adopt_one(&mut handler, &mut registry, &name, 4321, Status::Running);
    assert_eq!(handler.entries.len(), 1);
    assert_eq!(handler.entries[0].1.get_pid(), 4321);
    assert_eq!(registry.entries[0].1.app_data.state.pid, 4321);
}

#[test]
fn adoption_needs_a_status_entry() {
    let mut handler: Keyed<SupervisedProcesses> = Keyed::new();
    let mut registry = registry_with(&["ais_gitmon"]);
    adopt_one(&mut handler, &mut registry, &"ais_unknown".to_string(), 77, Status::Running);
    assert!(handler.entries.is_empty());
}

#[test]
fn reap_dead_removes_handler_and_stops_status() {
    let mut handler: Keyed<SupervisedProcesses> = Keyed::new();
    let mut registry = registry_with(&["ais_gitmon", "ais_mailler"]);
    adopt_one(&mut handler, &mut registry, &"ais_gitmon".to_string(), 4321, Status::Running);
    adopt_one(&mut handler, &mut registry, &"ais_mailler".to_string(), 55, Status::Running);
    reap_dead(&mut handler, &mut registry, &vec![false, true], 2000);
    assert_eq!(handler.entries.len(), 1);
    assert_eq!(handler.entries[0].0, "ais_mailler");
    let gitmon = &registry.entries[0].1;
    assert_eq!(gitmon.app_data.state.status, Status::Stopped);
    assert_eq!(gitmon.metrics, None);
    assert_eq!(gitmon.uptime, None);
    assert_eq!(gitmon.timestamp, 2000);
    let mailler = &registry.entries[1].1;
    assert_eq!(mailler.app_data.state.status, Status::Running);
    assert_eq!(mailler.timestamp, 900);
    // every handler entry still has its status
    for (name, _) in handler.entries.iter() {
        assert!(registry.entries.iter().any(|(k, _)| k == name));
    }
}

#[test]
fn import_phase_touches_only_named_entries() {
    let mut registry = registry_with(&["ais_gitmon", "ais_mailler"]);
    let mut fresh: Keyed<AppState> = Keyed::new();
    fresh.entries.push(("ais_mailler".to_string(), state("ais_mailler", 8, Status::Idle, 995)));
    import_phase(&mut registry, fresh, &vec![true], 1000);
    assert_eq!(registry.entries[0].1.app_data.state.status, Status::Unknown);
    assert_eq!(registry.entries[0].1.uptime, Some(7));
    assert_eq!(registry.entries[1].1.app_data.state.status, Status::Idle);
    assert_eq!(registry.entries[1].1.app_data.state.pid, 8);
}
