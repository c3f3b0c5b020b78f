use ais_manager::keyed::Keyed;
use ais_manager::lifecycle::{reload_application, start_application, start_refused, stop_application};
use ais_manager::locks::{LockId, LockSet};
use ais_manager::model::{AppError, AppState, AppStatus, ApplicationConfig, ErrorKind, Metrics, Status};
use ais_manager::portal::{endpoints_of, IpAddress, PortalAddr, PortalState, PORTAL_PORT};
use ais_manager::reconcile::SupervisedProcesses;
use ais_manager::resolve::CatalogEntry;
use ais_manager::state::{reset_own_state, touch_state, wind_down_state};
use ais_manager::summary::get_manager_data;

fn state(name: &str, system: bool, errors: usize) -> AppState {
    AppState {
        name: name.to_string(),
        version: "2.0".to_string(),
        data: String::new(),
        last_updated: 5,
        event_counter: 3,
        pid: 321,
        status: Status::Running,
        error_log: (0..errors).map(|i| AppError { kind: ErrorKind::General, message: format!("e{}", i) }).collect(),
        stdout: Vec::new(),
        stderr: Vec::new(),
        system_application: system,
        started_at: 50,
    }
}

fn status(name: &str, system: bool) -> AppStatus {
    AppStatus {
        app_id: name.to_string(),
        git_id: String::new(),
        app_data: ApplicationConfig { state: state(name, system, 0), environment: None },
        uptime: Some(4),
        metrics: Some(Metrics { cpu_milli_percent: 1, memory_kib: 2, network: None }),
        timestamp: 9,
        expected_status: Status::Running,
    }
}

fn setup() -> (Keyed<AppStatus>, Keyed<SupervisedProcesses>, Keyed<SupervisedProcesses>) {
    let mut registry = Keyed::new();
    registry.entries.push(("ais_gitmon".to_string(), status("ais_gitmon", true)));
    registry.entries.push(("ais_abc".to_string(), status("ais_abc", false)));
    let mut system = Keyed::new();
    system.entries.push(("ais_gitmon".to_string(), SupervisedProcesses::Process { pid: 321 }));
    let mut client = Keyed::new();
    client.entries.push(("ais_abc".to_string(), SupervisedProcesses::Child { pid: 654 }));
    (registry, system, client)
}

#[test]
fn stop_marks_stopped_and_drops_handle() {
    let (mut registry, mut system, mut client) = setup();
    let order = stop_application(&mut registry, &mut system, &mut client, &"ais_gitmon".to_string()).ok().unwrap();
    assert_eq!(order.name, "ais_gitmon");
    assert_eq!(order.pid, 321);
    assert!(system.entries.is_empty());
    assert_eq!(client.entries.len(), 1);
    let app = &registry.entries[0].1;
    assert_eq!(app.app_data.state.status, Status::Stopped);
    assert_eq!(app.metrics, None);
    assert_eq!(app.uptime, None);
}

#[test]
fn stop_of_client_uses_client_handler() {
    let (mut registry, mut system, mut client) = setup();
    assert!(stop_application(&mut registry, &mut system, &mut client, &"ais_abc".to_string()).is_ok());
    assert!(client.entries.is_empty());
    assert_eq!(system.entries.len(), 1);
}

#[test]
fn stop_of_unknown_app_is_not_found() {
    let (mut registry, mut system, mut client) = setup();
    match stop_application(&mut registry, &mut system, &mut client, &"ais_nope".to_string()) {
        Err(e) => {
            assert_eq!(e.kind, ErrorKind::NotFound);
            assert_eq!(e.message, "ais_nope, Not registered in the system");
        }
        Ok(_) => panic!("expected NotFound"),
    }
    assert_eq!(system.entries.len(), 1);
}

#[test]
fn reload_finds_the_handle_pid() {
    let (registry, system, client) = setup();
    assert_eq!(reload_application(&registry, &system, &client, &"ais_abc".to_string()).ok(), Some(654));
    assert_eq!(reload_application(&registry, &system, &client, &"ais_gitmon".to_string()).ok(), Some(321));
    let err = reload_application(&registry, &system, &client, &"ais_zz".to_string()).err().unwrap();
    assert_eq!(err.kind, ErrorKind::NotFound);
    let empty: Keyed<SupervisedProcesses> = Keyed::new();
    assert!(reload_application(&registry, &empty, &empty, &"ais_abc".to_string()).is_err());
}

#[test]
fn start_names_the_unit() {
    let (registry, _, _) = setup();
    assert_eq!(start_application(&registry, &"ais_abc".to_string()).ok().unwrap(), "ais_abc");
    let err = start_application(&registry, &"ais_q".to_string()).err().unwrap();
    assert_eq!(err.kind, ErrorKind::NotFound);
    assert_eq!(err.message, "State data for: ais_q not loaded");
    assert_eq!(start_refused("denied".to_string()).kind, ErrorKind::Unauthorized);
}

fn addr(last: u32) -> PortalAddr {
    PortalAddr { addr: IpAddress::V4(0x0a000000 + last), port: PORTAL_PORT }
}

#[test]
fn portal_endpoints_track_time() {
    let mut portals = PortalState::new();
    for a in endpoints_of(&vec![IpAddress::V4(0x0a000001), IpAddress::V4(0x0a000002)]) {
        portals.insert(a);
    }
    assert_eq!(portals.get_portals().len(), 2);
    assert!(!portals.get_time(addr(1)));
    assert!(portals.set_time(addr(1), true).is_ok());
    assert!(portals.get_time(addr(1)));
    assert!(!portals.get_time(addr(2)));
    portals.insert(addr(1));
    assert!(!portals.get_time(addr(1)));
    assert_eq!(portals.get_portals().len(), 2);
    let missing = portals.set_time(addr(9), true).err().unwrap();
    assert_eq!(missing.kind, ErrorKind::NotFound);
    let removed = portals.remove(addr(2)).unwrap();
    assert_eq!(removed.get_address(), addr(2));
    assert!(!portals.contains(addr(2)));
    assert!(portals.remove(addr(2)).is_none());
}

#[test]
fn portal_instance_in_and_out_of_time() {
    let mut p = ais_manager::portal::PortalIntance::new(addr(3));
    assert!(!p.is_in_time());
    p.in_time();
    assert!(p.is_in_time());
    p.out_time();
    assert!(!p.is_in_time());
}

#[test]
fn manager_summary_counts_apps_and_errors() {
    let mut system: Keyed<CatalogEntry> = Keyed::new();
    let mut client: Keyed<CatalogEntry> = Keyed::new();
    let entry = |n: &str, sys: bool, errors: usize| CatalogEntry {
        name: n.to_string(),
        path: format!("/opt/artisan/bin/{}", n),
        exists: true,
        config: ApplicationConfig { state: state(n, sys, errors), environment: None },
    };
    system.entries.push(("ais_gitmon".to_string(), entry("ais_gitmon", true, 2)));
    system.entries.push(("ais_manager".to_string(), entry("ais_manager", true, 0)));
    client.entries.push(("ais_abc".to_string(), entry("ais_abc", false, 3)));
    let s = get_manager_data("1.2.3".to_string(), &system, &client, "host".to_string(), IpAddress::V4(1), 1000, 400);
    assert_eq!(s.system_apps, 2);
    assert_eq!(s.client_apps, 1);
    assert_eq!(s.warning, 5);
    assert_eq!(s.uptime, 600);
    assert_eq!(s.hostname, "host");
}

#[test]
fn locks_follow_the_documented_order() {
    let mut held = LockSet::new();
    assert!(held.acquire(LockId::StatusRegistry));
    assert!(held.acquire(LockId::ClientHandler));
    assert!(!held.acquire(LockId::SystemHandler));
    assert!(!held.acquire(LockId::StatusRegistry));
    assert!(held.acquire(LockId::PortalMap));
    assert_eq!(held.held.len(), 3);
    held.release_all();
    assert!(held.acquire(LockId::SystemHandler));
}

#[test]
fn wind_down_marks_state_terminated() {
    let mut s = state("ais_manager", true, 1);
    wind_down_state(&mut s);
    assert_eq!(s.data, "Terminated");
    assert_eq!(s.error_log.len(), 2);
    assert_eq!(s.error_log[1].message, "Wind down requested check logs");
    assert_eq!(s.event_counter, 4);
    assert!(s.last_updated > 1_600_000_000);
}

#[test]
fn touch_state_stamps_and_counts() {
    let mut s = state("ais_manager", true, 0);
    touch_state(&mut s, 77);
    assert_eq!(s.last_updated, 77);
    assert_eq!(s.event_counter, 4);
    s.event_counter = u64::MAX;
    touch_state(&mut s, 78);
    assert_eq!(s.event_counter, u64::MAX);
}

#[test]
fn own_state_is_reset_for_a_new_run() {
    let mut s = state("ais_manager", true, 2);
    reset_own_state(&mut s, 500, 77);
    assert_eq!(s.data, "Initializing");
    assert_eq!(s.started_at, 500);
    assert_eq!(s.last_updated, 500);
    assert_eq!(s.pid, 77);
    assert_eq!(s.event_counter, 0);
    assert!(s.error_log.is_empty());
}
