use ais_manager::cgroup::{parse_pids, service_of_dir};
use ais_manager::handshake::{discovery_step, identity_step, peer_verification, record_registration, registration_step, IdentityOutcome, PortalReply};
use ais_manager::keyed::Keyed;
use ais_manager::launch::{launch_decision, register_child, LaunchDecision};
use ais_manager::model::{AppState, AppStatus, ApplicationConfig, Environment, ErrorKind, Status};
use ais_manager::portal::{IpAddress, PortalAddr, PortalState, PORTAL_PORT};
use ais_manager::reconcile::SupervisedProcesses;
use ais_manager::resolve::CatalogEntry;

#[test]
fn cgroup_procs_lines_become_pids() {
    assert_eq!(parse_pids("12\n345\n"), vec![12, 345]);
    assert_eq!(parse_pids("12\n345"), vec![12, 345]);
    assert_eq!(parse_pids(""), Vec::<u32>::new());
    assert_eq!(parse_pids("7\n\nabc\n4294967295\n4294967296\n-1\n"), vec![7, 4294967295]);
}

#[test]
fn service_directories_are_named_by_suffix() {
    assert_eq!(service_of_dir("web.service"), Some("web".to_string()));
    assert_eq!(service_of_dir("web.scope"), None);
    assert_eq!(service_of_dir(".service"), Some(String::new()));
}

#[test]
fn discovery_needs_an_identity_request() {
    assert!(discovery_step(&PortalReply::IdRequest).is_ok());
    let e = discovery_step(&PortalReply::RegisterResponse).err().unwrap();
    assert_eq!(e.kind, ErrorKind::Authentication);
    assert_eq!(e.message, "Unexpected response to Discover");
}

#[test]
fn identity_exchange_outcomes() {
    assert!(matches!(identity_step(PortalReply::IdResponse { peer_identity: true }), IdentityOutcome::VerifyPeer));
    assert!(matches!(identity_step(PortalReply::IdResponse { peer_identity: false }), IdentityOutcome::Done));
    match identity_step(PortalReply::Error("denied".to_string())) {
        IdentityOutcome::Fail(e) => assert_eq!(e.message, "denied"),
        _ => panic!("expected a failure"),
    }
    match identity_step(PortalReply::Other) {
        IdentityOutcome::Fail(e) => assert_eq!(e.message, "Unexpected message payload"),
        _ => panic!("expected a failure"),
    }
    assert!(peer_verification(true).is_ok());
    assert_eq!(peer_verification(false).err().unwrap().message, "Identifier verification failed");
}

#[test]
fn registration_outcomes_mark_endpoints() {
    assert!(registration_step(PortalReply::RegisterResponse).is_ok());
    let e = registration_step(PortalReply::Error("full".to_string())).err().unwrap();
    assert_eq!(e.kind, ErrorKind::Network);
    assert_eq!(e.message, "Server responded : full");
    assert_eq!(registration_step(PortalReply::IdRequest).err().unwrap().message, "Recieved illagal response");

    let a = PortalAddr { addr: IpAddress::V4(1), port: PORTAL_PORT };
    let b = PortalAddr { addr: IpAddress::V4(2), port: PORTAL_PORT };
    let mut portals = PortalState::new();
    portals.insert(a);
    portals.insert(b);
    assert!(record_registration(&mut portals, a, &Ok(())).is_ok());
    let failed = registration_step(PortalReply::Other);
    assert!(record_registration(&mut portals, b, &failed).is_ok());
    assert!(portals.get_time(a));
    assert!(!portals.get_time(b));
}

fn entry(name: &str, exists: bool, environment: Option<Environment>) -> CatalogEntry {
    CatalogEntry {
        name: name.to_string(),
        path: format!("/opt/artisan/bin/{}", name),
        exists,
        config: ApplicationConfig {
            state: AppState {
                name: name.to_string(),
                version: String::new(),
                data: String::new(),
                last_updated: 0,
                event_counter: 0,
                pid: 808,
                status: Status::Idle,
                error_log: Vec::new(),
                stdout: Vec::new(),
                stderr: Vec::new(),
                system_application: false,
                started_at: 0,
            },
            environment,
        },
    }
}

#[test]
fn launch_decisions() {
    assert!(matches!(launch_decision(&entry("ais_abc", false, None), false, false), LaunchDecision::Skip));
    assert!(matches!(launch_decision(&entry("ais_abc", true, None), false, true), LaunchDecision::Adopt(808)));
    match launch_decision(&entry("ais_gitmon", true, None), true, false) {
        LaunchDecision::Launch(s) => {
            assert_eq!(s.program, "/opt/artisan/bin/ais_gitmon");
            assert_eq!(s.working_dir, "/etc/ais_gitmon/");
            assert_eq!(s.uid, None);
            assert!(s.env.is_empty());
        }
        _ => panic!("expected a launch"),
    }
    match launch_decision(&entry("ais_abc", true, None), false, false) {
        LaunchDecision::Launch(s) => {
            assert_eq!(s.uid, None);
            assert_eq!(
                s.env,
                vec![
                    ("NVM_DIR".to_string(), "/var/www/.nvm".to_string()),
                    ("PATH".to_string(), "/var/www/.nvm/versions/node/v23.5.0/bin:/usr/local/bin:/usr/bin:/bin".to_string()),
                ]
            );
        }
        _ => panic!("expected a launch"),
    }
    let env = Environment { execution_uid: None, path_modifier: Some("/usr/bin".to_string()) };
    match launch_decision(&entry("ais_abc", true, Some(env)), false, false) {
        LaunchDecision::Launch(s) => {
            assert_eq!(s.uid, Some(33));
            assert_eq!(s.gid, Some(33));
            assert_eq!(
                s.env,
                vec![("PATH".to_string(), "/usr/bin".to_string()), ("NVM_DIR".to_string(), "/var/www/.nvm".to_string())]
            );
        }
        _ => panic!("expected a launch"),
    }
}

#[test]
fn launched_child_is_registered_once() {
    let mut registry: Keyed<AppStatus> = Keyed::new();
    let e = entry("ais_abc", true, None);
    registry.entries.push((
        "ais_abc".to_string(),
        AppStatus {
            app_id: "x".to_string(),
            git_id: "abc".to_string(),
            app_data: e.config.clone(),
            uptime: None,
            metrics: None,
            timestamp: 0,
            expected_status: Status::Idle,
        },
    ));
    let mut handler: Keyed<SupervisedProcesses> = Keyed::new();
    register_child(&mut handler, &registry, &"ais_abc".to_string(), 5);
    register_child(&mut handler, &registry, &"ais_abc".to_string(), 6);
    register_child(&mut handler, &registry, &"ais_other".to_string(), 7);
    assert_eq!(handler.entries.len(), 1);
    assert_eq!(handler.entries[0].1, SupervisedProcesses::Child { pid: 5 });
}
