use ais_manager::bandwidth::{aggregate_bandwidth_by_service, TrafficStats};
use ais_manager::dispatch::{all_status_response, for_report, lifecycle_response, plan_command, status_found, status_missing, Command, CommandType, Plan};
use ais_manager::keyed::Keyed;
use ais_manager::model::{AppError, AppState, AppStatus, ApplicationConfig, ErrorKind, NetworkUsage, Status};
use ais_manager::monitor::service_network;
use ais_manager::text::{json_array, keep_last, strip_trailing_marker};

fn stats(rx: u64, tx: u64) -> TrafficStats {
    TrafficStats { rx_bytes: rx, tx_bytes: tx }
}

fn value<'a>(k: &'a Keyed<TrafficStats>, name: &str) -> Option<&'a TrafficStats> {
    k.entries.iter().find(|(n, _)| n == name).map(|(_, v)| v)
}

#[test]
fn bandwidth_is_totalled_by_service() {
    let pairs = vec![(10u32, "web".to_string()), (11, "web".to_string()), (20, "db".to_string())];
    let counters = vec![(10u32, stats(100, 5)), (20, stats(7, 8)), (11, stats(1, 2)), (99, stats(1000, 1000))];
    let r = aggregate_bandwidth_by_service(&pairs, &counters);
    assert_eq!(r.entries.len(), 2);
    assert_eq!(value(&r, "web"), Some(&stats(101, 7)));
    assert_eq!(value(&r, "db"), Some(&stats(7, 8)));
}

#[test]
fn process_in_no_service_is_left_out_whole() {
    let pairs = vec![(10u32, "web".to_string())];
    let counters = vec![(11u32, stats(5, 6))];
    let r = aggregate_bandwidth_by_service(&pairs, &counters);
    assert!(r.entries.is_empty());
}

#[test]
fn later_cgroup_entry_wins_and_sums_saturate() {
    let pairs = vec![(10u32, "old".to_string()), (10, "new".to_string())];
    let counters = vec![(10u32, stats(u64::MAX, 1)), (10, stats(5, 1))];
    let r = aggregate_bandwidth_by_service(&pairs, &counters);
    assert_eq!(r.entries.len(), 1);
    assert_eq!(value(&r, "new"), Some(&stats(u64::MAX, 2)));
}

#[test]
fn traffic_converts_to_network_usage() {
    assert_eq!(stats(3, 4).to_network_usage(), NetworkUsage { rx_bytes: 3, tx_bytes: 4 });
    let pairs = vec![(10u32, "web".to_string())];
    let r = aggregate_bandwidth_by_service(&pairs, &vec![(10u32, stats(3, 4))]);
    assert_eq!(service_network(&r, &"web".to_string()), Some(NetworkUsage { rx_bytes: 3, tx_bytes: 4 }));
    assert_eq!(service_network(&r, &"db".to_string()), None);
}

fn command(id: &str, command_type: CommandType) -> Command {
    Command { app_id: id.to_string(), command_type }
}

#[test]
fn closed_gate_refuses_commands() {
    match plan_command(command("ais_mailler", CommandType::Stop), false) {
        Plan::Respond(resp) => {
            assert!(!resp.success);
            assert_eq!(resp.message.as_deref(), Some("Server not accepting requests"));
            assert_eq!(resp.app_id, "");
        }
        _ => panic!("expected a refusal"),
    }
}

#[test]
fn stop_of_manager_triggers_shutdown() {
    match plan_command(command("ais_manager", CommandType::Stop), true) {
        Plan::Shutdown(resp) => {
            assert!(resp.success);
            assert_eq!(resp.message.as_deref(), Some("triggered manager shutdown !"));
            assert_eq!(resp.app_id, "ais_manager");
        }
        _ => panic!("expected a shutdown"),
    }
}

#[test]
fn restart_of_manager_triggers_reload() {
    match plan_command(command("ais_manager", CommandType::Restart), true) {
        Plan::Reload(resp) => {
            assert!(resp.success);
            assert_eq!(resp.message, None);
        }
        _ => panic!("expected a reload"),
    }
}

#[test]
fn ordinary_commands_are_routed() {
    assert!(matches!(plan_command(command("ais_mailler", CommandType::Stop), true), Plan::Stop(id) if id == "ais_mailler"));
    assert!(matches!(plan_command(command("ais_mailler", CommandType::Start), true), Plan::Start(id) if id == "ais_mailler"));
    assert!(matches!(plan_command(command("ais_mailler", CommandType::Restart), true), Plan::Restart(id) if id == "ais_mailler"));
    assert!(matches!(plan_command(command("x", CommandType::Status), true), Plan::Status(_)));
    assert!(matches!(plan_command(command("x", CommandType::AllStatus), true), Plan::AllStatus(_)));
    assert!(matches!(plan_command(command("x", CommandType::Info), true), Plan::Info));
}

#[test]
fn custom_commands_are_not_implemented() {
    match plan_command(command("x", CommandType::Custom("dance".to_string())), true) {
        Plan::Respond(resp) => {
            assert!(!resp.success);
            assert_eq!(resp.message.as_deref(), Some("Request not implemented"));
            assert!(matches!(resp.command_type, CommandType::Custom(ref c) if c == "command not found"));
        }
        _ => panic!("expected a response"),
    }
}

#[test]
fn lifecycle_outcomes_become_responses() {
    let ok = lifecycle_response("a".to_string(), CommandType::Start, Ok(()));
    assert!(ok.success);
    assert_eq!(ok.message, None);
    let err = lifecycle_response(
        "a".to_string(),
        CommandType::Stop,
        Err(AppError { kind: ErrorKind::NotFound, message: "gone".to_string() }),
    );
    assert!(!err.success);
    assert_eq!(err.message.as_deref(), Some("gone"));
}

#[test]
fn status_responses() {
    let found = status_found("a".to_string(), "{}".to_string());
    assert!(found.success);
    assert_eq!(found.message.as_deref(), Some("{}"));
    let missing = status_missing("ais_x".to_string());
    assert!(!missing.success);
    assert_eq!(missing.message.as_deref(), Some("The app: ais_x, wasn't in our store"));
}

#[test]
fn reported_status_has_zero_timestamp() {
    let s = AppStatus {
        app_id: "id".to_string(),
        git_id: String::new(),
        app_data: ApplicationConfig {
            state: AppState {
                name: "n".to_string(),
                version: String::new(),
                data: String::new(),
                last_updated: 1,
                event_counter: 0,
                pid: 1,
                status: Status::Running,
                error_log: Vec::new(),
                stdout: Vec::new(),
                stderr: Vec::new(),
                system_application: false,
                started_at: 1,
            },
            environment: None,
        },
        uptime: Some(3),
        metrics: None,
        timestamp: 555,
        expected_status: Status::Idle,
    };
    let r = for_report(s);
    assert_eq!(r.timestamp, 0);
    assert_eq!(r.uptime, Some(3));
}

#[test]
fn all_status_is_a_json_array() {
    let items = vec!["{\"a\":1}".to_string(), "{\"b\":2}".to_string()];
    assert_eq!(json_array(&items), "[{\"a\":1},{\"b\":2}]");
    assert_eq!(json_array(&Vec::new()), "[]");
    assert_eq!(json_array(&vec!["1".to_string()]), "[1]");
    let resp = all_status_response("".to_string(), &items);
    assert!(resp.success);
    assert_eq!(resp.message.as_deref(), Some("[{\"a\":1},{\"b\":2}]"));
}

#[test]
fn frame_is_cut_at_last_marker() {
    let marker = b"-EOL-".to_vec();
    let mut buf = b"abc-EOL-def-EOL-".to_vec();
    strip_trailing_marker(&mut buf, &marker);
    assert_eq!(buf, b"abc-EOL-def".to_vec());
    let mut plain = b"abc".to_vec();
    strip_trailing_marker(&mut plain, &marker);
    assert_eq!(plain, b"abc".to_vec());
}

#[test]
fn keep_last_preserves_order() {
    let mut v = vec![1, 2, 3, 4, 5];
    keep_last(&mut v, 2);
    assert_eq!(v, vec![4, 5]);
    let mut w = vec![1, 2];
    keep_last(&mut w, 5);
    assert_eq!(w, vec![1, 2]);
}
