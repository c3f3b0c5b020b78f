use ais_manager::identity::{app_id, short_id};
use ais_manager::keyed::Keyed;
use ais_manager::model::{AppState, ApplicationConfig, Status};
use ais_manager::resolve::{initial_status, is_system_name, populate, select_client_names, stripped_name, system_application_names};

fn strings(items: &[&str]) -> Vec<String> {
    items.iter().map(|s| s.to_string()).collect()
}

fn config(name: &str, system: bool) -> ApplicationConfig {
    ApplicationConfig {
        state: AppState {
            name: name.to_string(),
            version: "1.0.0".to_string(),
            data: String::new(),
            last_updated: 10,
            event_counter: 0,
            pid: 42,
            status: Status::Running,
            error_log: Vec::new(),
            stdout: Vec::new(),
            stderr: Vec::new(),
            system_application: system,
            started_at: 1234,
        },
        environment: None,
    }
}

#[test]
fn system_names_are_prefixed_and_self_is_manager() {
    assert_eq!(system_application_names(), strings(&["ais_gitmon", "ais_manager", "ais_mailler"]));
    assert!(is_system_name(&"ais_mailler".to_string()));
    assert!(!is_system_name(&"gitmon".to_string()));
}

#[test]
fn stripped_name_drops_only_the_prefix() {
    assert_eq!(stripped_name(&"ais_abc123".to_string()), "abc123");
    assert_eq!(stripped_name(&"abc123".to_string()), "abc123");
    assert_eq!(stripped_name(&"x_ais_abc".to_string()), "x_ais_abc");
}

#[test]
fn client_selection_filters_system_and_unknown_projects() {
    let files = strings(&["ais_gitmon", "ais_abc", "ais_zzz", "ais_def", "readme", "ais_manager"]);
    let projects = strings(&["abc", "def", "gitmon", "manager"]);
    assert_eq!(select_client_names(&files, &projects), strings(&["ais_abc", "ais_def"]));
    assert!(select_client_names(&Vec::new(), &projects).is_empty());
    assert!(select_client_names(&files, &Vec::new()).is_empty());
}

#[test]
fn app_id_is_twenty_hex_characters() {
    let id = app_id(&"machine-1".to_string(), &"ais_gitmon".to_string());
    assert_eq!(id.chars().count(), 20);
    assert!(id.chars().all(|c| c.is_ascii_hexdigit()));
    assert_eq!(id, app_id(&"machine-1".to_string(), &"ais_gitmon".to_string()));
    assert_ne!(id, app_id(&"machine-2".to_string(), &"ais_gitmon".to_string()));
}

#[test]
fn app_id_of_known_digest() {
    // SHA-256 of "m-a"
    let id = app_id(&"m".to_string(), &"a".to_string());
    assert_eq!(id, "4ae9fabed083eaac1c66");
}

#[test]
fn short_id_keeps_twenty_characters() {
    let digest = "0123456789abcdef0123456789abcdef".to_string();
    assert_eq!(short_id(&digest), "0123456789abcdef0123");
    assert_eq!(short_id(&"abc".to_string()), "abc");
}

#[test]
fn initial_status_of_client_and_system_apps() {
    let client = initial_status(&"m".to_string(), &"ais_abc".to_string(), config("ais_abc", false));
    assert_eq!(client.git_id, "abc");
    assert_eq!(client.expected_status, Status::Idle);
    assert_eq!(client.timestamp, 1234);
    assert_eq!(client.uptime, None);
    assert_eq!(client.metrics, None);
    assert_eq!(client.app_id.chars().count(), 20);
    let system = initial_status(&"m".to_string(), &"ais_gitmon".to_string(), config("ais_gitmon", true));
    assert_eq!(system.git_id, "");
    assert_eq!(system.expected_status, Status::Running);
}

#[test]
fn populate_adds_and_replaces() {
    let mut registry = Keyed::new();
    let mut apps: Keyed<ApplicationConfig> = Keyed::new();
    apps.entries.push(("ais_gitmon".to_string(), config("ais_gitmon", true)));
    apps.entries.push(("ais_abc".to_string(), config("ais_abc", false)));
    populate(&mut registry, apps, &"m".to_string());
    assert_eq!(registry.entries.len(), 2);
    let mut again: Keyed<ApplicationConfig> = Keyed::new();
    let mut changed = config("ais_abc", false);
    changed.state.started_at = 99;
    again.entries.push(("ais_abc".to_string(), changed));
    populate(&mut registry, again, &"m".to_string());
    assert_eq!(registry.entries.len(), 2);
    let abc = registry.entries.iter().find(|(k, _)| k == "ais_abc").unwrap();
    assert_eq!(abc.1.timestamp, 99);
}
