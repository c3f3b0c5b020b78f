//! The data the engine keeps about each managed application.
use vstd::prelude::*;

verus! {

/// The state of a managed application.
#[derive(Clone, Copy, Debug, PartialEq, Eq, Structural)]
pub enum Status {
    Running,
    Idle,
    Warning,
    Stopping,
    Stopped,
    Starting,
    Unknown,
}

/// The kinds of failure the engine tells apart.
#[derive(Clone, Copy, Debug, PartialEq, Eq, Structural)]
pub enum ErrorKind {
    NotFound,
    NoSuchSupervisedProcess,
    LockTimeout,
    Io,
    ConfigParsing,
    Network,
    Authentication,
    AppState,
    Unauthorized,
    General,
}

/// One error: its kind and a message.
#[derive(Clone, Debug)]
pub struct AppError {
    pub kind: ErrorKind,
    pub message: String,
}

impl View for AppError {
    type V = (ErrorKind, Seq<char>);

    open spec fn view(&self) -> (ErrorKind, Seq<char>) {
        (self.kind, self.message@)
    }
}

/// The views of a list of errors.
pub open spec fn error_views(errors: Seq<AppError>) -> Seq<(ErrorKind, Seq<char>)> {
    errors.map_values(|e: AppError| e@)
}

/// Bytes received and sent by a service.
#[derive(Clone, Copy, Debug, PartialEq, Eq, Structural)]
pub struct NetworkUsage {
    pub rx_bytes: u64,
    pub tx_bytes: u64,
}

/// A resource sample. CPU is in thousandths of a percent and memory in
/// kibibytes, so that the sample is held in integers.
#[derive(Clone, Copy, Debug, PartialEq, Eq, Structural)]
pub struct Metrics {
    pub cpu_milli_percent: u64,
    pub memory_kib: u64,
    pub network: Option<NetworkUsage>,
}

/// How a client application is to be run.
#[derive(Clone, Debug)]
pub struct Environment {
    pub execution_uid: Option<u32>,
    pub path_modifier: Option<String>,
}

/// What a managed application persists about itself.
#[derive(Clone, Debug)]
pub struct AppState {
    pub name: String,
    pub version: String,
    pub data: String,
    pub last_updated: u64,
    pub event_counter: u64,
    pub pid: u32,
    pub status: Status,
    pub error_log: Vec<AppError>,
    pub stdout: Vec<String>,
    pub stderr: Vec<String>,
    pub system_application: bool,
    pub started_at: u64,
}

/// The last persisted state of an application and its optional environment.
#[derive(Clone, Debug)]
pub struct ApplicationConfig {
    pub state: AppState,
    pub environment: Option<Environment>,
}

/// The live picture of one application in the status registry.
#[derive(Clone, Debug)]
pub struct AppStatus {
    pub app_id: String,
    pub git_id: String,
    pub app_data: ApplicationConfig,
    pub uptime: Option<u64>,
    pub metrics: Option<Metrics>,
    pub timestamp: u64,
    pub expected_status: Status,
}

impl AppStatus {
    pub open spec fn status(&self) -> Status {
        self.app_data.state.status
    }

    pub open spec fn errors(&self) -> Seq<(ErrorKind, Seq<char>)> {
        error_views(self.app_data.state.error_log@)
    }
}

/// Seconds from `since` to `now`, or zero when `since` lies in the future.
pub open spec fn elapsed(now: u64, since: u64) -> u64 {
    if since <= now {
        (now - since) as u64
    } else {
        0
    }
}

/// Computes `elapsed`.
pub fn seconds_since(now: u64, since: u64) -> (r: u64)
    ensures
        r == elapsed(now, since),
{
    if since <= now {
        now - since
    } else {
        0
    }
}

} // verus!
