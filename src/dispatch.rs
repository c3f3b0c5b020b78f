//! The command dispatcher's decisions: what each request asks of the
//! engine, and the responses it gets.
use vstd::prelude::*;
use crate::model::{AppError, AppStatus};
use crate::text::{joined, json_array, json_array_of};

verus! {

/// The name of the supervisor itself among the managed applications.
pub open spec fn manager_name() -> Seq<char> {
    "ais_manager"@
}

/// The operations a command may request.
#[derive(Clone, Debug)]
pub enum CommandType {
    Start,
    Stop,
    Restart,
    Status,
    AllStatus,
    Info,
    Custom(String),
}

/// A request for one operation on one application.
#[derive(Clone, Debug)]
pub struct Command {
    pub app_id: String,
    pub command_type: CommandType,
}

/// The answer to a command.
#[derive(Clone, Debug)]
pub struct CommandResponse {
    pub app_id: String,
    pub command_type: CommandType,
    pub success: bool,
    pub message: Option<String>,
}

/// What the dispatcher does with a command.
pub enum Plan {
    /// Answer at once.
    Respond(CommandResponse),
    /// Signal the supervisor's own shutdown, then answer.
    Shutdown(CommandResponse),
    /// Signal the supervisor's own reload, then answer.
    Reload(CommandResponse),
    /// Start the application.
    Start(String),
    /// Stop the application.
    Stop(String),
    /// Reload the application.
    Restart(String),
    /// Report the application's status.
    Status(String),
    /// Report every application's status.
    AllStatus(String),
    /// Report the manager summary.
    Info,
}

/// `m` holds the text `t`.
pub open spec fn message_is(m: Option<String>, t: Seq<char>) -> bool {
    match m {
        Some(s) => s@ == t,
        None => false,
    }
}

/// The refusal of a command that could not pass the pause gate.
pub open spec fn is_refusal(resp: CommandResponse, command_type: CommandType) -> bool {
    &&& resp.app_id@ == Seq::<char>::empty()
    &&& resp.command_type == command_type
    &&& !resp.success
    &&& message_is(resp.message, "Server not accepting requests"@)
}

/// The acknowledgement of a stop of the supervisor itself.
pub open spec fn is_shutdown_ack(resp: CommandResponse, app_id: String) -> bool {
    &&& resp.app_id == app_id
    &&& resp.command_type == CommandType::Restart
    &&& resp.success
    &&& message_is(resp.message, "triggered manager shutdown !"@)
}

/// The acknowledgement of a restart of the supervisor itself.
pub open spec fn is_reload_ack(resp: CommandResponse, app_id: String) -> bool {
    &&& resp.app_id == app_id
    &&& resp.command_type == CommandType::Restart
    &&& resp.success
    &&& resp.message is None
}

/// The answer to a command the dispatcher does not implement.
pub open spec fn is_not_implemented(resp: CommandResponse, app_id: String) -> bool {
    &&& resp.app_id == app_id
    &&& match resp.command_type {
        CommandType::Custom(c) => c@ == "command not found"@,
        _ => false,
    }
    &&& !resp.success
    &&& message_is(resp.message, "Request not implemented"@)
}

/// Whether the text is the supervisor's own name.
fn is_manager(app_id: &String) -> (r: bool)
    ensures
        r == (app_id@ == manager_name()),
{
    let own = "ais_manager".to_owned();
    proof { reveal_strlit("ais_manager"); }
    *app_id == own
}

/// Decides what to do with a command. When the pause gate could not be
/// passed in time, the command is refused with "Server not accepting
/// requests". A stop of the supervisor itself becomes a shutdown and a
/// restart of it a reload; custom commands are not implemented.
pub fn plan_command(command: Command, gate_open: bool) -> (r: Plan)
    ensures
        !gate_open ==> (r is Respond && is_refusal(r->Respond_0, command.command_type)),
        gate_open ==> match command.command_type {
            CommandType::Start => r == Plan::Start(command.app_id),
            CommandType::Stop => if command.app_id@ == manager_name() {
                r is Shutdown && is_shutdown_ack(r->Shutdown_0, command.app_id)
            } else {
                r == Plan::Stop(command.app_id)
            },
            CommandType::Restart => if command.app_id@ == manager_name() {
                r is Reload && is_reload_ack(r->Reload_0, command.app_id)
            } else {
                r == Plan::Restart(command.app_id)
            },
            CommandType::Status => r == Plan::Status(command.app_id),
            CommandType::AllStatus => r == Plan::AllStatus(command.app_id),
            CommandType::Info => r == Plan::Info,
            CommandType::Custom(_) => r is Respond && is_not_implemented(r->Respond_0, command.app_id),
        },
{
    proof {
        reveal_strlit("Server not accepting requests");
        reveal_strlit("triggered manager shutdown !");
        reveal_strlit("command not found");
        reveal_strlit("Request not implemented");
    }
    if !gate_open {
        return Plan::Respond(CommandResponse {
            app_id: String::new(),
            command_type: command.command_type,
            success: false,
            message: Some("Server not accepting requests".to_owned()),
        });
    }
    let app_id = command.app_id;
    match command.command_type {
        CommandType::Start => Plan::Start(app_id),
        CommandType::Stop => {
            if is_manager(&app_id) {
                Plan::Shutdown(CommandResponse {
                    app_id,
                    command_type: CommandType::Restart,
                    success: true,
                    message: Some("triggered manager shutdown !".to_owned()),
                })
            } else {
                Plan::Stop(app_id)
            }
        },
        CommandType::Restart => {
            if is_manager(&app_id) {
                Plan::Reload(CommandResponse {
                    app_id,
                    command_type: CommandType::Restart,
                    success: true,
                    message: None,
                })
            } else {
                Plan::Restart(app_id)
            }
        },
        CommandType::Status => Plan::Status(app_id),
        CommandType::AllStatus => Plan::AllStatus(app_id),
        CommandType::Info => Plan::Info,
        CommandType::Custom(_) => Plan::Respond(CommandResponse {
            app_id,
            command_type: CommandType::Custom("command not found".to_owned()),
            success: false,
            message: Some("Request not implemented".to_owned()),
        }),
    }
}

/// The answer to a start, stop or restart: success with no message, or
/// failure with the error's message.
pub fn lifecycle_response(app_id: String, command_type: CommandType, outcome: Result<(), AppError>) -> (r: CommandResponse)
    ensures
        r.app_id == app_id,
        r.command_type == command_type,
        r.success == outcome is Ok,
        outcome is Ok ==> r.message is None,
        outcome matches Err(e) ==> r.message == Some(e.message),
{
    match outcome {
        Ok(()) => CommandResponse { app_id, command_type, success: true, message: None },
        Err(e) => CommandResponse { app_id, command_type, success: false, message: Some(e.message) },
    }
}

/// The status as it is reported: with its timestamp zeroed.
pub fn for_report(status: AppStatus) -> (r: AppStatus)
    ensures
        r == (AppStatus { timestamp: 0, ..status }),
{
    let mut r = status;
    r.timestamp = 0;
    r
}

/// The answer to a status request for an application the registry holds,
/// given its status as JSON.
pub fn status_found(app_id: String, json: String) -> (r: CommandResponse)
    ensures
        r.app_id == app_id,
        r.command_type == CommandType::Status,
        r.success,
        r.message == Some(json),
{
    CommandResponse { app_id, command_type: CommandType::Status, success: true, message: Some(json) }
}

/// The message for a status request on an unknown application.
pub open spec fn not_in_store_message(app_id: Seq<char>) -> Seq<char> {
    "The app: "@ + app_id + ", wasn't in our store"@
}

/// The answer to a status request for an application the registry does not hold.
pub fn status_missing(app_id: String) -> (r: CommandResponse)
    ensures
        r.app_id == app_id,
        r.command_type == CommandType::Status,
        !r.success,
        message_is(r.message, not_in_store_message(app_id@)),
{
    let head = joined("The app: ", app_id.as_str());
    let message = joined(head.as_str(), ", wasn't in our store");
    proof {
        reveal_strlit("The app: ");
        reveal_strlit(", wasn't in our store");
        assert(message@ =~= not_in_store_message(app_id@));
    }
    CommandResponse { app_id, command_type: CommandType::Status, success: false, message: Some(message) }
}

/// The answer to a request for every status, given each status as JSON: a
/// JSON array of them.
pub fn all_status_response(app_id: String, statuses: &Vec<String>) -> (r: CommandResponse)
    ensures
        r.app_id == app_id,
        r.command_type == CommandType::AllStatus,
        r.success,
        message_is(r.message, json_array_of(statuses@.map_values(|s: String| s@))),
{
    let body = json_array(statuses);
    CommandResponse { app_id, command_type: CommandType::AllStatus, success: true, message: Some(body) }
}

} // verus!
