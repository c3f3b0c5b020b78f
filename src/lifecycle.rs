//! Start, stop and reload of managed applications: what the status picture
//! and the handler maps become, and what the unit service is then asked.
use vstd::prelude::*;
use crate::keyed::covered_by;
use crate::model::{AppError, AppState, AppStatus, ApplicationConfig, ErrorKind, Status};
use crate::reconcile::{same_keys, Handler, Registry};
use crate::text::joined;

verus! {

/// What the unit service is asked to stop: the unit's name and the PID to
/// kill if the unit stays active.
pub struct StopOrder {
    pub name: String,
    pub pid: u32,
}

/// The picture of an application that is being stopped on request.
pub open spec fn halted_record(a: AppStatus) -> AppStatus {
    AppStatus {
        app_data: ApplicationConfig {
            state: AppState { status: Status::Stopped, ..a.app_data.state },
            ..a.app_data
        },
        metrics: None,
        uptime: None,
        ..a
    }
}

/// The error for an application that the registry does not hold.
pub open spec fn not_registered_message(app_id: Seq<char>) -> Seq<char> {
    app_id + ", Not registered in the system"@
}

fn not_registered(app_id: &String) -> (e: AppError)
    ensures
        e@ == (ErrorKind::NotFound, not_registered_message(app_id@)),
{
    let message = joined(app_id.as_str(), ", Not registered in the system");
    proof { reveal_strlit(", Not registered in the system"); }
    AppError { kind: ErrorKind::NotFound, message }
}

/// Stops the application `app_id`: marks it stopped with no metrics and no
/// uptime, and drops its handle from the handler map of its class (system or
/// client). Fails with `NotFound`, changing nothing, when the registry does
/// not hold it. On success returns the unit to stop and the PID to kill.
pub fn stop_application(
    registry: &mut Registry,
    system_handler: &mut Handler,
    client_handler: &mut Handler,
    app_id: &String,
) -> (r: Result<StopOrder, AppError>)
    requires
        old(registry).wf(),
        old(system_handler).wf(),
        old(client_handler).wf(),
        covered_by(*old(system_handler), *old(registry)),
        covered_by(*old(client_handler), *old(registry)),
    ensures
        final(registry).wf(),
        final(system_handler).wf(),
        final(client_handler).wf(),
        covered_by(*final(system_handler), *final(registry)),
        covered_by(*final(client_handler), *final(registry)),
        same_keys(*old(registry), *final(registry)),
        !old(registry).has(app_id@) ==> {
            &&& r matches Err(e) && e@ == (ErrorKind::NotFound, not_registered_message(app_id@))
            &&& *final(registry) == *old(registry)
            &&& *final(system_handler) == *old(system_handler)
            &&& *final(client_handler) == *old(client_handler)
        },
        old(registry).has(app_id@) ==> exists|i: int|
            0 <= i < old(registry).len_spec() && #[trigger] old(registry).key_at(i) == app_id@ && ({
                let a = old(registry).value_at(i);
                let system = a.app_data.state.system_application;
                &&& r matches Ok(o) && o.name == a.app_data.state.name && o.pid == a.app_data.state.pid
                &&& final(registry).entries@ == old(registry).entries@.update(i, (old(registry).entries@[i].0, halted_record(a)))
                &&& !final(system_handler).has(app_id@) || !system
                &&& !final(client_handler).has(app_id@) || system
                &&& system ==> *final(client_handler) == *old(client_handler)
                &&& !system ==> *final(system_handler) == *old(system_handler)
                &&& forall|x: Seq<char>| x != app_id@ ==> (#[trigger] final(system_handler).has(x) <==> old(system_handler).has(x))
                &&& forall|x: Seq<char>| x != app_id@ ==> (#[trigger] final(client_handler).has(x) <==> old(client_handler).has(x))
            }),
{
    match registry.find(app_id) {
        None => Err(not_registered(app_id)),
        Some(i) => {
            let ghost before = *registry;
            let (k, mut app) = registry.entries.remove(i);
            let system = app.app_data.state.system_application;
            if system {
                let _ = system_handler.remove_key(app_id);
            } else {
                let _ = client_handler.remove_key(app_id);
            }
            app.app_data.state.status = Status::Stopped;
            app.metrics = None;
            app.uptime = None;
            let order = StopOrder { name: app.app_data.state.name.clone(), pid: app.app_data.state.pid };
            registry.entries.insert(i, (k, app));
            proof {
                assert(registry.entries@ =~= before.entries@.update(i as int, (before.entries@[i as int].0, halted_record(before.value_at(i as int)))));
                assert forall|j: int| 0 <= j < before.len_spec() implies #[trigger] registry.entries@[j].0 == before.entries@[j].0 by {}
                assert forall|a: int, b: int|
                    0 <= a < registry.len_spec() && 0 <= b < registry.len_spec() && a != b
                        implies #[trigger] registry.key_at(a) != #[trigger] registry.key_at(b) by {
                    assert(before.key_at(a) == registry.key_at(a));
                    assert(before.key_at(b) == registry.key_at(b));
                }
                assert forall|k2: Seq<char>| before.has(k2) implies registry.has(k2) by {
                    let j = choose|j: int| 0 <= j < before.len_spec() && #[trigger] before.key_at(j) == k2;
                    assert(registry.key_at(j) == k2);
                }
                assert forall|h: int| 0 <= h < system_handler.len_spec() implies registry.has(#[trigger] system_handler.key_at(h)) by {
                    let x = system_handler.key_at(h);
                    assert(system_handler.has(x));
                    if x != app_id@ || !system {
                        assert(old(system_handler).has(x));
                        let h0 = choose|h0: int| 0 <= h0 < old(system_handler).len_spec() && #[trigger] old(system_handler).key_at(h0) == x;
                        assert(before.has(old(system_handler).key_at(h0)));
                    } else {
                        assert(system_handler.has(x));
                    }
                }
                assert forall|h: int| 0 <= h < client_handler.len_spec() implies registry.has(#[trigger] client_handler.key_at(h)) by {
                    let x = client_handler.key_at(h);
                    assert(client_handler.has(x));
                    if x != app_id@ || system {
                        assert(old(client_handler).has(x));
                        let h0 = choose|h0: int| 0 <= h0 < old(client_handler).len_spec() && #[trigger] old(client_handler).key_at(h0) == x;
                        assert(before.has(old(client_handler).key_at(h0)));
                    } else {
                        assert(client_handler.has(x));
                    }
                }
            }
            Ok(order)
        },
    }
}

/// The PID to signal to reload `app_id`: that of its handle in the client
/// handler map, or else in the system one. Fails with `NotFound` when the
/// registry does not hold it or no handler does. Nothing is changed.
pub fn reload_application(registry: &Registry, system_handler: &Handler, client_handler: &Handler, app_id: &String) -> (r: Result<u32, AppError>)
    ensures
        !registry.has(app_id@) || (!client_handler.has(app_id@) && !system_handler.has(app_id@)) ==> (r matches Err(e)
            && e@ == (ErrorKind::NotFound, not_registered_message(app_id@))),
        registry.has(app_id@) && client_handler.has(app_id@) ==> exists|i: int|
            0 <= i < client_handler.len_spec() && #[trigger] client_handler.key_at(i) == app_id@
                && r == Ok::<u32, AppError>(client_handler.value_at(i).pid_spec()),
        registry.has(app_id@) && !client_handler.has(app_id@) && system_handler.has(app_id@) ==> exists|i: int|
            0 <= i < system_handler.len_spec() && #[trigger] system_handler.key_at(i) == app_id@
                && r == Ok::<u32, AppError>(system_handler.value_at(i).pid_spec()),
{
    if !registry.contains(app_id) {
        return Err(not_registered(app_id));
    }
    match client_handler.find(app_id) {
        Some(i) => {
            return Ok(client_handler.entries[i].1.get_pid());
        },
        None => {},
    }
    match system_handler.find(app_id) {
        Some(i) => Ok(system_handler.entries[i].1.get_pid()),
        None => Err(not_registered(app_id)),
    }
}

/// The error for a start request on an application without state.
pub open spec fn not_loaded_message(app_id: Seq<char>) -> Seq<char> {
    "State data for: "@ + app_id + " not loaded"@
}

/// The unit to start for `app_id`: the name its state carries. Fails with
/// `NotFound` when the registry does not hold it.
pub fn start_application(registry: &Registry, app_id: &String) -> (r: Result<String, AppError>)
    ensures
        !registry.has(app_id@) ==> (r matches Err(e) && e@ == (ErrorKind::NotFound, not_loaded_message(app_id@))),
        registry.has(app_id@) ==> exists|i: int|
            0 <= i < registry.len_spec() && #[trigger] registry.key_at(i) == app_id@
                && (r matches Ok(n) && n@ == registry.value_at(i).app_data.state.name@),
{
    match registry.find(app_id) {
        Some(i) => Ok(registry.entries[i].1.app_data.state.name.clone()),
        None => {
            let head = joined("State data for: ", app_id.as_str());
            let message = joined(head.as_str(), " not loaded");
            proof {
                reveal_strlit("State data for: ");
                reveal_strlit(" not loaded");
                assert(message@ =~= not_loaded_message(app_id@));
            }
            Err(AppError { kind: ErrorKind::NotFound, message })
        },
    }
}

/// A start that the unit service refused.
pub fn start_refused(reason: String) -> (e: AppError)
    ensures
        e.kind == ErrorKind::Unauthorized,
        e.message == reason,
{
    AppError { kind: ErrorKind::Unauthorized, message: reason }
}

} // verus!
