//! The direct launch path: deciding, for a resolved application, whether to
//! adopt its running process, launch it, or leave it, and how to launch it.
use vstd::prelude::*;
use crate::keyed::covered_by;
use crate::reconcile::{Handler, Registry, SupervisedProcesses};
use crate::resolve::CatalogEntry;
use crate::text::joined;

verus! {

/// The user and group a client application runs as when its environment
/// names none.
pub const DEFAULT_CLIENT_UID: u32 = 33;

/// How to launch an application.
pub struct LaunchSettings {
    pub program: String,
    pub working_dir: String,
    pub uid: Option<u32>,
    pub gid: Option<u32>,
    pub env: Vec<(String, String)>,
}

/// What to do with a resolved application at launch time.
pub enum LaunchDecision {
    /// Its binary is missing: leave it.
    Skip,
    /// Its recorded process is alive: adopt it.
    Adopt(u32),
    /// Launch it.
    Launch(LaunchSettings),
}

/// The configuration directory of an application, its working directory.
pub open spec fn working_dir_of(name: Seq<char>) -> Seq<char> {
    "/etc/"@ + name + "/"@
}

/// The node version manager directory every client application gets.
pub open spec fn nvm_dir() -> Seq<char> {
    "/var/www/.nvm"@
}

/// The search path of a client application without an environment file.
pub open spec fn default_client_path() -> Seq<char> {
    "/var/www/.nvm/versions/node/v23.5.0/bin:/usr/local/bin:/usr/bin:/bin"@
}

/// The views of an environment list.
pub open spec fn env_views(env: Seq<(String, String)>) -> Seq<(Seq<char>, Seq<char>)> {
    env.map_values(|p: (String, String)| (p.0@, p.1@))
}

/// The settings of a launch: system applications run as they are; client
/// applications run as the environment's user (or the default one), with
/// its search path when it sets one (or the default path when there is no
/// environment), and always with the version manager directory.
pub open spec fn launch_settings_ok(s: LaunchSettings, entry: CatalogEntry, system: bool) -> bool {
    &&& s.program == entry.path
    &&& s.working_dir@ == working_dir_of(entry.name@)
    &&& if system {
        s.uid is None && s.gid is None && s.env@.len() == 0
    } else {
        match entry.config.environment {
            Some(e) => {
                let uid = match e.execution_uid {
                    Some(u) => u,
                    None => DEFAULT_CLIENT_UID,
                };
                &&& s.uid == Some(uid)
                &&& s.gid == Some(uid)
                &&& env_views(s.env@) == match e.path_modifier {
                    Some(p) => seq![("PATH"@, p@), ("NVM_DIR"@, nvm_dir())],
                    None => seq![("NVM_DIR"@, nvm_dir())],
                }
            },
            None => {
                &&& s.uid is None
                &&& s.gid is None
                &&& env_views(s.env@) == seq![("NVM_DIR"@, nvm_dir()), ("PATH"@, default_client_path())]
            },
        }
    }
}

fn pair(k: &str, v: &str) -> (r: (String, String))
    ensures
        r.0@ == k@,
        r.1@ == v@,
{
    (k.to_owned(), v.to_owned())
}

/// Decides what to do with a resolved application at launch time, given
/// whether its recorded PID could be reclaimed.
pub fn launch_decision(entry: &CatalogEntry, system: bool, reclaimed: bool) -> (r: LaunchDecision)
    ensures
        !entry.exists ==> r is Skip,
        entry.exists && reclaimed ==> r == LaunchDecision::Adopt(entry.config.state.pid),
        entry.exists && !reclaimed ==> r is Launch && launch_settings_ok(r->Launch_0, *entry, system),
{
    if !entry.exists {
        return LaunchDecision::Skip;
    }
    if reclaimed {
        return LaunchDecision::Adopt(entry.config.state.pid);
    }
    proof {
        reveal_strlit("/etc/");
        reveal_strlit("/");
        reveal_strlit("PATH");
        reveal_strlit("NVM_DIR");
        reveal_strlit("/var/www/.nvm");
        reveal_strlit("/var/www/.nvm/versions/node/v23.5.0/bin:/usr/local/bin:/usr/bin:/bin");
    }
    let head = joined("/etc/", entry.name.as_str());
    let working_dir = joined(head.as_str(), "/");
    assert(working_dir@ =~= working_dir_of(entry.name@));
    let program = entry.path.clone();
    if system {
        return LaunchDecision::Launch(LaunchSettings { program, working_dir, uid: None, gid: None, env: Vec::new() });
    }
    let mut env: Vec<(String, String)> = Vec::new();
    let (uid, gid) = match &entry.config.environment {
        Some(e) => {
            let uid = match e.execution_uid {
                Some(u) => u,
                None => DEFAULT_CLIENT_UID,
            };
            match &e.path_modifier {
                Some(p) => {
                    env.push(pair("PATH", p.as_str()));
                },
                None => {},
            }
            env.push(pair("NVM_DIR", "/var/www/.nvm"));
            (Some(uid), Some(uid))
        },
        None => {
            env.push(pair("NVM_DIR", "/var/www/.nvm"));
            env.push(pair("PATH", "/var/www/.nvm/versions/node/v23.5.0/bin:/usr/local/bin:/usr/bin:/bin"));
            (None, None)
        },
    };
    let r = LaunchSettings { program, working_dir, uid, gid, env };
    assert(env_views(r.env@) =~= match entry.config.environment {
        Some(e) => match e.path_modifier {
            Some(p) => seq![("PATH"@, p@), ("NVM_DIR"@, nvm_dir())],
            None => seq![("NVM_DIR"@, nvm_dir())],
        },
        None => seq![("NVM_DIR"@, nvm_dir()), ("PATH"@, default_client_path())],
    });
    LaunchDecision::Launch(r)
}

/// Records a process this engine launched for `name`. Like adoption, it
/// never duplicates a handler entry and never creates one without a status.
pub fn register_child(handler: &mut Handler, registry: &Registry, name: &String, pid: u32)
    requires
        old(handler).wf(),
        registry.wf(),
        covered_by(*old(handler), *registry),
    ensures
        final(handler).wf(),
        covered_by(*final(handler), *registry),
        old(handler).has(name@) || !registry.has(name@) ==> *final(handler) == *old(handler),
        !old(handler).has(name@) && registry.has(name@) ==> final(handler).entries@ == old(handler).entries@.push(
            (*name, SupervisedProcesses::Child { pid }),
        ),
{
    if handler.contains(name) || !registry.contains(name) {
        return;
    }
    handler.insert_new(name.clone(), SupervisedProcesses::Child { pid });
    assert forall|x: int| 0 <= x < handler.len_spec() implies registry.has(#[trigger] handler.key_at(x)) by {
        if x < old(handler).len_spec() {
            assert(handler.key_at(x) == old(handler).key_at(x));
        }
    }
}

} // verus!
