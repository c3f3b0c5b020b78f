//! Resolution of the managed applications: the fixed set of system
//! applications, the client applications that the portal credentials allow,
//! and the initial status of each.
use vstd::prelude::*;
use crate::identity::{app_id, app_id_of};
use crate::keyed::Keyed;
use crate::model::{ApplicationConfig, AppStatus, Status};
use crate::reconcile::Registry;

verus! {

/// A resolved application: its name, its binary, whether the binary exists,
/// and its last persisted state.
pub struct CatalogEntry {
    pub name: String,
    pub path: String,
    pub exists: bool,
    pub config: ApplicationConfig,
}

/// An entry of the system-application catalog.
pub type SystemApplication = CatalogEntry;

/// An entry of the client-application catalog.
pub type ClientApplication = CatalogEntry;

/// The prefix of every managed application's name.
pub open spec fn app_prefix() -> Seq<char> {
    "ais_"@
}

/// The names under which the system applications are managed.
pub open spec fn system_names() -> Seq<Seq<char>> {
    seq!["ais_gitmon"@, "ais_manager"@, "ais_mailler"@]
}

/// The names under which the system applications are managed: `ais_`
/// before each, and the supervisor itself as `ais_manager`.
pub fn system_application_names() -> (r: Vec<String>)
    ensures
        r@.map_values(|s: String| s@) == system_names(),
{
    let r = vec!["ais_gitmon".to_owned(), "ais_manager".to_owned(), "ais_mailler".to_owned()];
    proof {
        reveal_strlit("ais_gitmon");
        reveal_strlit("ais_manager");
        reveal_strlit("ais_mailler");
        assert(r@.map_values(|s: String| s@) =~= system_names());
    }
    r
}

/// Whether `name` is one of the system applications.
pub fn is_system_name(name: &String) -> (r: bool)
    ensures
        r == system_names().contains(name@),
{
    let names = system_application_names();
    let mut i: usize = 0;
    while i < names.len()
        invariant
            i <= names@.len(),
            names@.map_values(|s: String| s@) == system_names(),
            forall|j: int| 0 <= j < i ==> system_names()[j] != name@,
        decreases names.len() - i,
    {
        if names[i] == *name {
            assert(system_names()[i as int] == name@);
            return true;
        }
        i = i + 1;
    }
    false
}

/// Relies on `str::strip_prefix`: the rest of `s` when it starts with `prefix`.
#[verifier::external_body]
fn after_prefix(s: &str, prefix: &str) -> (r: Option<String>)
    ensures
        prefix@.is_prefix_of(s@) ==> r is Some && r->0@ == s@.skip(prefix@.len() as int),
        !prefix@.is_prefix_of(s@) ==> r is None,
{
    match s.strip_prefix(prefix) {
        Some(t) => Some(t.to_owned()),
        None => None,
    }
}

/// `name` without the `ais_` prefix, when it has one.
pub open spec fn stripped(name: Seq<char>) -> Seq<char> {
    if app_prefix().is_prefix_of(name) {
        name.skip(4)
    } else {
        name
    }
}

/// Computes `stripped`.
pub fn stripped_name(name: &String) -> (r: String)
    ensures
        r@ == stripped(name@),
{
    proof { reveal_strlit("ais_"); }
    match after_prefix(name.as_str(), "ais_") {
        Some(t) => t,
        None => name.clone(),
    }
}

/// A file of the binary directory is a client application when it is not a
/// system application and its stripped name is an allowed project.
pub open spec fn is_client(name: Seq<char>, projects: Seq<Seq<char>>) -> bool {
    !system_names().contains(name) && projects.contains(stripped(name))
}

/// The client applications among `files`, in their order.
pub open spec fn client_names(files: Seq<Seq<char>>, projects: Seq<Seq<char>>) -> Seq<Seq<char>>
    decreases files.len(),
{
    if files.len() == 0 {
        Seq::empty()
    } else {
        let rest = client_names(files.drop_last(), projects);
        if is_client(files.last(), projects) {
            rest.push(files.last())
        } else {
            rest
        }
    }
}

fn contains_text(items: &Vec<String>, s: &String) -> (r: bool)
    ensures
        r == items@.map_values(|t: String| t@).contains(s@),
{
    let ghost views = items@.map_values(|t: String| t@);
    let mut i: usize = 0;
    while i < items.len()
        invariant
            i <= items@.len(),
            views == items@.map_values(|t: String| t@),
            forall|j: int| 0 <= j < i ==> views[j] != s@,
        decreases items.len() - i,
    {
        if items[i] == *s {
            assert(views[i as int] == s@);
            return true;
        }
        i = i + 1;
    }
    false
}

/// Selects the client applications among the files of the binary
/// directory: those that are not system applications and whose name,
/// without `ais_`, is one of the allowed project identifiers.
pub fn select_client_names(files: &Vec<String>, projects: &Vec<String>) -> (r: Vec<String>)
    ensures
        r@.map_values(|s: String| s@) == client_names(
            files@.map_values(|s: String| s@),
            projects@.map_values(|s: String| s@),
        ),
{
    let ghost fv = files@.map_values(|s: String| s@);
    let ghost pv = projects@.map_values(|s: String| s@);
    let mut r: Vec<String> = Vec::new();
    let mut i: usize = 0;
    while i < files.len()
        invariant
            i <= files@.len(),
            fv == files@.map_values(|s: String| s@),
            pv == projects@.map_values(|s: String| s@),
            r@.map_values(|s: String| s@) == client_names(fv.subrange(0, i as int), pv),
        decreases files.len() - i,
    {
        let name = &files[i];
        let system = is_system_name(name);
        let short = stripped_name(name);
        let allowed = contains_text(projects, &short);
        proof {
            let sub = fv.subrange(0, i + 1);
            assert(sub.drop_last() =~= fv.subrange(0, i as int));
            assert(sub.last() == name@);
        }
        if !system && allowed {
            r.push(name.clone());
            assert(r@.map_values(|s: String| s@) =~= client_names(fv.subrange(0, i as int), pv).push(name@));
        }
        i = i + 1;
    }
    assert(fv.subrange(0, files@.len() as int) =~= fv);
    r
}

/// The portal project of an application: none for a system application,
/// the stripped name for a client one.
pub open spec fn git_id_of(name: Seq<char>, system: bool) -> Seq<char> {
    if system {
        Seq::empty()
    } else {
        stripped(name)
    }
}

/// The status an application is expected to have.
pub open spec fn expected_status_of(system: bool) -> Status {
    if system {
        Status::Running
    } else {
        Status::Idle
    }
}

/// `s` is the initial status of the application `name` with `config` on
/// the machine `machine_id`.
pub open spec fn is_initial_status(s: AppStatus, machine_id: Seq<char>, name: Seq<char>, config: ApplicationConfig) -> bool {
    let system = config.state.system_application;
    &&& s.app_id@ == app_id_of(machine_id, name)
    &&& s.git_id@ == git_id_of(name, system)
    &&& s.app_data == config
    &&& s.uptime is None
    &&& s.metrics is None
    &&& s.timestamp == config.state.started_at
    &&& s.expected_status == expected_status_of(system)
}

/// The initial status of an application.
pub fn initial_status(machine_id: &String, name: &String, config: ApplicationConfig) -> (r: AppStatus)
    ensures
        is_initial_status(r, machine_id@, name@, config),
{
    let system = config.state.system_application;
    let git_id = if system {
        String::new()
    } else {
        stripped_name(name)
    };
    let expected_status = if system {
        Status::Running
    } else {
        Status::Idle
    };
    let timestamp = config.state.started_at;
    AppStatus {
        app_id: app_id(machine_id, name),
        git_id,
        app_data: config,
        uptime: None,
        metrics: None,
        timestamp,
        expected_status,
    }
}

/// The registry holds the initial status of the application `name` with `config`.
pub open spec fn holds_initial(r: Registry, machine_id: Seq<char>, name: Seq<char>, config: ApplicationConfig) -> bool {
    exists|j: int|
        0 <= j < r.len_spec() && #[trigger] r.key_at(j) == name
            && is_initial_status(r.value_at(j), machine_id, name, config)
}

/// Entry `j` of `r` is an entry of `r0`, unchanged.
pub open spec fn kept_from(r0: Registry, r: Registry, j: int) -> bool {
    exists|o: int| 0 <= o < r0.len_spec() && #[trigger] r0.key_at(o) == r.key_at(j) && r.value_at(j) == r0.value_at(o)
}

/// Some application at or after `lo` in `apps` is named `k`.
pub open spec fn named_from(apps: Keyed<ApplicationConfig>, lo: int, k: Seq<char>) -> bool {
    exists|x: int| lo <= x < apps.len_spec() && #[trigger] apps.key_at(x) == k
}

/// Populates the status registry from the resolved applications: each
/// application gets its initial status, replacing any earlier one; entries
/// of other applications stay as they were.
pub fn populate(registry: &mut Registry, apps: Keyed<ApplicationConfig>, machine_id: &String)
    requires
        old(registry).wf(),
        apps.wf(),
    ensures
        final(registry).wf(),
        forall|k: Seq<char>| old(registry).has(k) ==> #[trigger] final(registry).has(k),
        forall|i: int|
            0 <= i < apps.len_spec() ==> holds_initial(*final(registry), machine_id@, #[trigger] apps.key_at(i), apps.value_at(i)),
        forall|j: int|
            0 <= j < final(registry).len_spec() ==> apps.has(#[trigger] final(registry).key_at(j))
                || kept_from(*old(registry), *final(registry), j),
{
    let ghost a0 = apps;
    let ghost r0 = *registry;
    let mut entries = apps.entries;
    let mut i: usize = entries.len();
    assert forall|j: int| 0 <= j < registry.len_spec() implies #[trigger] kept_from(r0, *registry, j) by {
        assert(r0.key_at(j) == registry.key_at(j));
    }
    while i > 0
        invariant
            i <= a0.len_spec(),
            a0.wf(),
            entries@ == a0.entries@.take(i as int),
            r0 == *old(registry),
            registry.wf(),
            forall|k: Seq<char>| r0.has(k) ==> #[trigger] registry.has(k),
            forall|x: int| i <= x < a0.len_spec() ==> holds_initial(*registry, machine_id@, #[trigger] a0.key_at(x), a0.value_at(x)),
            forall|j: int|
                0 <= j < registry.len_spec() ==> named_from(a0, i as int, #[trigger] registry.key_at(j))
                    || kept_from(r0, *registry, j),
        decreases i,
    {
        let x = i - 1;
        let (name, config) = entries.pop().unwrap();
        assert(name == a0.entries@[x as int].0 && config == a0.entries@[x as int].1);
        let status = initial_status(machine_id, &name, config);
        let ghost rb = *registry;
        let ghost k = name@;
        let ghost sv = status;
        let ghost nv = name;
        registry.upsert(name, status);
        proof {
            assert(entries@ =~= a0.entries@.take(x as int));
            let n = rb.len_spec();
            assert forall|j: int| 0 <= j < n implies #[trigger] registry.key_at(j) == rb.key_at(j)
                && (rb.key_at(j) != k ==> registry.value_at(j) == rb.value_at(j)) by {
                if !rb.has(k) {
                    assert(registry.entries@[j] == rb.entries@[j]);
                }
            }
            let jk: int = if rb.has(k) {
                choose|j: int| 0 <= j < n && #[trigger] rb.key_at(j) == k
            } else {
                n as int
            };
            if rb.has(k) {
                assert(0 <= jk < n && rb.key_at(jk) == k);
                assert(registry.key_at(jk) == rb.key_at(jk));
                assert(registry.value_at(jk) == sv);
            } else {
                assert(registry.entries@[jk] == (nv, sv));
            }
            assert(0 <= jk < registry.len_spec() && registry.key_at(jk) == k && registry.value_at(jk) == sv);
            assert forall|kk: Seq<char>| r0.has(kk) implies #[trigger] registry.has(kk) by {
                assert(rb.has(kk));
                let j = choose|j: int| 0 <= j < n && #[trigger] rb.key_at(j) == kk;
                assert(registry.key_at(j) == kk);
            }
            assert forall|y: int| x <= y < a0.len_spec() implies holds_initial(*registry, machine_id@, #[trigger] a0.key_at(y), a0.value_at(y)) by {
                if y == x {
                    assert(registry.key_at(jk) == a0.key_at(y));
                } else {
                    assert(a0.key_at(y) != a0.key_at(x as int));
                    assert(holds_initial(rb, machine_id@, a0.key_at(y), a0.value_at(y)));
                    let j = choose|j: int|
                        0 <= j < rb.len_spec() && #[trigger] rb.key_at(j) == a0.key_at(y)
                            && is_initial_status(rb.value_at(j), machine_id@, a0.key_at(y), a0.value_at(y));
                    assert(registry.key_at(j) == a0.key_at(y));
                }
            }
            assert forall|j: int| 0 <= j < registry.len_spec() implies named_from(a0, x as int, #[trigger] registry.key_at(j))
                || kept_from(r0, *registry, j) by {
                if registry.key_at(j) == k {
                    assert(a0.key_at(x as int) == registry.key_at(j));
                } else {
                    assert(j < n);
                    assert(registry.key_at(j) == rb.key_at(j));
                    if named_from(a0, i as int, rb.key_at(j)) {
                        let y = choose|y: int| i <= y < a0.len_spec() && #[trigger] a0.key_at(y) == rb.key_at(j);
                        assert(a0.key_at(y) == registry.key_at(j));
                    } else {
                        assert(kept_from(r0, rb, j));
                        let o = choose|o: int| 0 <= o < r0.len_spec() && #[trigger] r0.key_at(o) == rb.key_at(j) && rb.value_at(j) == r0.value_at(o);
                        assert(r0.key_at(o) == registry.key_at(j));
                    }
                }
            }
        }
        i = x;
    }
    proof {
        assert forall|j: int| 0 <= j < registry.len_spec() implies apps.has(#[trigger] registry.key_at(j))
            || kept_from(r0, *registry, j) by {
            if named_from(a0, 0, registry.key_at(j)) {
                let y = choose|y: int| 0 <= y < a0.len_spec() && #[trigger] a0.key_at(y) == registry.key_at(j);
                assert(apps.key_at(y) == registry.key_at(j));
            }
        }
        assert forall|y: int| 0 <= y < apps.len_spec() implies holds_initial(*registry, machine_id@, #[trigger] apps.key_at(y), apps.value_at(y)) by {
            assert(a0.key_at(y) == apps.key_at(y));
        }
    }
}

} // verus!
