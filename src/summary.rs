//! The node-level summary reported to the portal and by the `Info` command.
use vstd::prelude::*;
use crate::keyed::Keyed;
use crate::model::{elapsed, seconds_since};
use crate::portal::IpAddress;
use crate::resolve::CatalogEntry;

verus! {

/// What this node reports about itself.
pub struct ManagerSummary {
    pub version: String,
    pub system_apps: u32,
    pub client_apps: u32,
    pub warning: u32,
    pub hostname: String,
    pub address: IpAddress,
    pub uptime: u64,
}

/// `n`, or the largest `u32` when it does not fit.
pub open spec fn clamp_u32(n: int) -> u32 {
    if n > u32::MAX {
        u32::MAX
    } else {
        n as u32
    }
}

/// The number of errors that the catalog's applications report.
pub open spec fn warnings_of(entries: Seq<(String, CatalogEntry)>) -> nat
    decreases entries.len(),
{
    if entries.len() == 0 {
        0
    } else {
        warnings_of(entries.drop_last()) + entries.last().1.config.state.error_log@.len()
    }
}

fn count_warnings(catalog: &Keyed<CatalogEntry>) -> (r: u64)
    ensures
        r == if warnings_of(catalog.entries@) > u64::MAX { u64::MAX as int } else { warnings_of(catalog.entries@) as int },
{
    let mut total: u64 = 0;
    let mut i: usize = 0;
    while i < catalog.entries.len()
        invariant
            i <= catalog.entries@.len(),
            total == if warnings_of(catalog.entries@.subrange(0, i as int)) > u64::MAX {
                u64::MAX as int
            } else {
                warnings_of(catalog.entries@.subrange(0, i as int)) as int
            },
        decreases catalog.entries.len() - i,
    {
        let n = catalog.entries[i].1.config.state.error_log.len() as u64;
        proof {
            let sub = catalog.entries@.subrange(0, i + 1);
            assert(sub.drop_last() =~= catalog.entries@.subrange(0, i as int));
        }
        total = total.saturating_add(n);
        i = i + 1;
    }
    assert(catalog.entries@.subrange(0, catalog.entries@.len() as int) =~= catalog.entries@);
    total
}

/// Composes the summary: the number of system and client applications,
/// the errors they report in all, and how long the supervisor has run.
/// Counts that do not fit saturate.
pub fn get_manager_data(
    version: String,
    system_catalog: &Keyed<CatalogEntry>,
    client_catalog: &Keyed<CatalogEntry>,
    hostname: String,
    address: IpAddress,
    now: u64,
    started_at: u64,
) -> (r: ManagerSummary)
    ensures
        r.version == version,
        r.system_apps == clamp_u32(system_catalog.len_spec() as int),
        r.client_apps == clamp_u32(client_catalog.len_spec() as int),
        r.warning == clamp_u32((warnings_of(system_catalog.entries@) + warnings_of(client_catalog.entries@)) as int),
        r.hostname == hostname,
        r.address == address,
        r.uptime == elapsed(now, started_at),
{
    let system_warnings = count_warnings(system_catalog);
    let client_warnings = count_warnings(client_catalog);
    let sum = system_warnings.saturating_add(client_warnings);
    let warning: u32 = if sum > u32::MAX as u64 { u32::MAX } else { sum as u32 };
    let system_apps: u32 = if system_catalog.len() > u32::MAX as usize { u32::MAX } else { system_catalog.len() as u32 };
    let client_apps: u32 = if client_catalog.len() > u32::MAX as usize { u32::MAX } else { client_catalog.len() as u32 };
    ManagerSummary {
        version,
        system_apps,
        client_apps,
        warning,
        hostname,
        address,
        uptime: seconds_since(now, started_at),
    }
}

} // verus!
