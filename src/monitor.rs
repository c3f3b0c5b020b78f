//! The resource monitor's updates: each live application's latest sample
//! goes into its status and into the usage ledger.
use vstd::prelude::*;
use crate::bandwidth::TrafficStats;
use crate::keyed::Keyed;
use crate::model::{AppStatus, Metrics, NetworkUsage};
use crate::reconcile::{same_keys, Registry};

verus! {

/// The latest sample of each application, by name.
pub type UsageLedger = Keyed<Metrics>;

/// The network usage of the service `name`, when the aggregation has one.
pub fn service_network(aggregated: &Keyed<TrafficStats>, name: &String) -> (r: Option<NetworkUsage>)
    ensures
        r is Some <==> aggregated.has(name@),
        r matches Some(u) ==> exists|i: int|
            0 <= i < aggregated.len_spec() && #[trigger] aggregated.key_at(i) == name@
                && u.rx_bytes == aggregated.value_at(i).rx_bytes && u.tx_bytes == aggregated.value_at(i).tx_bytes,
{
    match aggregated.find(name) {
        Some(i) => Some(aggregated.entries[i].1.to_network_usage()),
        None => None,
    }
}

/// Records a sample of the application `name`: the ledger keeps it as the
/// application's latest, and the application's status carries it.
pub fn record_usage(registry: &mut Registry, ledger: &mut UsageLedger, name: &String, sample: Metrics)
    requires
        old(registry).wf(),
        old(ledger).wf(),
    ensures
        final(registry).wf(),
        final(ledger).wf(),
        same_keys(*old(registry), *final(registry)),
        forall|j: int|
            0 <= j < old(registry).len_spec() ==> #[trigger] final(registry).value_at(j) == if old(registry).key_at(j)
                == name@ {
                AppStatus { metrics: Some(sample), ..old(registry).value_at(j) }
            } else {
                old(registry).value_at(j)
            },
        final(ledger).has(name@),
        forall|j: int|
            0 <= j < final(ledger).len_spec() && #[trigger] final(ledger).key_at(j) == name@ ==> final(ledger).value_at(j)
                == sample,
        forall|k: Seq<char>| k != name@ ==> (#[trigger] final(ledger).has(k) <==> old(ledger).has(k)),
{
    let ghost l0 = *ledger;
    ledger.upsert(name.clone(), sample);
    proof {
        if l0.has(name@) {
            let i = choose|i: int| 0 <= i < l0.len_spec() && #[trigger] l0.key_at(i) == name@;
            assert(ledger.key_at(i) == name@);
            assert forall|j: int| 0 <= j < ledger.len_spec() && #[trigger] ledger.key_at(j) == name@ implies ledger.value_at(j) == sample by {
                assert(l0.key_at(j) == name@);
            }
            assert forall|k: Seq<char>| k != name@ implies (#[trigger] ledger.has(k) <==> l0.has(k)) by {
                if l0.has(k) {
                    let a = choose|a: int| 0 <= a < l0.len_spec() && #[trigger] l0.key_at(a) == k;
                    assert(ledger.key_at(a) == k);
                }
                if ledger.has(k) {
                    let a = choose|a: int| 0 <= a < ledger.len_spec() && #[trigger] ledger.key_at(a) == k;
                    assert(l0.key_at(a) == k);
                }
            }
        } else {
            let n = l0.len_spec() as int;
            assert(ledger.key_at(n) == name@);
            assert forall|j: int| 0 <= j < ledger.len_spec() && #[trigger] ledger.key_at(j) == name@ implies ledger.value_at(j) == sample by {
                if j < n {
                    assert(l0.key_at(j) == ledger.key_at(j));
                }
            }
            assert forall|k: Seq<char>| k != name@ implies (#[trigger] ledger.has(k) <==> l0.has(k)) by {
                if l0.has(k) {
                    let a = choose|a: int| 0 <= a < l0.len_spec() && #[trigger] l0.key_at(a) == k;
                    assert(ledger.key_at(a) == k);
                }
                if ledger.has(k) {
                    let a = choose|a: int| 0 <= a < ledger.len_spec() && #[trigger] ledger.key_at(a) == k;
                    assert(a < n);
                    assert(l0.key_at(a) == k);
                }
            }
        }
    }
    match registry.find(name) {
        None => {},
        Some(i) => {
            let ghost before = *registry;
            let (k, mut app) = registry.entries.remove(i);
            app.metrics = Some(sample);
            registry.entries.insert(i, (k, app));
            assert forall|j: int| 0 <= j < before.len_spec() implies #[trigger] registry.entries@[j].0 == before.entries@[j].0 by {}
            assert forall|a: int, b: int|
                0 <= a < registry.len_spec() && 0 <= b < registry.len_spec() && a != b
                    implies #[trigger] registry.key_at(a) != #[trigger] registry.key_at(b) by {
                assert(before.key_at(a) == registry.key_at(a));
                assert(before.key_at(b) == registry.key_at(b));
            }
            assert forall|j: int| 0 <= j < before.len_spec() implies #[trigger] registry.value_at(j) == if before.key_at(j) == name@ {
                AppStatus { metrics: Some(sample), ..before.value_at(j) }
            } else {
                before.value_at(j)
            } by {
                if j != i {
                    assert(before.key_at(j) != before.key_at(i as int));
                }
            }
        },
    }
}

} // verus!
