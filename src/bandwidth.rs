//! Per-service bandwidth: the join of the per-PID traffic counters with the
//! PID-to-service view of the managed control groups.
use vstd::prelude::*;
use crate::keyed::Keyed;
use crate::model::NetworkUsage;

verus! {

/// Bytes received and sent by one process, as the kernel probes count them.
#[derive(Clone, Copy, Debug, PartialEq, Eq, Structural)]
pub struct TrafficStats {
    pub rx_bytes: u64,
    pub tx_bytes: u64,
}

impl TrafficStats {
    /// The same counters as a network-usage record.
    pub fn to_network_usage(&self) -> (r: NetworkUsage)
        ensures
            r.rx_bytes == self.rx_bytes,
            r.tx_bytes == self.tx_bytes,
    {
        NetworkUsage { rx_bytes: self.rx_bytes, tx_bytes: self.tx_bytes }
    }
}

/// `a + b`, or the largest `u64` when the sum does not fit.
pub open spec fn sat_add(a: u64, b: u64) -> u64 {
    if a + b > u64::MAX {
        u64::MAX
    } else {
        (a + b) as u64
    }
}

/// The service of `pid` in the control-group view: the last pair that
/// names it.
pub open spec fn service_of(pairs: Seq<(u32, Seq<char>)>, pid: u32) -> Option<Seq<char>>
    decreases pairs.len(),
{
    if pairs.len() == 0 {
        None
    } else if pairs.last().0 == pid {
        Some(pairs.last().1)
    } else {
        service_of(pairs.drop_last(), pid)
    }
}

/// The counters of the processes of `svc`, each process counted whole:
/// its received and its sent bytes together.
pub open spec fn service_total(pairs: Seq<(u32, Seq<char>)>, stats: Seq<(u32, TrafficStats)>, svc: Seq<char>) -> TrafficStats
    decreases stats.len(),
{
    if stats.len() == 0 {
        TrafficStats { rx_bytes: 0, tx_bytes: 0 }
    } else {
        let t = service_total(pairs, stats.drop_last(), svc);
        let e = stats.last();
        if service_of(pairs, e.0) == Some(svc) {
            TrafficStats { rx_bytes: sat_add(t.rx_bytes, e.1.rx_bytes), tx_bytes: sat_add(t.tx_bytes, e.1.tx_bytes) }
        } else {
            t
        }
    }
}

/// Some counted process belongs to `svc`.
pub open spec fn contributes(pairs: Seq<(u32, Seq<char>)>, stats: Seq<(u32, TrafficStats)>, svc: Seq<char>) -> bool {
    exists|i: int| 0 <= i < stats.len() && service_of(pairs, #[trigger] stats[i].0) == Some(svc)
}

/// The views of the PID-to-service pairs.
pub open spec fn pair_views(pairs: Seq<(u32, String)>) -> Seq<(u32, Seq<char>)> {
    pairs.map_values(|p: (u32, String)| (p.0, p.1@))
}

/// Counters of a process enter the total of its service whole, or not at
/// all: adding one process to the counters adds both its received and its
/// sent bytes to its own service, and changes no other service.
pub proof fn lemma_process_counted_whole(
    pairs: Seq<(u32, Seq<char>)>,
    stats: Seq<(u32, TrafficStats)>,
    pid: u32,
    counters: TrafficStats,
    svc: Seq<char>,
)
    ensures
        ({
            let before = service_total(pairs, stats, svc);
            let after = service_total(pairs, stats.push((pid, counters)), svc);
            if service_of(pairs, pid) == Some(svc) {
                after.rx_bytes == sat_add(before.rx_bytes, counters.rx_bytes)
                    && after.tx_bytes == sat_add(before.tx_bytes, counters.tx_bytes)
            } else {
                after == before
            }
        }),
{
    assert(stats.push((pid, counters)).drop_last() =~= stats);
}

proof fn lemma_no_contribution(pairs: Seq<(u32, Seq<char>)>, stats: Seq<(u32, TrafficStats)>, svc: Seq<char>)
    requires
        !contributes(pairs, stats, svc),
    ensures
        service_total(pairs, stats, svc) == (TrafficStats { rx_bytes: 0, tx_bytes: 0 }),
    decreases stats.len(),
{
    if stats.len() > 0 {
        let s = stats.drop_last();
        assert forall|i: int| 0 <= i < s.len() implies service_of(pairs, #[trigger] s[i].0) != Some(svc) by {
            assert(s[i] == stats[i]);
        }
        lemma_no_contribution(pairs, s, svc);
        assert(service_of(pairs, stats[stats.len() - 1].0) != Some(svc));
    }
}

/// Finds the service of `pid`: the last pair that names it.
fn lookup_service(pairs: &Vec<(u32, String)>, pid: u32) -> (r: Option<usize>)
    ensures
        r matches Some(i) ==> i < pairs@.len() && service_of(pair_views(pairs@), pid) == Some(pairs@[i as int].1@),
        r is None ==> service_of(pair_views(pairs@), pid) is None,
{
    let ghost pv = pair_views(pairs@);
    let mut i: usize = pairs.len();
    assert(pv.subrange(0, i as int) =~= pv);
    while i > 0
        invariant
            i <= pairs@.len(),
            pv == pair_views(pairs@),
            service_of(pv, pid) == service_of(pv.subrange(0, i as int), pid),
        decreases i,
    {
        let x = i - 1;
        let sub = Ghost(pv.subrange(0, i as int));
        assert(sub@.drop_last() =~= pv.subrange(0, x as int));
        assert(sub@.last() == (pairs@[x as int].0, pairs@[x as int].1@));
        if pairs[x].0 == pid {
            return Some(x);
        }
        i = x;
    }
    None
}

/// Totals the traffic counters by service: each process whose PID the
/// control-group view assigns to a service adds its counters to that
/// service; processes outside every service are left out. Sums saturate.
pub fn aggregate_bandwidth_by_service(pairs: &Vec<(u32, String)>, stats: &Vec<(u32, TrafficStats)>) -> (r: Keyed<TrafficStats>)
    ensures
        r.wf(),
        forall|svc: Seq<char>| #[trigger] r.has(svc) <==> contributes(pair_views(pairs@), stats@, svc),
        forall|j: int| 0 <= j < r.len_spec() ==> #[trigger] r.value_at(j) == service_total(pair_views(pairs@), stats@, r.key_at(j)),
{
    let ghost pv = pair_views(pairs@);
    let mut r: Keyed<TrafficStats> = Keyed::new();
    let mut i: usize = 0;
    while i < stats.len()
        invariant
            i <= stats@.len(),
            pv == pair_views(pairs@),
            r.wf(),
            forall|svc: Seq<char>| #[trigger] r.has(svc) <==> contributes(pv, stats@.subrange(0, i as int), svc),
            forall|j: int| 0 <= j < r.len_spec() ==> #[trigger] r.value_at(j) == service_total(pv, stats@.subrange(0, i as int), r.key_at(j)),
        decreases stats.len() - i,
    {
        let (pid, counters) = stats[i];
        let ghost cur = stats@.subrange(0, i as int);
        let ghost next = stats@.subrange(0, i + 1);
        assert(next.drop_last() =~= cur);
        assert(next.last() == (pid, counters));
        match lookup_service(pairs, pid) {
            None => {
                assert forall|svc: Seq<char>| contributes(pv, next, svc) implies contributes(pv, cur, svc) by {
                    let k = choose|k: int| 0 <= k < next.len() && service_of(pv, #[trigger] next[k].0) == Some(svc);
                    assert(k < cur.len());
                    assert(next[k] == cur[k]);
                }
                assert forall|svc: Seq<char>| contributes(pv, cur, svc) implies contributes(pv, next, svc) by {
                    let k = choose|k: int| 0 <= k < cur.len() && service_of(pv, #[trigger] cur[k].0) == Some(svc);
                    assert(next[k] == cur[k]);
                }
            },
            Some(x) => {
                let ghost svc = pairs@[x as int].1@;
                let ghost before = r;
                assert(forall|a: int| 0 <= a < before.len_spec() ==> #[trigger] before.value_at(a) == service_total(pv, cur, before.key_at(a)));
                assert(forall|s: Seq<char>| #[trigger] before.has(s) <==> contributes(pv, cur, s));
                match r.find(&pairs[x].1) {
                    Some(j) => {
                        assert(before.value_at(j as int) == service_total(pv, cur, svc));
                        let (k, t) = r.entries.remove(j);
                        let sum = TrafficStats {
                            rx_bytes: t.rx_bytes.saturating_add(counters.rx_bytes),
                            tx_bytes: t.tx_bytes.saturating_add(counters.tx_bytes),
                        };
                        r.entries.insert(j, (k, sum));
                        assert forall|a: int| 0 <= a < r.len_spec() implies #[trigger] r.key_at(a) == before.key_at(a) by {}
                        assert forall|a: int, b: int|
                            0 <= a < r.len_spec() && 0 <= b < r.len_spec() && a != b
                                implies #[trigger] r.key_at(a) != #[trigger] r.key_at(b) by {
                            assert(before.key_at(a) == r.key_at(a));
                            assert(before.key_at(b) == r.key_at(b));
                        }
                        assert forall|a: int| 0 <= a < r.len_spec() implies #[trigger] r.value_at(a) == service_total(pv, next, r.key_at(a)) by {
                            if a != j {
                                assert(before.key_at(a) != before.key_at(j as int));
                                assert(r.value_at(a) == before.value_at(a));
                            }
                        }
                        assert(r.len_spec() == before.len_spec());
                    },
                    None => {
                        assert(!before.has(svc));
                        proof {
                            lemma_no_contribution(pv, cur, svc);
                        }
                        r.insert_new(pairs[x].1.clone(), counters);
                        assert forall|a: int| 0 <= a < r.len_spec() implies #[trigger] r.value_at(a) == service_total(pv, next, r.key_at(a)) by {
                            if a < before.len_spec() {
                                assert(r.entries@[a] == before.entries@[a]);
                                assert(before.key_at(a) != svc);
                                assert(r.value_at(a) == before.value_at(a));
                                assert(service_total(pv, next, before.key_at(a)) == service_total(pv, cur, before.key_at(a)));
                            } else {
                                assert(r.key_at(a) == svc);
                                assert(r.value_at(a) == counters);
                                assert(service_total(pv, cur, svc) == (TrafficStats { rx_bytes: 0, tx_bytes: 0 }));
                                assert(next.last().0 == pid);
                                assert(service_of(pv, pid) == Some(svc));
                                assert(service_total(pv, next, svc) == TrafficStats {
                                    rx_bytes: sat_add(0, counters.rx_bytes),
                                    tx_bytes: sat_add(0, counters.tx_bytes),
                                });
                            }
                        }
                        assert(r.len_spec() == before.len_spec() + 1 && r.key_at(before.len_spec() as int) == svc);
                        assert(forall|a: int| 0 <= a < before.len_spec() ==> r.entries@[a] == before.entries@[a]);
                    },
                }
                assert forall|s: Seq<char>| #[trigger] r.has(s) <==> contributes(pv, next, s) by {
                    if contributes(pv, next, s) && s != svc {
                        let k = choose|k: int| 0 <= k < next.len() && service_of(pv, #[trigger] next[k].0) == Some(s);
                        assert(k < cur.len());
                        assert(next[k] == cur[k]);
                        assert(before.has(s));
                        let a = choose|a: int| 0 <= a < before.len_spec() && #[trigger] before.key_at(a) == s;
                        assert(r.key_at(a) == s);
                    }
                    if r.has(s) && s != svc {
                        let a = choose|a: int| 0 <= a < r.len_spec() && #[trigger] r.key_at(a) == s;
                        assert(a < before.len_spec());
                        assert(before.key_at(a) == s);
                        assert(before.has(s));
                        let k = choose|k: int| 0 <= k < cur.len() && service_of(pv, #[trigger] cur[k].0) == Some(s);
                        assert(next[k] == cur[k]);
                    }
                    if s == svc {
                        assert(service_of(pv, next[i as int].0) == Some(svc));
                        let a: int = if before.has(svc) {
                            choose|a: int| 0 <= a < before.len_spec() && #[trigger] before.key_at(a) == svc
                        } else {
                            before.len_spec() as int
                        };
                        assert(r.key_at(a) == svc);
                    }
                }
            },
        }
        i = i + 1;
    }
    assert(stats@.subrange(0, stats@.len() as int) =~= stats@);
    r
}

} // verus!
