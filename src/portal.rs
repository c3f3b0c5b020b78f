//! The portal endpoints this engine registers with, and whether each has
//! answered in time.
use vstd::prelude::*;
use crate::model::{AppError, ErrorKind};

verus! {

/// The port every portal listens on.
pub const PORTAL_PORT: u32 = 9801;

/// An IP address.
#[derive(Clone, Copy, Debug, PartialEq, Eq, Structural)]
pub enum IpAddress {
    V4(u32),
    V6(u128),
}

/// Where a portal listens.
#[derive(Clone, Copy, Debug, PartialEq, Eq, Structural)]
pub struct PortalAddr {
    pub addr: IpAddress,
    pub port: u32,
}

/// A portal endpoint and whether it has answered in time.
#[derive(Clone, Copy, Debug, PartialEq, Eq, Structural)]
pub struct PortalIntance {
    pub address: PortalAddr,
    pub intime: bool,
}

impl PortalIntance {
    pub open spec fn address_spec(&self) -> PortalAddr {
        self.address
    }

    pub open spec fn intime_spec(&self) -> bool {
        self.intime
    }

    /// A newly found endpoint, not yet in time.
    pub fn new(address: PortalAddr) -> (r: PortalIntance)
        ensures
            r.address_spec() == address,
            !r.intime_spec(),
    {
        PortalIntance { address, intime: false }
    }

    /// Marks the endpoint as answering in time.
    pub fn in_time(&mut self)
        ensures
            final(self).address_spec() == old(self).address_spec(),
            final(self).intime_spec(),
    {
        self.intime = true;
    }

    /// Marks the endpoint as not answering in time.
    pub fn out_time(&mut self)
        ensures
            final(self).address_spec() == old(self).address_spec(),
            !final(self).intime_spec(),
    {
        self.intime = false;
    }

    /// Where the endpoint listens.
    pub fn get_address(&self) -> (r: PortalAddr)
        ensures
            r == self.address_spec(),
    {
        self.address
    }

    /// Whether the endpoint has answered in time.
    pub fn is_in_time(&self) -> (r: bool)
        ensures
            r == self.intime_spec(),
    {
        self.intime
    }
}

/// The endpoints found so far, one per address.
pub struct PortalState {
    pub portals: Vec<PortalIntance>,
}

/// The error for an endpoint that is not in the table.
pub open spec fn portal_missing_message() -> Seq<char> {
    "refrenced portal instance not found "@
}

impl PortalState {
    pub open spec fn entries(&self) -> Seq<PortalIntance> {
        self.portals@
    }

    /// No address occurs twice.
    pub open spec fn wf(&self) -> bool {
        forall|i: int, j: int|
            0 <= i < self.portals@.len() && 0 <= j < self.portals@.len() && i != j
                ==> #[trigger] self.portals@[i].address != #[trigger] self.portals@[j].address
    }

    pub open spec fn has(&self, a: PortalAddr) -> bool {
        exists|i: int| 0 <= i < self.portals@.len() && #[trigger] self.portals@[i].address == a
    }

    pub open spec fn in_time_of(&self, a: PortalAddr) -> bool {
        exists|i: int| 0 <= i < self.portals@.len() && #[trigger] self.portals@[i].address == a && self.portals@[i].intime
    }

    /// An empty table.
    pub fn new() -> (r: PortalState)
        ensures
            r.wf(),
            r.entries().len() == 0,
    {
        PortalState { portals: Vec::new() }
    }

    fn position(&self, a: PortalAddr) -> (r: Option<usize>)
        ensures
            r matches Some(i) ==> i < self.portals@.len() && self.portals@[i as int].address == a,
            r is None ==> !self.has(a),
    {
        let mut i: usize = 0;
        while i < self.portals.len()
            invariant
                i <= self.portals@.len(),
                forall|j: int| 0 <= j < i ==> #[trigger] self.portals@[j].address != a,
            decreases self.portals.len() - i,
        {
            if self.portals[i].address == a {
                return Some(i);
            }
            i = i + 1;
        }
        None
    }

    /// Adds the endpoint at `address`, not in time; an endpoint already there
    /// is replaced.
    pub fn insert(&mut self, address: PortalAddr)
        requires
            old(self).wf(),
        ensures
            final(self).wf(),
            final(self).has(address),
            !final(self).in_time_of(address),
            forall|b: PortalAddr| b != address ==> (#[trigger] final(self).has(b) <==> old(self).has(b)),
            forall|b: PortalAddr| b != address ==> (#[trigger] final(self).in_time_of(b) <==> old(self).in_time_of(b)),
    {
        let fresh = PortalIntance::new(address);
        match self.position(address) {
            Some(i) => {
                let ghost before = self.portals@;
                self.portals.set(i, fresh);
                assert forall|b: PortalAddr| b != address implies (#[trigger] self.has(b) <==> old(self).has(b)) by {
                    if old(self).has(b) {
                        let j = choose|j: int| 0 <= j < before.len() && #[trigger] before[j].address == b;
                        assert(self.portals@[j].address == b);
                    }
                }
                assert forall|b: PortalAddr| b != address implies (#[trigger] self.in_time_of(b) <==> old(self).in_time_of(b)) by {
                    if old(self).in_time_of(b) {
                        let j = choose|j: int| 0 <= j < before.len() && #[trigger] before[j].address == b && before[j].intime;
                        assert(self.portals@[j].address == b);
                    }
                    if self.in_time_of(b) {
                        let j = choose|j: int| 0 <= j < self.portals@.len() && #[trigger] self.portals@[j].address == b && self.portals@[j].intime;
                        assert(before[j].address == b);
                    }
                }
                assert(self.portals@[i as int].address == address);
                assert forall|j: int| 0 <= j < self.portals@.len() && #[trigger] self.portals@[j].address == address implies !self.portals@[j].intime by {
                    if j != i {
                        assert(before[j].address != before[i as int].address);
                    }
                }
            },
            None => {
                self.portals.push(fresh);
                assert(self.portals@[self.portals@.len() - 1].address == address);
                assert forall|b: PortalAddr| b != address implies (#[trigger] self.has(b) <==> old(self).has(b)) by {
                    if old(self).has(b) {
                        let j = choose|j: int| 0 <= j < old(self).portals@.len() && #[trigger] old(self).portals@[j].address == b;
                        assert(self.portals@[j].address == b);
                    }
                }
                assert forall|b: PortalAddr| b != address implies (#[trigger] self.in_time_of(b) <==> old(self).in_time_of(b)) by {
                    if old(self).in_time_of(b) {
                        let j = choose|j: int| 0 <= j < old(self).portals@.len() && #[trigger] old(self).portals@[j].address == b && old(self).portals@[j].intime;
                        assert(self.portals@[j].address == b);
                    }
                }
            },
        }
    }

    /// Removes the endpoint at `address` and returns it.
    pub fn remove(&mut self, address: PortalAddr) -> (r: Option<PortalIntance>)
        requires
            old(self).wf(),
        ensures
            final(self).wf(),
            !final(self).has(address),
            r is Some <==> old(self).has(address),
            r matches Some(p) ==> p.address_spec() == address && p.intime_spec() == old(self).in_time_of(address),
            forall|b: PortalAddr| b != address ==> (#[trigger] final(self).has(b) <==> old(self).has(b)),
            forall|b: PortalAddr| b != address ==> (#[trigger] final(self).in_time_of(b) <==> old(self).in_time_of(b)),
    {
        match self.position(address) {
            None => None,
            Some(i) => {
                let ghost before = self.portals@;
                let p = self.portals.remove(i);
                assert(before[i as int] == p);
                assert forall|a: int, b: int|
                    0 <= a < self.portals@.len() && 0 <= b < self.portals@.len() && a != b
                        implies #[trigger] self.portals@[a].address != #[trigger] self.portals@[b].address by {
                    let a0 = if a < i { a } else { a + 1 };
                    let b0 = if b < i { b } else { b + 1 };
                    assert(self.portals@[a] == before[a0]);
                    assert(self.portals@[b] == before[b0]);
                }
                assert forall|j: int| 0 <= j < self.portals@.len() implies #[trigger] self.portals@[j].address != address by {
                    let j0 = if j < i { j } else { j + 1 };
                    assert(self.portals@[j] == before[j0]);
                }
                assert(p.intime == old(self).in_time_of(address)) by {
                    if old(self).in_time_of(address) {
                        let j = choose|j: int| 0 <= j < before.len() && #[trigger] before[j].address == address && before[j].intime;
                        if j != i {
                            assert(before[j].address != before[i as int].address);
                        }
                    }
                }
                assert forall|b: PortalAddr| b != address implies (#[trigger] self.has(b) <==> old(self).has(b))
                    && (self.in_time_of(b) <==> old(self).in_time_of(b)) by {
                    if old(self).has(b) {
                        let j0 = choose|j0: int| 0 <= j0 < before.len() && #[trigger] before[j0].address == b;
                        let j = if j0 < i { j0 } else { j0 - 1 };
                        assert(self.portals@[j] == before[j0]);
                    }
                    if old(self).in_time_of(b) {
                        let j0 = choose|j0: int| 0 <= j0 < before.len() && #[trigger] before[j0].address == b && before[j0].intime;
                        let j = if j0 < i { j0 } else { j0 - 1 };
                        assert(self.portals@[j] == before[j0]);
                    }
                    if self.has(b) {
                        let j = choose|j: int| 0 <= j < self.portals@.len() && #[trigger] self.portals@[j].address == b;
                        let j0 = if j < i { j } else { j + 1 };
                        assert(self.portals@[j] == before[j0]);
                    }
                    if self.in_time_of(b) {
                        let j = choose|j: int| 0 <= j < self.portals@.len() && #[trigger] self.portals@[j].address == b && self.portals@[j].intime;
                        let j0 = if j < i { j } else { j + 1 };
                        assert(self.portals@[j] == before[j0]);
                    }
                }
                assert forall|b: PortalAddr| b != address implies (#[trigger] self.in_time_of(b) <==> old(self).in_time_of(b)) by {
                    assert(self.has(b) <==> old(self).has(b));
                }
                Some(p)
            },
        }
    }

    /// Whether an endpoint listens at `address`.
    pub fn contains(&self, address: PortalAddr) -> (r: bool)
        ensures
            r == self.has(address),
    {
        self.position(address).is_some()
    }

    /// Whether the endpoint at `address` is in time; false when there is none.
    pub fn get_time(&self, address: PortalAddr) -> (r: bool)
        requires
            self.wf(),
        ensures
            r == self.in_time_of(address),
    {
        match self.position(address) {
            Some(i) => {
                let r = self.portals[i].intime;
                assert(r == self.in_time_of(address)) by {
                    if self.in_time_of(address) {
                        let j = choose|j: int| 0 <= j < self.portals@.len() && #[trigger] self.portals@[j].address == address && self.portals@[j].intime;
                        if j != i {
                            assert(self.portals@[j].address != self.portals@[i as int].address);
                        }
                    }
                }
                r
            },
            None => false,
        }
    }

    /// Sets whether the endpoint at `address` is in time; fails with
    /// `NotFound`, changing nothing, when there is none.
    pub fn set_time(&mut self, address: PortalAddr, intime: bool) -> (r: Result<(), AppError>)
        requires
            old(self).wf(),
        ensures
            final(self).wf(),
            r is Ok <==> old(self).has(address),
            r matches Err(e) ==> e@ == (ErrorKind::NotFound, portal_missing_message()) && final(self).entries() == old(self).entries(),
            r is Ok ==> final(self).in_time_of(address) == intime,
            forall|b: PortalAddr| #[trigger] final(self).has(b) <==> old(self).has(b),
            forall|b: PortalAddr| b != address ==> (#[trigger] final(self).in_time_of(b) <==> old(self).in_time_of(b)),
    {
        match self.position(address) {
            None => {
                proof { reveal_strlit("refrenced portal instance not found "); }
                Err(AppError { kind: ErrorKind::NotFound, message: "refrenced portal instance not found ".to_owned() })
            },
            Some(i) => {
                let ghost before = self.portals@;
                let updated = PortalIntance { address, intime };
                self.portals.set(i, updated);
                assert forall|a: int, b: int|
                    0 <= a < self.portals@.len() && 0 <= b < self.portals@.len() && a != b
                        implies #[trigger] self.portals@[a].address != #[trigger] self.portals@[b].address by {
                    assert(self.portals@[a].address == before[a].address);
                    assert(self.portals@[b].address == before[b].address);
                }
                assert(self.in_time_of(address) == intime) by {
                    assert(self.portals@[i as int].address == address);
                    if self.in_time_of(address) {
                        let j = choose|j: int| 0 <= j < self.portals@.len() && #[trigger] self.portals@[j].address == address && self.portals@[j].intime;
                        if j != i {
                            assert(self.portals@[j].address != self.portals@[i as int].address);
                        }
                    }
                }
                assert forall|b: PortalAddr| #[trigger] self.has(b) <==> old(self).has(b) by {
                    if old(self).has(b) {
                        let j = choose|j: int| 0 <= j < before.len() && #[trigger] before[j].address == b;
                        assert(self.portals@[j].address == b);
                    }
                    if self.has(b) {
                        let j = choose|j: int| 0 <= j < self.portals@.len() && #[trigger] self.portals@[j].address == b;
                        assert(before[j].address == b);
                    }
                }
                assert forall|b: PortalAddr| b != address implies (#[trigger] self.in_time_of(b) <==> old(self).in_time_of(b)) by {
                    if old(self).in_time_of(b) {
                        let j = choose|j: int| 0 <= j < before.len() && #[trigger] before[j].address == b && before[j].intime;
                        assert(self.portals@[j] == before[j]);
                    }
                    if self.in_time_of(b) {
                        let j = choose|j: int| 0 <= j < self.portals@.len() && #[trigger] self.portals@[j].address == b && self.portals@[j].intime;
                        assert(self.portals@[j] == before[j]);
                    }
                }
                Ok(())
            },
        }
    }

    /// The endpoints, in the table's order.
    pub fn get_portals(&self) -> (r: Vec<PortalIntance>)
        ensures
            r@ == self.entries(),
    {
        let mut r: Vec<PortalIntance> = Vec::new();
        let mut i: usize = 0;
        while i < self.portals.len()
            invariant
                i <= self.portals@.len(),
                r@ == self.portals@.subrange(0, i as int),
            decreases self.portals.len() - i,
        {
            r.push(self.portals[i]);
            assert(r@ =~= self.portals@.subrange(0, i + 1));
            i = i + 1;
        }
        assert(self.portals@.subrange(0, self.portals@.len() as int) =~= self.portals@);
        r
    }
}

/// The endpoints for the resolved portal addresses, each on the portal port.
pub fn endpoints_of(ips: &Vec<IpAddress>) -> (r: Vec<PortalAddr>)
    ensures
        r@.len() == ips@.len(),
        forall|i: int| 0 <= i < ips@.len() ==> #[trigger] r@[i] == (PortalAddr { addr: ips@[i], port: PORTAL_PORT }),
{
    let mut r: Vec<PortalAddr> = Vec::new();
    let mut i: usize = 0;
    while i < ips.len()
        invariant
            i <= ips@.len(),
            r@.len() == i,
            forall|j: int| 0 <= j < i ==> #[trigger] r@[j] == (PortalAddr { addr: ips@[j], port: PORTAL_PORT }),
        decreases ips.len() - i,
    {
        r.push(PortalAddr { addr: ips[i], port: PORTAL_PORT });
        i = i + 1;
    }
    r
}

} // verus!
