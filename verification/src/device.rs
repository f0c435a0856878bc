//! The port bus: 16-bit port numbers mapped to device handlers.
//!
//! Peripherals implement the [`Device`] contract. The bus promises nothing
//! about what a device does — a peripheral is outside the machine — so the
//! executor's contracts hold for every byte a device may yield.

use vstd::prelude::*;

use crate::word::u32_byte;

verus! {

/// The port contract a peripheral implements: byte-level reads and writes,
/// with a device-local port selector. Nothing is specified of a device's
/// behaviour; the core is verified for every response.
pub trait Device: Sized {
    /// Handles a byte written to a device-local port.
    fn out_u8(&mut self, port: u16, byte: u8);

    /// Yields a byte for a read of a device-local port.
    fn in_u8(&mut self, port: u16) -> u8;
}

/// The first index whose entry maps `port`, or -1.
spec fn find_port(s: Seq<(u16, usize, u16)>, port: u16) -> int
    decreases s.len(),
{
    if s.len() == 0 {
        -1
    } else if s[0].0 == port {
        0
    } else {
        let r = find_port(s.drop_first(), port);
        if r < 0 {
            -1
        } else {
            r + 1
        }
    }
}

proof fn lemma_find_port_props(s: Seq<(u16, usize, u16)>, port: u16)
    ensures
        ({
            let r = find_port(s, port);
            &&& -1 <= r < s.len()
            &&& r >= 0 ==> s[r].0 == port
            &&& r == -1 ==> (forall|j: int| 0 <= j < s.len() ==> (#[trigger] s[j]).0 != port)
        }),
    decreases s.len(),
{
    if s.len() > 0 && s[0].0 != port {
        let rest = s.drop_first();
        lemma_find_port_props(rest, port);
        if find_port(rest, port) == -1 {
            assert forall|j: int| 0 <= j < s.len() implies (#[trigger] s[j]).0 != port by {
                if j > 0 {
                    assert(s[j] == rest[j - 1]);
                }
            }
        }
    }
}

/// The port maps of two entry sequences agree wherever keys and values
/// pointwise agree; used when only one entry is replaced.
proof fn lemma_find_port_pointwise(s1: Seq<(u16, usize, u16)>, s2: Seq<(u16, usize, u16)>, port: u16)
    requires
        s1.len() == s2.len(),
        forall|j: int| 0 <= j < s1.len() ==> (#[trigger] s1[j]).0 == (#[trigger] s2[j]).0,
    ensures
        find_port(s1, port) == find_port(s2, port),
    decreases s1.len(),
{
    if s1.len() > 0 {
        assert forall|j: int| 0 <= j < s1.drop_first().len()
            implies (#[trigger] s1.drop_first()[j]).0 == (#[trigger] s2.drop_first()[j]).0 by {
            assert(s1[j + 1].0 == s2[j + 1].0);
        }
        lemma_find_port_pointwise(s1.drop_first(), s2.drop_first(), port);
    }
}

/// Whether device `j` owns port `p` under the assignment `m`.
pub open spec fn owns_port(m: Map<u16, (int, u16)>, p: u16, j: int) -> bool {
    m.dom().contains(p) && m[p].0 == j
}

/// One dispatch the bus made: which device was consulted, the device-local
/// port handed to it, and the byte written (`None` for a read).
pub struct PortDispatch {
    pub device: int,
    pub port: u16,
    pub byte: Option<u8>,
}

/// The dispatch log after one bus access of `p`: the owner's entry is
/// appended when `p` is assigned; an unassigned port dispatches nothing.
pub open spec fn dispatched(
    log: Seq<PortDispatch>,
    m: Map<u16, (int, u16)>,
    p: u16,
    byte: Option<u8>,
) -> Seq<PortDispatch> {
    if m.dom().contains(p) {
        log.push(PortDispatch { device: m[p].0, port: m[p].1, byte })
    } else {
        log
    }
}

/// The port bus: each assigned 16-bit port maps to a device index and a
/// device-local port. Reads of unassigned ports yield `0xFF`; writes to
/// them are silent.
pub struct PortDevices<D: Device> {
    devices: Vec<D>,
    ports: Vec<(u16, usize, u16)>,
    log: Ghost<Seq<PortDispatch>>,
}

impl<D: Device> PortDevices<D> {
    /// Every mapped device index is in range, and each port is mapped at
    /// most once.
    pub closed spec fn wf(&self) -> bool {
        &&& forall|i: int|
            0 <= i < self.ports@.len() ==> (#[trigger] self.ports@[i]).1 < self.devices@.len()
        &&& forall|i: int, j: int|
            0 <= i < j < self.ports@.len() ==> (#[trigger] self.ports@[i]).0 != (
            #[trigger] self.ports@[j]).0
    }

    /// The port assignment: which device index and device-local port each
    /// assigned port reaches.
    pub closed spec fn port_map(&self) -> Map<u16, (int, u16)> {
        Map::new(
            |p: u16| find_port(self.ports@, p) >= 0,
            |p: u16|
                {
                    let i = find_port(self.ports@, p);
                    (self.ports@[i].1 as int, self.ports@[i].2)
                },
        )
    }

    /// How many devices the bus holds.
    pub closed spec fn device_count(&self) -> int {
        self.devices@.len() as int
    }

    /// The devices the bus holds, in registration order.
    pub closed spec fn devices_view(&self) -> Seq<D> {
        self.devices@
    }

    /// Every dispatch the bus has made to a device, in order: which device,
    /// which device-local port, and the byte written (`None` for a read).
    pub closed spec fn dispatch_log(&self) -> Seq<PortDispatch> {
        self.log@
    }

    /// An empty bus: no devices, no ports assigned.
    pub fn new() -> (r: PortDevices<D>)
        ensures
            r.wf(),
            r.port_map() == Map::<u16, (int, u16)>::empty(),
            r.device_count() == 0,
            r.devices_view() == Seq::<D>::empty(),
            r.dispatch_log() == Seq::<PortDispatch>::empty(),
    {
        let r = PortDevices { devices: Vec::new(), ports: Vec::new(), log: Ghost(Seq::empty()) };
        proof {
            assert forall|p: u16| !(#[trigger] r.port_map().dom().contains(p)) by {
                lemma_find_port_props(r.ports@, p);
            }
            assert(r.port_map() =~= Map::<u16, (int, u16)>::empty());
        }
        r
    }

    /// The port map after assigning the first `k` of `ports` to device
    /// `dev`, local port `i` for the `i`-th entry; later entries win.
    pub open spec fn assign_ports(
        m: Map<u16, (int, u16)>,
        ports: Seq<u16>,
        dev: int,
        k: int,
    ) -> Map<u16, (int, u16)>
        decreases k,
    {
        if k <= 0 {
            m
        } else {
            Self::assign_ports(m, ports, dev, k - 1).insert(ports[k - 1], (dev, (k - 1) as u16))
        }
    }

    /// Maps `port` to `(dev, local)`, replacing any earlier assignment.
    fn set_port(&mut self, port: u16, dev: usize, local: u16)
        requires
            old(self).wf(),
            dev < old(self).devices@.len(),
        ensures
            final(self).wf(),
            final(self).devices@ == old(self).devices@,
            final(self).dispatch_log() == old(self).dispatch_log(),
            final(self).port_map() == old(self).port_map().insert(port, (dev as int, local)),
    {
        let ghost olds = self.ports@;
        let mut i: usize = 0;
        while i < self.ports.len()
            invariant
                *self == *old(self),
                olds == old(self).ports@,
                old(self).wf(),
                dev < old(self).devices@.len(),
                i <= self.ports@.len(),
                forall|j: int| 0 <= j < i ==> (#[trigger] self.ports@[j]).0 != port,
            decreases self.ports@.len() - i,
        {
            if self.ports[i].0 == port {
                proof {
                    lemma_find_port_at(self.ports@, port, i as int);
                }
                self.ports[i] = (port, dev, local);
                proof {
                    let news = self.ports@;
                    assert(news == olds.update(i as int, (port, dev, local)));
                    assert(news.len() == olds.len());
                    assert forall|j: int| 0 <= j < news.len() implies (#[trigger] news[j]).0 == (
                    #[trigger] olds[j]).0 by {}
                    assert forall|p: u16| #[trigger] find_port(news, p) == find_port(olds, p) by {
                        lemma_find_port_pointwise(news, olds, p);
                    }
                    assert(find_port(olds, port) == i as int);
                    assert forall|p: u16|
                        {
                            &&& #[trigger] self.port_map().dom().contains(p) == old(
                                self,
                            ).port_map().insert(port, (dev as int, local)).dom().contains(p)
                            &&& (self.port_map().dom().contains(p) ==> self.port_map()[p] == old(
                                self,
                            ).port_map().insert(port, (dev as int, local))[p])
                        } by {
                        lemma_find_port_props(olds, p);
                        let r = find_port(olds, p);
                        if p != port && r >= 0 {
                            assert(olds[i as int].0 == port);
                            assert(r != i as int);
                            assert(news[r] == olds[r]);
                        }
                    }
                    assert(self.port_map() =~= old(self).port_map().insert(
                        port,
                        (dev as int, local),
                    ));
                }
                return ;
            }
            i += 1;
        }
        proof {
            lemma_find_port_props(olds, port);
        }
        self.ports.push((port, dev, local));
        proof {
            let news = self.ports@;
            let n = olds.len() as int;
            assert forall|p: u16|
                {
                    &&& #[trigger] self.port_map().dom().contains(p) == old(
                        self,
                    ).port_map().insert(port, (dev as int, local)).dom().contains(p)
                    &&& (self.port_map().dom().contains(p) ==> self.port_map()[p] == old(
                        self,
                    ).port_map().insert(port, (dev as int, local))[p])
                } by {
                lemma_find_port_props(olds, p);
                if p == port {
                    assert(news[n].0 == port);
                    lemma_find_port_at(news, p, n);
                } else {
                    let r = find_port(olds, p);
                    if r >= 0 {
                        lemma_find_port_at(news, p, r);
                    } else {
                        lemma_find_port_props(news, p);
                        if find_port(news, p) >= 0 {
                            assert(news[find_port(news, p)].0 == p);
                        }
                    }
                }
            }
            assert(self.port_map() =~= old(self).port_map().insert(port, (dev as int, local)));
        }
    }

    /// Registers a device and assigns it the given ports: entry `i` of
    /// `ports` reaches the device as its local port `i`. A port assigned
    /// twice (here or earlier) keeps the later assignment.
    pub fn add(&mut self, ports: &[u16], device: D)
        requires
            old(self).wf(),
            ports@.len() <= u16::MAX,
        ensures
            final(self).wf(),
            final(self).device_count() == old(self).device_count() + 1,
            final(self).devices_view() == old(self).devices_view().push(device),
            final(self).dispatch_log() == old(self).dispatch_log(),
            final(self).port_map() == Self::assign_ports(
                old(self).port_map(),
                ports@,
                old(self).device_count(),
                ports@.len() as int,
            ),
    {
        let index = self.devices.len();
        self.devices.push(device);
        proof {
            assert forall|p: u16| #[trigger] find_port(self.ports@, p) == find_port(
                old(self).ports@,
                p,
            ) by {
                lemma_find_port_pointwise(self.ports@, old(self).ports@, p);
            }
            assert(self.port_map() =~= old(self).port_map());
        }
        let mut i: usize = 0;
        while i < ports.len()
            invariant
                self.wf(),
                i <= ports@.len() <= u16::MAX,
                index < self.devices@.len(),
                self.devices@.len() == old(self).devices@.len() + 1,
                index == old(self).devices@.len(),
                self.devices@ == old(self).devices@.push(device),
                self.log@ == old(self).log@,
                self.port_map() == Self::assign_ports(
                    old(self).port_map(),
                    ports@,
                    index as int,
                    i as int,
                ),
            decreases ports@.len() - i,
        {
            let p = ports[i];
            self.set_port(p, index, i as u16);
            i += 1;
        }
    }

    /// Dispatches a byte write to the device owning `port`; writes to
    /// unassigned ports are silent no-ops. The assignment is unchanged, the
    /// dispatch log records exactly which device was handed which local
    /// port and byte, and only the owning device can change; what it does
    /// with the byte is its own affair.
    pub fn out_u8(&mut self, port: u16, byte: u8)
        requires
            old(self).wf(),
        ensures
            final(self).wf(),
            final(self).port_map() == old(self).port_map(),
            final(self).device_count() == old(self).device_count(),
            final(self).devices_view().len() == old(self).devices_view().len(),
            final(self).dispatch_log() == dispatched(
                old(self).dispatch_log(),
                old(self).port_map(),
                port,
                Some(byte),
            ),
            forall|j: int|
                0 <= j < old(self).devices_view().len() && !owns_port(
                    old(self).port_map(),
                    port,
                    j,
                ) ==> #[trigger] final(self).devices_view()[j] == old(self).devices_view()[j],
    {
        let found = self.lookup(port);
        match found {
            Some((device, local)) => {
                let d = &mut self.devices[device];
                d.out_u8(local, byte);
                self.log = Ghost(
                    self.log@.push(
                        PortDispatch { device: device as int, port: local, byte: Some(byte) },
                    ),
                );
                proof {
                    assert forall|p: u16| #[trigger] find_port(self.ports@, p) == find_port(
                        old(self).ports@,
                        p,
                    ) by {
                        lemma_find_port_pointwise(self.ports@, old(self).ports@, p);
                    }
                    assert(self.port_map() =~= old(self).port_map());
                }
            }
            None => (),
        }
    }

    /// Splits a 32-bit write into four byte writes on consecutive ports,
    /// little-endian; any subset of the four may be unassigned. The
    /// dispatch log records, in order, the owner of each assigned port
    /// receiving its little-endian byte; a device owning none of the four
    /// ports is untouched.
    pub fn out_u32(&mut self, port: u16, value: u32)
        requires
            old(self).wf(),
            port + 3 <= u16::MAX,
        ensures
            final(self).wf(),
            final(self).port_map() == old(self).port_map(),
            final(self).device_count() == old(self).device_count(),
            final(self).devices_view().len() == old(self).devices_view().len(),
            final(self).dispatch_log() == ({
                let m = old(self).port_map();
                let l0 = old(self).dispatch_log();
                let l1 = dispatched(l0, m, port, Some(u32_byte(value, 0)));
                let l2 = dispatched(l1, m, (port + 1) as u16, Some(u32_byte(value, 1)));
                let l3 = dispatched(l2, m, (port + 2) as u16, Some(u32_byte(value, 2)));
                dispatched(l3, m, (port + 3) as u16, Some(u32_byte(value, 3)))
            }),
            forall|j: int|
                0 <= j < old(self).devices_view().len() && !owns_port(
                    old(self).port_map(),
                    port,
                    j,
                ) && !owns_port(old(self).port_map(), (port + 1) as u16, j) && !owns_port(
                    old(self).port_map(),
                    (port + 2) as u16,
                    j,
                ) && !owns_port(old(self).port_map(), (port + 3) as u16, j)
                    ==> #[trigger] final(self).devices_view()[j] == old(self).devices_view()[j],
    {
        proof {
            crate::word::lemma_u32_byte0(value);
        }
        self.out_u8(port, value as u8);
        self.out_u8(port + 1, (value >> 8) as u8);
        self.out_u8(port + 2, (value >> 16) as u8);
        self.out_u8(port + 3, (value >> 24) as u8);
    }

    /// Reads a byte from the device owning `port`; unassigned ports yield
    /// `0xFF`. Nothing is promised of the byte an assigned device yields;
    /// the dispatch log records which device was consulted with which local
    /// port, and only the owning device can change.
    pub fn in_u8(&mut self, port: u16) -> (r: u8)
        requires
            old(self).wf(),
        ensures
            final(self).wf(),
            final(self).port_map() == old(self).port_map(),
            final(self).device_count() == old(self).device_count(),
            final(self).devices_view().len() == old(self).devices_view().len(),
            final(self).dispatch_log() == dispatched(
                old(self).dispatch_log(),
                old(self).port_map(),
                port,
                None,
            ),
            !old(self).port_map().dom().contains(port) ==> r == 0xFF && final(self).devices_view()
                == old(self).devices_view(),
            forall|j: int|
                0 <= j < old(self).devices_view().len() && !owns_port(
                    old(self).port_map(),
                    port,
                    j,
                ) ==> #[trigger] final(self).devices_view()[j] == old(self).devices_view()[j],
    {
        let found = self.lookup(port);
        match found {
            Some((device, local)) => {
                let d = &mut self.devices[device];
                let r = d.in_u8(local);
                self.log = Ghost(
                    self.log@.push(PortDispatch { device: device as int, port: local, byte: None }),
                );
                proof {
                    assert forall|p: u16| #[trigger] find_port(self.ports@, p) == find_port(
                        old(self).ports@,
                        p,
                    ) by {
                        lemma_find_port_pointwise(self.ports@, old(self).ports@, p);
                    }
                    assert(self.port_map() =~= old(self).port_map());
                }
                r
            }
            None => 0xFF,
        }
    }

    /// The device index and local port assigned to `port`, if any.
    fn lookup(&self, port: u16) -> (r: Option<(usize, u16)>)
        requires
            self.wf(),
        ensures
            match r {
                Some((device, local)) => device < self.devices@.len() && self.port_map().dom().contains(
                    port,
                ) && self.port_map()[port] == (device as int, local),
                None => !self.port_map().dom().contains(port),
            },
    {
        let mut i: usize = 0;
        while i < self.ports.len()
            invariant
                self.wf(),
                i <= self.ports@.len(),
                forall|j: int| 0 <= j < i ==> (#[trigger] self.ports@[j]).0 != port,
            decreases self.ports@.len() - i,
        {
            let (p, device, local) = self.ports[i];
            if p == port {
                proof {
                    lemma_find_port_at(self.ports@, port, i as int);
                }
                return Some((device, local));
            }
            i += 1;
        }
        proof {
            lemma_find_port_props(self.ports@, port);
        }
        None
    }
}

proof fn lemma_find_port_at(s: Seq<(u16, usize, u16)>, port: u16, i: int)
    requires
        0 <= i < s.len(),
        s[i].0 == port,
        forall|j: int| 0 <= j < i ==> (#[trigger] s[j]).0 != port,
    ensures
        find_port(s, port) == i,
    decreases s.len(),
{
    if i > 0 {
        let rest = s.drop_first();
        assert(rest[i - 1] == s[i]);
        assert forall|j: int| 0 <= j < i - 1 implies (#[trigger] rest[j]).0 != port by {
            assert(rest[j] == s[j + 1]);
        }
        lemma_find_port_at(rest, port, i - 1);
    }
}

} // verus!
