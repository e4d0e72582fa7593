use std::collections::HashMap;
use vstd::prelude::*;

verus! {

broadcast use vstd::std_specs::hash::group_hash_axioms;

/// Rolling traffic counters for the current one-minute window.
///
/// `port` maps each transport port seen since the last reset to the number of
/// times it was seen; the window's distinct-port count is the number of keys.
/// `traffic` accumulates on-wire byte sizes.
pub struct Count {
    pub syn: i32,
    pub ack: i32,
    pub port: HashMap<i32, i32>,
    pub traffic: i128,
    pub icmp: i32,
    pub arp: i32,
}

/// The counter totals of one completed window, as read out at rollover.
pub struct AggregateSnapshot {
    pub ack: i32,
    pub syn: i32,
    pub arp: i32,
    pub icmp: i32,
    pub traffic: i128,
    pub distinct_port_count: usize,
}

/// The port table after one more observation of port `p`: a first observation
/// maps `p` to 1, a repeated one only raises its tally, so the set of keys
/// gains `p` at most once.
pub open spec fn port_added(m: Map<i32, i32>, p: i32) -> Map<i32, i32> {
    m.insert(p, if m.contains_key(p) { (m[p] + 1) as i32 } else { 1i32 })
}

/// The port table after observing the ports `ps` in order.
pub open spec fn ports_after(m: Map<i32, i32>, ps: Seq<i32>) -> Map<i32, i32>
    decreases ps.len(),
{
    if ps.len() == 0 {
        m
    } else {
        port_added(ports_after(m, ps.drop_last()), ps.last())
    }
}

/// All counters are zero and the port table is empty: the state of a fresh
/// window.
pub open spec fn is_reset(c: Count) -> bool {
    &&& c.syn == 0
    &&& c.ack == 0
    &&& c.icmp == 0
    &&& c.arp == 0
    &&& c.traffic == 0
    &&& c.port@ == Map::<i32, i32>::empty()
}

/// No counter is below zero: true of a fresh window and preserved by every
/// frame, since counters only ever grow until the reset.
pub open spec fn counters_nonneg(c: Count) -> bool {
    c.syn >= 0 && c.ack >= 0 && c.icmp >= 0 && c.arp >= 0 && c.traffic >= 0
}

/// Everything but the SYN counter agrees between `a` and `b`.
pub open spec fn same_but_syn(a: Count, b: Count) -> bool {
    a.ack == b.ack && a.port@ == b.port@ && a.traffic == b.traffic && a.icmp == b.icmp && a.arp
        == b.arp
}

/// Everything but the ACK counter agrees between `a` and `b`.
pub open spec fn same_but_ack(a: Count, b: Count) -> bool {
    a.syn == b.syn && a.port@ == b.port@ && a.traffic == b.traffic && a.icmp == b.icmp && a.arp
        == b.arp
}

/// Everything but the port table agrees between `a` and `b`.
pub open spec fn same_but_port(a: Count, b: Count) -> bool {
    a.syn == b.syn && a.ack == b.ack && a.traffic == b.traffic && a.icmp == b.icmp && a.arp == b.arp
}

/// Everything but the traffic accumulator agrees between `a` and `b`.
pub open spec fn same_but_traffic(a: Count, b: Count) -> bool {
    a.syn == b.syn && a.ack == b.ack && a.port@ == b.port@ && a.icmp == b.icmp && a.arp == b.arp
}

/// Everything but the ICMP counter agrees between `a` and `b`.
pub open spec fn same_but_icmp(a: Count, b: Count) -> bool {
    a.syn == b.syn && a.ack == b.ack && a.port@ == b.port@ && a.traffic == b.traffic && a.arp
        == b.arp
}

/// Everything but the ARP counter agrees between `a` and `b`.
pub open spec fn same_but_arp(a: Count, b: Count) -> bool {
    a.syn == b.syn && a.ack == b.ack && a.port@ == b.port@ && a.traffic == b.traffic && a.icmp
        == b.icmp
}

impl Count {
    /// Fresh counters: a window that has seen nothing.
    pub fn new() -> (c: Count)
        ensures
            is_reset(c),
    {
        Count { syn: 0, ack: 0, icmp: 0, traffic: 0, port: HashMap::new(), arp: 0 }
    }

    /// One more TCP segment carried the SYN flag.
    pub fn syn_up(&mut self)
        requires
            old(self).syn < i32::MAX,
        ensures
            final(self).syn == old(self).syn + 1,
            same_but_syn(*old(self), *final(self)),
    {
        self.syn = self.syn + 1;
    }

    /// One more TCP segment carried the ACK flag.
    pub fn ack_up(&mut self)
        requires
            old(self).ack < i32::MAX,
        ensures
            final(self).ack == old(self).ack + 1,
            same_but_ack(*old(self), *final(self)),
    {
        self.ack = self.ack + 1;
    }

    /// Record one observation of transport port `portnum`. The distinct-port
    /// count grows only when the port was not in the table yet.
    pub fn add_port(&mut self, portnum: i32)
        requires
            old(self).port@.contains_key(portnum) ==> old(self).port@[portnum] < i32::MAX,
        ensures
            final(self).port@ == port_added(old(self).port@, portnum),
            same_but_port(*old(self), *final(self)),
    {
        let prev: Option<i32> = match self.port.get(&portnum) {
            Some(v) => Some(*v),
            None => None,
        };
        match prev {
            Some(v) => {
                self.port.insert(portnum, v + 1);
            },
            None => {
                self.port.insert(portnum, 1);
            },
        }
    }

    /// Add one frame's or segment's on-wire byte size to the accumulator.
    pub fn traffic_up(&mut self, traffic_quantity: i128)
        requires
            old(self).traffic + traffic_quantity <= i128::MAX,
            old(self).traffic + traffic_quantity >= i128::MIN,
        ensures
            final(self).traffic == old(self).traffic + traffic_quantity,
            same_but_traffic(*old(self), *final(self)),
    {
        self.traffic = self.traffic + traffic_quantity;
    }

    /// One more ICMP packet was seen.
    pub fn icmp_up(&mut self)
        requires
            old(self).icmp < i32::MAX,
        ensures
            final(self).icmp == old(self).icmp + 1,
            same_but_icmp(*old(self), *final(self)),
    {
        self.icmp = self.icmp + 1;
    }

    /// One more ARP frame was seen.
    pub fn arp_up(&mut self)
        requires
            old(self).arp < i32::MAX,
        ensures
            final(self).arp == old(self).arp + 1,
            same_but_arp(*old(self), *final(self)),
    {
        self.arp = self.arp + 1;
    }

    /// Clear every counter and empty the port table: the one way a window is
    /// ever cleared.
    pub fn reflesh(&mut self)
        ensures
            is_reset(*final(self)),
    {
        self.ack = 0;
        self.syn = 0;
        self.arp = 0;
        self.icmp = 0;
        self.traffic = 0;
        self.port = HashMap::new();
    }

    /// Read out the current totals for emission and start a fresh window.
    /// The snapshot carries the values as they stood; afterwards the counters
    /// are all zero and the port table is empty.
    pub fn snapshot_and_reset(&mut self) -> (s: AggregateSnapshot)
        ensures
            s.ack == old(self).ack,
            s.syn == old(self).syn,
            s.arp == old(self).arp,
            s.icmp == old(self).icmp,
            s.traffic == old(self).traffic,
            s.distinct_port_count == old(self).port@.len(),
            is_reset(*final(self)),
    {
        let s = AggregateSnapshot {
            ack: self.ack,
            syn: self.syn,
            arp: self.arp,
            icmp: self.icmp,
            traffic: self.traffic,
            distinct_port_count: self.port.len(),
        };
        self.reflesh();
        s
    }
}

/// Resetting is complete: a snapshot taken of counters in the reset state
/// reads zero everywhere, so two back-to-back readouts with no frames between
/// them yield an all-zero second snapshot.
pub proof fn lemma_snapshot_after_reset(c: Count)
    requires
        is_reset(c),
    ensures
        c.syn == 0,
        c.ack == 0,
        c.arp == 0,
        c.icmp == 0,
        c.traffic == 0,
        c.port@.len() == 0,
{
}

/// Observing a pair of ports is two single observations, source first.
pub proof fn lemma_ports_after_pair(m: Map<i32, i32>, a: i32, b: i32)
    ensures
        ports_after(m, seq![a, b]) == port_added(port_added(m, a), b),
{
    assert(seq![a, b].drop_last() =~= seq![a]);
    assert(seq![a].drop_last() =~= Seq::<i32>::empty());
    assert(ports_after(m, Seq::<i32>::empty()) == m);
    assert(ports_after(m, seq![a]) == port_added(m, a));
    assert(ports_after(m, seq![a, b]) == port_added(port_added(m, a), b));
}

/// The keys of the port table are exactly the ports ever observed: feeding the
/// ports `ps` into an empty table leaves its key set equal to the set of
/// distinct values of `ps`, however often a port repeats.
pub proof fn lemma_distinct_ports(m: Map<i32, i32>, ps: Seq<i32>)
    ensures
        ports_after(m, ps).dom() =~= m.dom().union(ps.to_set()),
    decreases ps.len(),
{
    if ps.len() == 0 {
        assert(ps.to_set() =~= Set::<i32>::empty());
    } else {
        lemma_distinct_ports(m, ps.drop_last());
        assert forall|x: i32| ps.to_set().contains(x) implies ps.drop_last().to_set().insert(
            ps.last(),
        ).contains(x) by {
            let i = choose|i: int| 0 <= i < ps.len() && ps[i] == x;
            if i < ps.len() - 1 {
                assert(ps.drop_last()[i] == x);
            }
        }
        assert forall|x: i32|
            ps.drop_last().to_set().insert(ps.last()).contains(x) implies ps.to_set().contains(
            x,
        ) by {
            if ps.drop_last().to_set().contains(x) {
                let i = choose|i: int| 0 <= i < ps.drop_last().len() && ps.drop_last()[i] == x;
                assert(ps[i] == x);
            } else {
                assert(ps[ps.len() - 1] == x);
            }
        }
        assert(ps.drop_last().to_set().insert(ps.last()) =~= ps.to_set());
    }
}

/// The distinct-port count after a sequence of observations starting from a
/// fresh window is the number of unique ports in the sequence, not the number
/// of port-carrying packets.
pub proof fn lemma_distinct_port_count(ps: Seq<i32>)
    ensures
        ports_after(Map::<i32, i32>::empty(), ps).dom() =~= ps.to_set(),
        ports_after(Map::<i32, i32>::empty(), ps).len() == ps.to_set().len(),
{
    lemma_distinct_ports(Map::<i32, i32>::empty(), ps);
    assert(Map::<i32, i32>::empty().dom().union(ps.to_set()) =~= ps.to_set());
}

} // verus!
