use crate::counter::AggregateSnapshot;
use crate::text::{dec_of, push_comma, push_dec_u128, push_newline, push_space};
use vstd::prelude::*;
use vstd::string::StringExecFns;

verus! {

/// The transport-layer family of one classified packet.
#[derive(Clone, Copy, Debug, PartialEq, Eq, Structural)]
pub enum Protocol {
    Tcp,
    Udp,
    Icmp,
    Arp,
}

/// The uppercase name of a protocol tag.
pub open spec fn protocol_text(p: Protocol) -> Seq<char> {
    match p {
        Protocol::Tcp => seq!['T', 'C', 'P'],
        Protocol::Udp => seq!['U', 'D', 'P'],
        Protocol::Icmp => seq!['I', 'C', 'M', 'P'],
        Protocol::Arp => seq!['A', 'R', 'P'],
    }
}

impl Protocol {
    /// The protocol tag as text.
    pub fn name(&self) -> (r: String)
        ensures
            r@ == protocol_text(*self),
    {
        match self {
            Protocol::Tcp => {
                let r = String::from_str("TCP");
                proof {
                    reveal_strlit("TCP");
                    assert(r@ =~= protocol_text(*self));
                }
                r
            },
            Protocol::Udp => {
                let r = String::from_str("UDP");
                proof {
                    reveal_strlit("UDP");
                    assert(r@ =~= protocol_text(*self));
                }
                r
            },
            Protocol::Icmp => {
                let r = String::from_str("ICMP");
                proof {
                    reveal_strlit("ICMP");
                    assert(r@ =~= protocol_text(*self));
                }
                r
            },
            Protocol::Arp => {
                let r = String::from_str("ARP");
                proof {
                    reveal_strlit("ARP");
                    assert(r@ =~= protocol_text(*self));
                }
                r
            },
        }
    }
}

/// One classified communication event: built once per successfully dissected
/// packet and handed straight to the sink.
pub struct FlowRecord {
    pub timestamp: String,
    pub protocol: Protocol,
    pub source_address: String,
    pub destination_address: String,
    pub source_port: Option<u16>,
    pub destination_port: Option<u16>,
}

/// The text of an optional port: its decimal numeral, or nothing.
pub open spec fn opt_port_text(p: Option<u16>) -> Seq<char> {
    match p {
        Option::Some(n) => dec_of(n as int),
        Option::None => Seq::<char>::empty(),
    }
}

/// The sink line for one flow record. TCP and UDP lines carry the timestamp
/// and put the destination before the source; ICMP (and ARP) lines carry only
/// the protocol name and the two addresses.
pub open spec fn record_line_text(r: FlowRecord) -> Seq<char> {
    match r.protocol {
        Protocol::Tcp | Protocol::Udp => r.timestamp@ + seq![','] + protocol_text(r.protocol)
            + seq![','] + r.destination_address@ + seq![','] + r.source_address@ + seq![',']
            + opt_port_text(r.destination_port) + seq![','] + opt_port_text(r.source_port)
            + seq!['\n'],
        Protocol::Icmp | Protocol::Arp => protocol_text(r.protocol) + seq![',']
            + r.source_address@ + seq![','] + r.destination_address@ + seq!['\n'],
    }
}

fn push_opt_port(s: &mut String, p: &Option<u16>)
    ensures
        final(s)@ == old(s)@ + opt_port_text(*p),
{
    match p {
        Option::Some(n) => {
            push_dec_u128(s, *n as u128);
        },
        Option::None => {
            proof {
                assert(s@ =~= old(s)@ + opt_port_text(*p));
            }
        },
    }
}

/// Render one flow record as its sink line.
pub fn record_line(r: &FlowRecord) -> (line: String)
    ensures
        line@ == record_line_text(*r),
{
    match r.protocol {
        Protocol::Tcp | Protocol::Udp => {
            let mut s = String::new();
            s.append(r.timestamp.as_str());
            push_comma(&mut s);
            let name = r.protocol.name();
            s.append(name.as_str());
            push_comma(&mut s);
            s.append(r.destination_address.as_str());
            push_comma(&mut s);
            s.append(r.source_address.as_str());
            push_comma(&mut s);
            push_opt_port(&mut s, &r.destination_port);
            push_comma(&mut s);
            push_opt_port(&mut s, &r.source_port);
            push_newline(&mut s);
            proof {
                assert(s@ =~= record_line_text(*r));
            }
            s
        },
        Protocol::Icmp | Protocol::Arp => {
            let mut s = String::new();
            let name = r.protocol.name();
            s.append(name.as_str());
            push_comma(&mut s);
            s.append(r.source_address.as_str());
            push_comma(&mut s);
            s.append(r.destination_address.as_str());
            push_newline(&mut s);
            proof {
                assert(s@ =~= record_line_text(*r));
            }
            s
        },
    }
}

/// The sink line for one window's totals: ACK, SYN, ARP and ICMP counts, the
/// byte accumulator, and the distinct-port count, space-separated.
pub open spec fn snapshot_line_text(s: AggregateSnapshot) -> Seq<char> {
    dec_of(s.ack as int) + seq![' '] + dec_of(s.syn as int) + seq![' '] + dec_of(s.arp as int)
        + seq![' '] + dec_of(s.icmp as int) + seq![' '] + dec_of(s.traffic as int) + seq![' ']
        + dec_of(s.distinct_port_count as int) + seq!['\n']
}

/// Render one snapshot as its sink line. Counters only ever grow from zero,
/// so all fields are non-negative here.
pub fn snapshot_line(snap: &AggregateSnapshot) -> (line: String)
    requires
        snap.ack >= 0,
        snap.syn >= 0,
        snap.arp >= 0,
        snap.icmp >= 0,
        snap.traffic >= 0,
    ensures
        line@ == snapshot_line_text(*snap),
{
    let mut s = String::new();
    push_dec_u128(&mut s, snap.ack as u128);
    push_space(&mut s);
    push_dec_u128(&mut s, snap.syn as u128);
    push_space(&mut s);
    push_dec_u128(&mut s, snap.arp as u128);
    push_space(&mut s);
    push_dec_u128(&mut s, snap.icmp as u128);
    push_space(&mut s);
    push_dec_u128(&mut s, snap.traffic as u128);
    push_space(&mut s);
    push_dec_u128(&mut s, snap.distinct_port_count as u128);
    push_newline(&mut s);
    proof {
        assert(s@ =~= snapshot_line_text(*snap));
    }
    s
}

} // verus!
