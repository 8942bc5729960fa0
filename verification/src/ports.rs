//! The bounded port scanner's verified logic: how one probe outcome is
//! recorded and which probed ports a host retains.  The TCP connect
//! attempts themselves run outside this crate; their outcomes arrive
//! here as plain values, in completion order.

use vstd::prelude::*;

use crate::modules::{Port, Subdomain};

verus! {

/// The record of one probe: the port, whether the connect attempt
/// succeeded within its timeout, and no findings yet.
pub fn scan_port(port: u16, accepted: bool) -> (r: Port)
    ensures
        r.port == port,
        r.is_open == accepted,
        r.findings@.len() == 0,
        r.wf(),
{
    Port { port, is_open: accepted, findings: Vec::new() }
}

/// The open ports among the probe outcomes `probed`, in the order given.
pub open spec fn open_ports_of(probed: Seq<Port>) -> Seq<Port>
    decreases probed.len(),
{
    if probed.len() == 0 {
        Seq::empty()
    } else {
        let rest = open_ports_of(probed.drop_last());
        if probed.last().is_open {
            rest.push(probed.last())
        } else {
            rest
        }
    }
}

/// Attach to `subdomain` the open ports among the probe outcomes
/// `probed`: closed ports are dropped, never stored.
pub fn scan_ports(subdomain: Subdomain, probed: Vec<Port>) -> (r: Subdomain)
    ensures
        r.domain@ == subdomain.domain@,
        r.open_ports@ == open_ports_of(probed@),
        r.wf(),
{
    let ghost all = probed@;
    let mut input = probed;
    let mut open: Vec<Port> = Vec::new();
    proof {
        assert(all.take(0) =~= Seq::<Port>::empty());
        assert(all.skip(0) =~= all);
    }
    while input.len() > 0
        invariant
            input@.len() <= all.len(),
            input@ == all.skip(all.len() - input@.len()),
            open@ == open_ports_of(all.take(all.len() - input@.len())),
        decreases input@.len(),
    {
        let ghost k = all.len() - input@.len();
        let p = input.remove(0);
        proof {
            assert(all.skip(k)[0] == all[k]);
            assert(input@ =~= all.skip(k + 1));
            assert(all.take(k + 1).drop_last() =~= all.take(k));
            assert(all.take(k + 1).last() == all[k]);
        }
        if p.is_open {
            open.push(p);
        }
        proof {
            assert(open@ == open_ports_of(all.take(k + 1)));
        }
    }
    proof {
        assert(all.take(all.len() as int) =~= all);
    }
    let r = Subdomain { domain: subdomain.domain, open_ports: open };
    proof {
        lemma_scan_keeps_only_open(all);
    }
    r
}

/// Only ports whose connect attempt succeeded survive a scan, and every
/// survivor is one of the probe outcomes.
pub proof fn lemma_scan_keeps_only_open(probed: Seq<Port>)
    ensures
        forall|k: int|
            0 <= k < open_ports_of(probed).len() ==> (#[trigger] open_ports_of(probed)[k]).is_open
                && probed.contains(open_ports_of(probed)[k]),
    decreases probed.len(),
{
    if probed.len() > 0 {
        lemma_scan_keeps_only_open(probed.drop_last());
        let rest = open_ports_of(probed.drop_last());
        assert forall|k: int| 0 <= k < open_ports_of(probed).len() implies (
        #[trigger] open_ports_of(probed)[k]).is_open && probed.contains(
            open_ports_of(probed)[k],
        ) by {
            if k < rest.len() {
                assert(open_ports_of(probed)[k] == rest[k]);
                let i = choose|i: int|
                    0 <= i < probed.drop_last().len() && probed.drop_last()[i] == rest[k];
                assert(probed[i] == rest[k]);
            } else {
                assert(open_ports_of(probed)[k] == probed.last());
                assert(probed[probed.len() - 1] == probed.last());
            }
        }
    }
}

/// A probe outcome reported open is retained by the scan.
proof fn lemma_open_port_retained(probed: Seq<Port>, i: int)
    requires
        0 <= i < probed.len(),
        probed[i].is_open,
    ensures
        open_ports_of(probed).contains(probed[i]),
    decreases probed.len(),
{
    let rest = open_ports_of(probed.drop_last());
    if i == probed.len() - 1 {
        assert(open_ports_of(probed)[rest.len() as int] == probed[i]);
    } else {
        lemma_open_port_retained(probed.drop_last(), i);
        let k = choose|k: int| 0 <= k < rest.len() && rest[k] == probed.drop_last()[i];
        assert(open_ports_of(probed)[k] == probed[i]);
    }
}

/// The port numbers of the probe outcomes.
pub open spec fn port_numbers(probed: Seq<Port>) -> Set<u16> {
    probed.map_values(|p: Port| p.port).to_set()
}

/// The port numbers a scan retains.
pub open spec fn open_port_numbers(probed: Seq<Port>) -> Set<u16> {
    open_ports_of(probed).map_values(|p: Port| p.port).to_set()
}

/// The probe outcomes agree with a fixed server: each probed port is
/// reported open exactly when the server holds it open.
pub open spec fn probes_consistent(probed: Seq<Port>, server_open: Map<u16, bool>) -> bool {
    forall|k: int|
        0 <= k < probed.len() ==> server_open.dom().contains((#[trigger] probed[k]).port)
            && probed[k].is_open == server_open[probed[k].port]
}

proof fn lemma_open_port_numbers(probed: Seq<Port>, server_open: Map<u16, bool>)
    requires
        probes_consistent(probed, server_open),
    ensures
        open_port_numbers(probed) =~= port_numbers(probed).intersect(
            Set::new(|x: u16| server_open.dom().contains(x) && server_open[x]),
        ),
{
    let opened = open_ports_of(probed);
    let mapped = opened.map_values(|p: Port| p.port);
    let pm = probed.map_values(|p: Port| p.port);
    lemma_scan_keeps_only_open(probed);
    assert forall|x: u16| open_port_numbers(probed).contains(x) implies port_numbers(
        probed,
    ).intersect(Set::new(|y: u16| server_open.dom().contains(y) && server_open[y])).contains(
        x,
    ) by {
        let k = choose|k: int| 0 <= k < mapped.len() && mapped[k] == x;
        assert(opened[k].port == x && opened[k].is_open);
        let i = choose|i: int| 0 <= i < probed.len() && probed[i] == opened[k];
        assert(pm[i] == x);
        assert(pm.contains(x));
    }
    assert forall|x: u16|
        port_numbers(probed).intersect(
            Set::new(|y: u16| server_open.dom().contains(y) && server_open[y]),
        ).contains(x) implies open_port_numbers(probed).contains(x) by {
        let i = choose|i: int| 0 <= i < pm.len() && pm[i] == x;
        assert(probed[i].port == x);
        assert(probed[i].is_open);
        lemma_open_port_retained(probed, i);
        let k = choose|k: int| 0 <= k < opened.len() && opened[k] == probed[i];
        assert(mapped[k] == x);
        assert(mapped.contains(x));
    }
}

/// Scanning a host twice against a static server - each port accepts or
/// refuses connections the same way in both runs - retains the same set
/// of open port numbers, whatever order the probes completed in.
pub proof fn lemma_port_scan_idempotent(
    probed1: Seq<Port>,
    probed2: Seq<Port>,
    server_open: Map<u16, bool>,
)
    requires
        port_numbers(probed1) == port_numbers(probed2),
        probes_consistent(probed1, server_open),
        probes_consistent(probed2, server_open),
    ensures
        open_port_numbers(probed1) == open_port_numbers(probed2),
{
    lemma_open_port_numbers(probed1, server_open);
    lemma_open_port_numbers(probed2, server_open);
    assert(open_port_numbers(probed1) =~= open_port_numbers(probed2));
}

} // verus!
