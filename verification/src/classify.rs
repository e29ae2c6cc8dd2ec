use vstd::prelude::*;
use crate::types::{Datagram, DNSMessage, Dhcpv4Record, L7SessionTag};
use crate::dns::{parse, scan_message, dns_message_matches};
use crate::text::now_micros;

verus! {

/// Saturating increment for a drop counter.
pub open spec fn sat_inc(x: u64) -> u64 {
    if x < u64::MAX {
        (x + 1) as u64
    } else {
        x
    }
}

/// A bounded multi-producer channel modelled as the queue of items the
/// consumer has not yet taken: a send onto a full channel drops the
/// item and counts the drop, and never blocks.
pub struct BoundedChannel<T> {
    pub items: Vec<T>,
    pub capacity: usize,
    pub dropped: u64,
}

impl<T> BoundedChannel<T> {
    /// An empty channel with the given capacity.
    pub fn new(capacity: usize) -> (r: Self)
        ensures
            r.items@.len() == 0,
            r.capacity == capacity,
            r.dropped == 0,
    {
        BoundedChannel { items: Vec::new(), capacity, dropped: 0 }
    }

    /// Non-blocking send: enqueues below capacity, otherwise drops the
    /// item and counts it.
    pub fn send(&mut self, item: T)
        ensures
            final(self).capacity == old(self).capacity,
            old(self).items@.len() < old(self).capacity ==> (final(self).items@ == old(
                self,
            ).items@.push(item) && final(self).dropped == old(self).dropped),
            old(self).items@.len() >= old(self).capacity ==> (final(self).items@ == old(
                self,
            ).items@ && final(self).dropped == sat_inc(old(self).dropped)),
    {
        if self.items.len() < self.capacity {
            self.items.push(item);
        } else if self.dropped < u64::MAX {
            self.dropped = self.dropped + 1;
        }
    }
}

/// The metrics registry slice this core touches: the per-datagram
/// classifier latency samples, in microseconds.
pub struct Metrics {
    pub tag_and_route_timer: Vec<u64>,
}

impl Metrics {
    /// The dotted name under which the classifier latency samples are
    /// emitted.
    pub fn tag_and_route_metric_name() -> (s: &'static str)
        ensures
            s@ == "processors.udp.timer.tag_and_route"@,
    {
        "processors.udp.timer.tag_and_route"
    }

    /// An empty registry.
    pub fn new() -> (r: Self)
        ensures
            r.tag_and_route_timer@.len() == 0,
    {
        Metrics { tag_and_route_timer: Vec::new() }
    }

    /// Records one classifier latency sample.
    pub fn record_tag_and_route(&mut self, micros: u64)
        ensures
            final(self).tag_and_route_timer@ == old(self).tag_and_route_timer@.push(micros),
    {
        self.tag_and_route_timer.push(micros);
    }
}

/// The UDP session table: a register of the datagrams handed to it.
pub struct UdpTable {
    pub datagrams: Vec<Datagram>,
}

impl UdpTable {
    /// An empty table.
    pub fn new() -> (r: Self)
        ensures
            r.datagrams@.len() == 0,
    {
        UdpTable { datagrams: Vec::new() }
    }

    /// Registers one datagram; the table owns it afterwards.
    pub fn register_datagram(&mut self, datagram: Datagram)
        ensures
            final(self).datagrams@ == old(self).datagrams@.push(datagram),
    {
        self.datagrams.push(datagram);
    }
}

/// The tags one classifier pass appends for a payload: the DNS pair
/// when the payload decodes as DNS, then the DHCPv4 pair when a DHCPv4
/// record was decoded.
pub open spec fn spec_route_tags(p: Seq<u8>, has_dhcp: bool) -> Seq<L7SessionTag> {
    let dns_part: Seq<L7SessionTag> = if scan_message(p) is Some {
        seq![L7SessionTag::Dns, L7SessionTag::Unencrypted]
    } else {
        Seq::empty()
    };
    if has_dhcp {
        dns_part + seq![L7SessionTag::Dhcpv4, L7SessionTag::Unencrypted]
    } else {
        dns_part
    }
}

/// The effect of forwarding a decoded DNS message for `udp` onto the
/// DNS pipeline.
pub open spec fn sent_dns(
    oldc: BoundedChannel<DNSMessage>,
    newc: BoundedChannel<DNSMessage>,
    udp: Datagram,
) -> bool {
    &&& newc.capacity == oldc.capacity
    &&& if oldc.items@.len() < oldc.capacity {
        &&& newc.items@.len() == oldc.items@.len() + 1
        &&& newc.items@.subrange(0, oldc.items@.len() as int) == oldc.items@
        &&& dns_message_matches(newc.items@.last(), udp)
        &&& newc.dropped == oldc.dropped
    } else {
        &&& newc.items@ == oldc.items@
        &&& newc.dropped == sat_inc(oldc.dropped)
    }
}

/// The effect of forwarding a decoded DHCPv4 record onto the DHCPv4
/// pipeline.
pub open spec fn sent_dhcp(
    oldc: BoundedChannel<Dhcpv4Record>,
    newc: BoundedChannel<Dhcpv4Record>,
    d: Dhcpv4Record,
) -> bool {
    &&& newc.capacity == oldc.capacity
    &&& if oldc.items@.len() < oldc.capacity {
        &&& newc.items@ == oldc.items@.push(d)
        &&& newc.dropped == oldc.dropped
    } else {
        &&& newc.items@ == oldc.items@
        &&& newc.dropped == sat_inc(oldc.dropped)
    }
}

/// The registered datagram is the input datagram with the classifier's
/// tags appended.
pub open spec fn registered_matches(reg: Datagram, input: Datagram, added: Seq<L7SessionTag>) -> bool {
    &&& reg.source_mac == input.source_mac
    &&& reg.destination_mac == input.destination_mac
    &&& reg.source_address == input.source_address
    &&& reg.destination_address == input.destination_address
    &&& reg.source_port == input.source_port
    &&& reg.destination_port == input.destination_port
    &&& reg.payload == input.payload
    &&& reg.timestamp == input.timestamp
    &&& reg.tags@ == input.tags@ + added
}

/// The UDP classifier: decodes each datagram, forwards decoded
/// messages downstream, tags the datagram and registers it in the UDP
/// table.
pub struct UDPProcessor {
    pub dns_pipeline: BoundedChannel<DNSMessage>,
    pub dhcpv4_pipeline: BoundedChannel<Dhcpv4Record>,
    pub metrics: Metrics,
    pub udp_table: UdpTable,
}

impl UDPProcessor {
    /// A classifier over the two downstream pipelines, the metrics
    /// registry and the UDP table.
    pub fn new(
        dns_pipeline: BoundedChannel<DNSMessage>,
        dhcpv4_pipeline: BoundedChannel<Dhcpv4Record>,
        metrics: Metrics,
        udp_table: UdpTable,
    ) -> (r: Self)
        ensures
            r.dns_pipeline == dns_pipeline,
            r.dhcpv4_pipeline == dhcpv4_pipeline,
            r.metrics == metrics,
            r.udp_table == udp_table,
    {
        UDPProcessor { dns_pipeline, dhcpv4_pipeline, metrics, udp_table }
    }

    /// Attempts the DNS parser on the payload and takes the decoded
    /// DHCPv4 record its own parser handed over; each match appends its
    /// tags and forwards the decoded value downstream. Both parsers are
    /// considered independently.
    pub fn tag_and_route(&mut self, datagram: &Datagram, dhcp: Option<Dhcpv4Record>) -> (tags: Vec<
        L7SessionTag,
    >)
        ensures
            tags@ == spec_route_tags(datagram.payload@, dhcp is Some),
            scan_message(datagram.payload@) is Some ==> sent_dns(
                old(self).dns_pipeline,
                final(self).dns_pipeline,
                *datagram,
            ),
            scan_message(datagram.payload@) is None ==> final(self).dns_pipeline == old(
                self,
            ).dns_pipeline,
            dhcp matches Some(d) ==> sent_dhcp(
                old(self).dhcpv4_pipeline,
                final(self).dhcpv4_pipeline,
                d,
            ),
            dhcp is None ==> final(self).dhcpv4_pipeline == old(self).dhcpv4_pipeline,
            final(self).metrics == old(self).metrics,
            final(self).udp_table == old(self).udp_table,
    {
        let mut tags: Vec<L7SessionTag> = Vec::new();
        match parse(datagram) {
            Some(dns) => {
                tags.push(L7SessionTag::Dns);
                tags.push(L7SessionTag::Unencrypted);
                let ghost oldc = self.dns_pipeline;
                self.dns_pipeline.send(dns);
                proof {
                    if oldc.items@.len() < oldc.capacity {
                        assert(self.dns_pipeline.items@.subrange(0, oldc.items@.len() as int)
                            =~= oldc.items@);
                    }
                }
            },
            None => {},
        }
        match dhcp {
            Some(record) => {
                tags.push(L7SessionTag::Dhcpv4);
                tags.push(L7SessionTag::Unencrypted);
                self.dhcpv4_pipeline.send(record);
            },
            None => {},
        }
        proof {
            assert(tags@ =~= spec_route_tags(datagram.payload@, dhcp is Some));
        }
        tags
    }

    /// One classifier pass over one datagram: route and tag, record
    /// exactly one latency sample, merge the tags into the datagram and
    /// register it in the UDP table, which then owns it. The final tag
    /// set extends the set the datagram arrived with.
    pub fn process(&mut self, datagram: Datagram, dhcp: Option<Dhcpv4Record>)
        ensures
            final(self).metrics.tag_and_route_timer@.len() == old(
                self,
            ).metrics.tag_and_route_timer@.len() + 1,
            final(self).udp_table.datagrams@.len() == old(self).udp_table.datagrams@.len() + 1,
            final(self).udp_table.datagrams@.subrange(
                0,
                old(self).udp_table.datagrams@.len() as int,
            ) == old(self).udp_table.datagrams@,
            registered_matches(
                final(self).udp_table.datagrams@.last(),
                datagram,
                spec_route_tags(datagram.payload@, dhcp is Some),
            ),
            forall|t: L7SessionTag|
                datagram.tags@.contains(t)
                    ==> final(self).udp_table.datagrams@.last().tags@.contains(t),
            scan_message(datagram.payload@) is Some ==> sent_dns(
                old(self).dns_pipeline,
                final(self).dns_pipeline,
                datagram,
            ),
            scan_message(datagram.payload@) is None ==> final(self).dns_pipeline == old(
                self,
            ).dns_pipeline,
            dhcp matches Some(d) ==> sent_dhcp(
                old(self).dhcpv4_pipeline,
                final(self).dhcpv4_pipeline,
                d,
            ),
            dhcp is None ==> final(self).dhcpv4_pipeline == old(self).dhcpv4_pipeline,
    {
        let t0 = now_micros();
        let tags = self.tag_and_route(&datagram, dhcp);
        let t1 = now_micros();
        let elapsed: u64 = if t0 >= 0 && t1 >= t0 {
            (t1 - t0) as u64
        } else {
            0
        };
        self.metrics.record_tag_and_route(elapsed);
        let mut datagram = datagram;
        let ghost input = datagram;
        let mut i: usize = 0;
        while i < tags.len()
            invariant
                i <= tags@.len(),
                datagram.tags@ == input.tags@ + tags@.subrange(0, i as int),
                datagram.source_mac == input.source_mac,
                datagram.destination_mac == input.destination_mac,
                datagram.source_address == input.source_address,
                datagram.destination_address == input.destination_address,
                datagram.source_port == input.source_port,
                datagram.destination_port == input.destination_port,
                datagram.payload == input.payload,
                datagram.timestamp == input.timestamp,
            decreases tags@.len() - i,
        {
            datagram.tags.push(tags[i]);
            proof {
                assert(datagram.tags@ =~= input.tags@ + tags@.subrange(0, i + 1));
            }
            i = i + 1;
        }
        proof {
            assert(tags@.subrange(0, tags@.len() as int) =~= tags@);
            assert forall|t: L7SessionTag| input.tags@.contains(t) implies datagram.tags@.contains(
                t,
            ) by {
                let j = choose|j: int| 0 <= j < input.tags@.len() && input.tags@[j] == t;
                assert(datagram.tags@[j] == t);
            }
        }
        self.udp_table.register_datagram(datagram);
        proof {
            assert(final(self).udp_table.datagrams@.subrange(
                0,
                old(self).udp_table.datagrams@.len() as int,
            ) =~= old(self).udp_table.datagrams@);
        }
    }
}

} // verus!
