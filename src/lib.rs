//! Traceroute over raw link-layer frames: a frame builder for ICMP, UDP and
//! TCP probes, a classifier for inbound ICMP replies, and the hop engine that
//! turns the replies of each TTL into an ordered route.
use vstd::prelude::*;

pub mod util;

use util::packet_builder::PacketBuilder;
use util::address::{dotted_quad, parse_ipv4};
use util::{frame_size_ok, min_frame_size, InterfaceDescriptor, Protocol};
use vstd::utf8::encode_utf8;

verus! {

/// The outcome of one probe: the round-trip time in microseconds (0 when no
/// reply came) and the responder's address, or `*` when no reply came.
pub struct TracerouteQueryResult {
    pub rtt: u64,
    pub addr: String,
}

impl View for TracerouteQueryResult {
    type V = (u64, Seq<char>);

    open spec fn view(&self) -> (u64, Seq<char>) {
        (self.rtt, self.addr@)
    }
}

/// One TTL's outcome: its probes' results in the order they were sent.
pub struct TracerouteHop {
    pub ttl: u8,
    pub query_result: Vec<TracerouteQueryResult>,
}

impl TracerouteHop {
    /// The hop's results as (round-trip time, address) pairs, in order.
    pub open spec fn results(&self) -> Seq<(u64, Seq<char>)> {
        results_view(self.query_result@)
    }
}

/// What came back for one probe before its deadline.
pub enum QueryOutcome {
    /// A router or the destination answered: its address and the time since the probe left.
    Reply { addr: String, rtt: u64 },
    /// Nothing relevant arrived before the deadline.
    Timeout,
}

/// The address recorded for a probe that got no reply.
pub open spec fn no_reply() -> Seq<char> {
    "*"@
}

/// Whether `results` already holds an entry for `addr`.
pub open spec fn has_addr(results: Seq<(u64, Seq<char>)>, addr: Seq<char>) -> bool {
    exists|j: int| 0 <= j < results.len() && (#[trigger] results[j]).1 == addr
}

/// The results of one hop, given its probes' outcomes in order: a timeout is
/// recorded as `(0, "*")`; a reply is recorded unless its address is already there.
pub open spec fn hop_results(outcomes: Seq<QueryOutcome>) -> Seq<(u64, Seq<char>)>
    decreases outcomes.len(),
{
    if outcomes.len() == 0 {
        Seq::empty()
    } else {
        let before = hop_results(outcomes.drop_last());
        match outcomes.last() {
            QueryOutcome::Timeout => before.push((0u64, no_reply())),
            QueryOutcome::Reply { addr, rtt } => if has_addr(before, addr@) {
                before
            } else {
                before.push((rtt, addr@))
            },
        }
    }
}

/// Every reply names a responder: none carries the address recorded for no reply.
pub open spec fn replies_named(outcomes: Seq<QueryOutcome>) -> bool {
    forall|i: int|
        0 <= i < outcomes.len() ==> match #[trigger] outcomes[i] {
            QueryOutcome::Reply { addr, rtt: _ } => addr@ != no_reply(),
            QueryOutcome::Timeout => true,
        }
}

/// Some probe of the hop was answered from `destination`.
pub open spec fn reached(outcomes: Seq<QueryOutcome>, destination: Seq<char>) -> bool {
    exists|i: int|
        0 <= i < outcomes.len() && match #[trigger] outcomes[i] {
            QueryOutcome::Reply { addr, rtt: _ } => addr@ == destination,
            QueryOutcome::Timeout => false,
        }
}

/// The view of each result in order.
pub open spec fn results_view(results: Seq<TracerouteQueryResult>) -> Seq<(u64, Seq<char>)> {
    results.map_values(|q: TracerouteQueryResult| q@)
}

fn contains_addr(results: &Vec<TracerouteQueryResult>, addr: &String) -> (r: bool)
    ensures
        r == has_addr(results_view(results@), addr@),
{
    let ghost v = results_view(results@);
    let mut j: usize = 0;
    while j < results.len()
        invariant
            j <= results@.len(),
            v == results_view(results@),
            forall|k: int| 0 <= k < j ==> v[k].1 != addr@,
        decreases results@.len() - j,
    {
        if results[j].addr == *addr {
            assert(v[j as int].1 == addr@);
            return true;
        }
        j = j + 1;
    }
    false
}

/// The results of one hop from its probes' outcomes, in the order the probes
/// were sent, without a second entry for an address already recorded.
pub fn collect_hop_results(outcomes: &Vec<QueryOutcome>) -> (r: Vec<TracerouteQueryResult>)
    requires
        replies_named(outcomes@),
    ensures
        results_view(r@) == hop_results(outcomes@),
        forall|i: int, j: int|
            0 <= i < j < r@.len() && (#[trigger] r@[i]).addr@ != no_reply() ==> r@[i].addr@ != (
            #[trigger] r@[j]).addr@,
{
    let mut results: Vec<TracerouteQueryResult> = Vec::new();
    let mut i: usize = 0;
    while i < outcomes.len()
        invariant
            i <= outcomes@.len(),
            results_view(results@) == hop_results(outcomes@.subrange(0, i as int)),
        decreases outcomes@.len() - i,
    {
        let ghost before = results_view(results@);
        assert(outcomes@.subrange(0, i + 1).drop_last() =~= outcomes@.subrange(0, i as int));
        match &outcomes[i] {
            QueryOutcome::Timeout => {
                results.push(TracerouteQueryResult { rtt: 0, addr: "*".to_owned() });
                proof {
                    reveal_strlit("*");
                }
                assert(results_view(results@) =~= before.push((0u64, no_reply())));
            },
            QueryOutcome::Reply { addr, rtt } => {
                if !contains_addr(&results, addr) {
                    results.push(TracerouteQueryResult { rtt: *rtt, addr: addr.clone() });
                    assert(results_view(results@) =~= before.push((*rtt, addr@)));
                }
            },
        }
        i = i + 1;
    }
    assert(outcomes@.subrange(0, outcomes@.len() as int) =~= outcomes@);
    proof {
        lemma_hop_results_distinct(outcomes@);
        let v = results_view(results@);
        assert forall|i: int, j: int|
            0 <= i < j < results@.len() && (#[trigger] results@[i]).addr@ != no_reply() implies results@[i].addr@
            != (#[trigger] results@[j]).addr@ by {
            assert(v[i].1 == results@[i].addr@ && v[j].1 == results@[j].addr@);
        }
    }
    results
}

/// Whether some probe of the hop was answered from `destination`.
pub fn hop_reached(outcomes: &Vec<QueryOutcome>, destination: &String) -> (r: bool)
    ensures
        r == reached(outcomes@, destination@),
{
    let mut i: usize = 0;
    while i < outcomes.len()
        invariant
            i <= outcomes@.len(),
            forall|k: int|
                0 <= k < i ==> match #[trigger] outcomes@[k] {
                    QueryOutcome::Reply { addr, rtt: _ } => addr@ != destination@,
                    QueryOutcome::Timeout => true,
                },
        decreases outcomes@.len() - i,
    {
        match &outcomes[i] {
            QueryOutcome::Reply { addr, rtt: _ } => {
                if *addr == *destination {
                    return true;
                }
            },
            QueryOutcome::Timeout => {},
        }
        i = i + 1;
    }
    false
}

/// Why a session's configuration is refused.
#[derive(Clone, Copy, Debug, PartialEq, Eq, Structural)]
pub enum ConfigError {
    /// The destination is not a dotted-quad IPv4 address.
    InvalidDestination,
    /// The maximum hop count is outside 1..=254.
    MaxHopsOutOfRange,
    /// The first TTL is outside 1..=254 or above the maximum hop count.
    FirstTtlOutOfRange,
    /// No probe would be sent per hop.
    NoQueries,
    /// The frame size cannot hold the headers of the protocol.
    FrameTooSmall,
    /// The frame size is above the largest frame built.
    FrameTooLarge,
    /// No interface has been chosen.
    NoInterface,
    /// No interface of the given name is available.
    UnknownInterface,
    /// The chosen interface has no IPv4 address.
    NoIpv4Address,
}

/// The interface that probes leave from: its name, MAC address and the IPv4
/// address used as the source of every probe.
#[derive(Clone, Debug)]
pub struct SourceInterface {
    pub name: String,
    pub mac: [u8; 6],
    pub ip: [u8; 4],
}

/// Largest value of the maximum hop count and of the first TTL.
pub const MAX_TTL_SETTING: u32 = 254;

/// A traceroute session: its configuration and the state of the walk (the
/// TTL of the next hop and whether the walk is over).
pub struct Traceroute {
    addr: String,
    port: u16,
    max_hops: u32,
    number_of_queries: u32,
    ttl: u8,
    done: bool,
    protocol: Protocol,
    mtu: usize,
    source: Option<SourceInterface>,
    timeout_ms: u64,
}

/// The position of the first interface named `name`, if any.
pub open spec fn first_named(available: Seq<InterfaceDescriptor>, name: Seq<char>) -> Option<int> {
    if exists|i: int| 0 <= i < available.len() && (#[trigger] available[i]).name@ == name {
        Some(
            choose|i: int|
                0 <= i < available.len() && (#[trigger] available[i]).name@ == name && forall|j: int|
                    0 <= j < i ==> (#[trigger] available[j]).name@ != name,
        )
    } else {
        None
    }
}

/// The state of a session as contracts see it.
pub struct SessionView {
    /// The destination's address, as replies report it.
    pub addr: Seq<char>,
    pub port: u16,
    pub max_hops: u32,
    pub number_of_queries: u32,
    /// The TTL of the next hop.
    pub ttl: u8,
    /// The walk is over: no further hop is produced.
    pub done: bool,
    pub protocol: Protocol,
    pub mtu: usize,
    pub source: Option<SourceInterface>,
    /// How long each probe waits for its reply, in milliseconds.
    pub timeout_ms: u64,
}

impl View for Traceroute {
    type V = SessionView;

    closed spec fn view(&self) -> SessionView {
        SessionView {
            addr: self.addr@,
            port: self.port,
            max_hops: self.max_hops,
            number_of_queries: self.number_of_queries,
            ttl: self.ttl,
            done: self.done,
            protocol: self.protocol,
            mtu: self.mtu,
            source: self.source,
            timeout_ms: self.timeout_ms,
        }
    }
}

impl Traceroute {
    /// The configuration error of this session, if any, in the order the
    /// checks are made.
    pub open spec fn config_error(&self) -> Option<ConfigError> {
        if dotted_quad(encode_utf8(self@.addr)) is None {
            Some(ConfigError::InvalidDestination)
        } else if !(1 <= self@.max_hops <= MAX_TTL_SETTING) {
            Some(ConfigError::MaxHopsOutOfRange)
        } else if !(1 <= self@.ttl && self@.ttl as u32 <= self@.max_hops) {
            Some(ConfigError::FirstTtlOutOfRange)
        } else if self@.number_of_queries == 0 {
            Some(ConfigError::NoQueries)
        } else if self@.mtu < util::min_frame_size_spec(self@.protocol) {
            Some(ConfigError::FrameTooSmall)
        } else if self@.mtu > util::MAX_FRAME_SIZE {
            Some(ConfigError::FrameTooLarge)
        } else if self@.source is None {
            Some(ConfigError::NoInterface)
        } else {
            None
        }
    }

    /// The settings that stay fixed during the walk are valid: all the
    /// checks of `config_error` but the one on the first TTL.
    pub open spec fn settings_ok(&self) -> bool {
        &&& dotted_quad(encode_utf8(self@.addr)) is Some
        &&& 1 <= self@.max_hops <= MAX_TTL_SETTING
        &&& self@.number_of_queries >= 1
        &&& frame_size_ok(self@.protocol, self@.mtu as nat)
        &&& self@.source is Some
    }

    /// The state invariant of the walk: while it goes on, the next TTL is at
    /// most the maximum hop count, which fits in a TTL.
    pub open spec fn wf(&self) -> bool {
        &&& self@.max_hops <= MAX_TTL_SETTING
        &&& !self@.done ==> self@.ttl as u32 <= self@.max_hops
    }

    /// Creates a session towards `addr` with port 33434, 30 hops at most,
    /// 3 queries per hop, first TTL 1, UDP probes of 80 bytes, a timeout of
    /// one second per probe and no interface.
    pub fn new(addr: &str) -> (r: Self)
        ensures
            r@.addr == addr@,
            r@.port == 33434,
            r@.max_hops == 30,
            r@.number_of_queries == 3,
            r@.ttl == 1,
            !r@.done,
            r@.protocol == Protocol::UDP,
            r@.mtu == 80,
            r@.source is None,
            r@.timeout_ms == 1000,
    {
        Traceroute {
            addr: addr.to_owned(),
            port: 33434,
            max_hops: 30,
            number_of_queries: 3,
            ttl: 1,
            done: false,
            protocol: Protocol::UDP,
            mtu: 80,
            source: None,
            timeout_ms: 1000,
        }
    }

    /// Builder: destination port of UDP and TCP probes.
    pub fn with_port(self, port: u16) -> (r: Self)
        ensures
            r@ == (SessionView { port, ..self@ }),
    {
        Traceroute { port, ..self }
    }

    /// Builder: maximum number of hops.
    pub fn with_max_hops(self, max_hops: u32) -> (r: Self)
        ensures
            r@ == (SessionView { max_hops, ..self@ }),
    {
        Traceroute { max_hops, ..self }
    }

    /// Builder: number of queries to run per hop.
    pub fn with_number_of_queries(self, number_of_queries: u32) -> (r: Self)
        ensures
            r@ == (SessionView { number_of_queries, ..self@ }),
    {
        Traceroute { number_of_queries, ..self }
    }

    /// Builder: first TTL to record.
    pub fn with_first_ttl(self, first_ttl: u8) -> (r: Self)
        ensures
            r@ == (SessionView { ttl: first_ttl, ..self@ }),
    {
        Traceroute { ttl: first_ttl, ..self }
    }

    /// Builder: protocol of the probes.
    pub fn with_protocol(self, protocol: Protocol) -> (r: Self)
        ensures
            r@ == (SessionView { protocol, ..self@ }),
    {
        Traceroute { protocol, ..self }
    }

    /// Builder: total size in bytes of each probe frame.
    pub fn with_mtu(self, mtu: usize) -> (r: Self)
        ensures
            r@ == (SessionView { mtu, ..self@ }),
    {
        Traceroute { mtu, ..self }
    }
    /// Builder: how long each probe waits for its reply, in milliseconds.
    pub fn with_timeout(self, timeout_ms: u64) -> (r: Self)
        ensures
            r@ == (SessionView { timeout_ms, ..self@ }),
    {
        Traceroute { timeout_ms, ..self }
    }

    /// Checks the configuration: `Ok` exactly when no configuration error applies.
    pub fn validate(&self) -> (r: Result<(), ConfigError>)
        ensures
            r == (match self.config_error() {
                Some(e) => Err(e),
                None => Ok(()),
            }),
            r is Ok ==> self.settings_ok() && self.wf(),
    {
        if parse_ipv4(self.addr.as_str().as_bytes()).is_none() {
            Err(ConfigError::InvalidDestination)
        } else if !(1 <= self.max_hops && self.max_hops <= MAX_TTL_SETTING) {
            Err(ConfigError::MaxHopsOutOfRange)
        } else if !(1 <= self.ttl && self.ttl as u32 <= self.max_hops) {
            Err(ConfigError::FirstTtlOutOfRange)
        } else if self.number_of_queries == 0 {
            Err(ConfigError::NoQueries)
        } else if self.mtu < min_frame_size(self.protocol) {
            Err(ConfigError::FrameTooSmall)
        } else if self.mtu > util::MAX_FRAME_SIZE {
            Err(ConfigError::FrameTooLarge)
        } else if self.source.is_none() {
            Err(ConfigError::NoInterface)
        } else {
            Ok(())
        }
    }

    /// Builder: interface to send packets from, looked up by name among
    /// `available`; the first interface of that name is taken, with its
    /// first IPv4 address.
    pub fn with_interface(self, interface: &str, available: &Vec<InterfaceDescriptor>) -> (r: Result<
        Self,
        ConfigError,
    >)
        ensures
            match first_named(available@, interface@) {
                None => r == Err::<Self, ConfigError>(ConfigError::UnknownInterface),
                Some(i) => if available@[i].ips@.len() == 0 {
                    r == Err::<Self, ConfigError>(ConfigError::NoIpv4Address)
                } else {
                    r matches Ok(t) && t@ == (SessionView {
                        source: Some(
                            SourceInterface {
                                name: available@[i].name,
                                mac: available@[i].mac,
                                ip: available@[i].ips@[0],
                            },
                        ),
                        ..self@
                    })
                },
            },
    {
        let wanted = interface.to_owned();
        let mut i: usize = 0;
        while i < available.len()
            invariant
                i <= available@.len(),
                wanted@ == interface@,
                forall|j: int| 0 <= j < i ==> (#[trigger] available@[j]).name@ != interface@,
            decreases available@.len() - i,
        {
            if available[i].name == wanted {
                proof {
                    let k = first_named(available@, interface@)->Some_0;
                    assert(0 <= k < available@.len() && available@[k].name@ == interface@);
                    if k < i {
                        assert(available@[k].name@ != interface@);
                    }
                    if k > i {
                        assert(available@[i as int].name@ == interface@);
                    }
                }
                let found = &available[i];
                if found.ips.len() == 0 {
                    return Err(ConfigError::NoIpv4Address);
                }
                let source = SourceInterface { name: found.name.clone(), mac: found.mac, ip: found.ips[0] };
                return Ok(Traceroute { source: Some(source), ..self });
            }
            i = i + 1;
        }
        Err(ConfigError::UnknownInterface)
    }

    /// The frame builder for this session's probes.
    pub fn packet_builder(&self) -> (r: Option<PacketBuilder>)
        ensures
            match self@.source {
                Some(s) => r matches Some(b) && b.protocol == self@.protocol && b.source_mac == s.mac
                    && b.source_ip == s.ip,
                None => r is None,
            },
    {
        match &self.source {
            Some(s) => Some(PacketBuilder::new(self.protocol, s.mac, s.ip)),
            None => None,
        }
    }

    /// The destination's four octets, if it is a dotted quad.
    pub fn destination_ip(&self) -> (r: Option<[u8; 4]>)
        ensures
            match dotted_quad(encode_utf8(self@.addr)) {
                Some(o) => r matches Some(a) && a@ == o,
                None => r is None,
            },
    {
        parse_ipv4(self.addr.as_str().as_bytes())
    }

    /// The TTL of the next hop, or `None` once the walk is over.
    pub fn next_ttl(&self) -> (r: Option<u8>)
        ensures
            r == (if self@.done {
                None
            } else {
                Some(self@.ttl)
            }),
    {
        if self.done {
            None
        } else {
            Some(self.ttl)
        }
    }

    pub fn port(&self) -> (r: u16)
        ensures
            r == self@.port,
    {
        self.port
    }

    pub fn number_of_queries(&self) -> (r: u32)
        ensures
            r == self@.number_of_queries,
    {
        self.number_of_queries
    }

    pub fn timeout_ms(&self) -> (r: u64)
        ensures
            r == self@.timeout_ms,
    {
        self.timeout_ms
    }

    pub fn mtu(&self) -> (r: usize)
        ensures
            r == self@.mtu,
    {
        self.mtu
    }

    /// The hop at the current TTL from its probes' outcomes. Increases the TTL.
    fn calculate_next_hop(&mut self, outcomes: &Vec<QueryOutcome>) -> (r: TracerouteHop)
        requires
            old(self)@.ttl < 255,
            replies_named(outcomes@),
        ensures
            r.ttl == old(self)@.ttl,
            r.results() == hop_results(outcomes@),
            final(self)@ == (SessionView { ttl: (old(self)@.ttl + 1) as u8, ..old(self)@ }),
    {
        let query_result = collect_hop_results(outcomes);
        self.ttl = self.ttl + 1;
        TracerouteHop { ttl: self.ttl - 1, query_result }
    }

    /// Produces the next hop from the outcomes of its probes, in the order
    /// they were sent; `None` once the walk is over. The walk ends after a
    /// hop in which the destination answered, or whose TTL reached the
    /// maximum hop count.
    pub fn next(&mut self, outcomes: &Vec<QueryOutcome>) -> (r: Option<TracerouteHop>)
        requires
            old(self).settings_ok(),
            old(self).wf(),
            outcomes@.len() == old(self)@.number_of_queries,
            replies_named(outcomes@),
        ensures
            final(self).settings_ok(),
            final(self).wf(),
            old(self)@.done ==> r is None && final(self)@ == old(self)@,
            !old(self)@.done ==> (r matches Some(h) && h.ttl == old(self)@.ttl && h.results()
                == hop_results(outcomes@) && final(self)@ == (SessionView {
                ttl: (old(self)@.ttl + 1) as u8,
                done: hop_ends(old(self)@, outcomes@, old(self)@.ttl as int),
                ..old(self)@
            })),
            !old(self)@.done ==> (r matches Some(h) && (has_addr(h.results(), old(self)@.addr)
                ==> final(self)@.done)),
    {
        if self.done {
            return None;
        }
        let hop = self.calculate_next_hop(outcomes);
        self.done = hop_reached(outcomes, &self.addr) || self.ttl as u32 > self.max_hops;
        proof {
            lemma_no_reply_not_dotted();
            if has_addr(hop.results(), self@.addr) {
                lemma_recorded_address_replied(outcomes@, self@.addr);
            }
        }
        Some(hop)
    }

    /// Drives the walk to its end over the outcomes observed for successive
    /// hops: hop `i` is made from `observed[i]`. Stops when the walk is over
    /// or the observations run out.
    pub fn perform_traceroute(&mut self, observed: &Vec<Vec<QueryOutcome>>) -> (r: Vec<TracerouteHop>)
        requires
            old(self).settings_ok(),
            old(self).wf(),
            forall|i: int|
                0 <= i < observed@.len() ==> (#[trigger] observed@[i])@.len() == old(self)@.number_of_queries
                    && replies_named(observed@[i]@),
        ensures
            final(self).settings_ok(),
            final(self).wf(),
            final(self)@.ttl == old(self)@.ttl + r@.len(),
            final(self)@ == (SessionView { ttl: final(self)@.ttl, done: final(self)@.done, ..old(self)@ }),
            r@.len() <= observed@.len(),
            old(self)@.done ==> r@.len() == 0 && final(self)@ == old(self)@,
            !old(self)@.done ==> r@.len() <= old(self)@.max_hops - old(self)@.ttl + 1,
            !old(self)@.done ==> (final(self)@.done || r@.len() == observed@.len()),
            !old(self)@.done ==> final(self)@.done == (r@.len() > 0 && hop_ends(
                old(self)@,
                observed@[r@.len() - 1]@,
                old(self)@.ttl + r@.len() - 1,
            )),
            forall|i: int|
                0 <= i < r@.len() ==> (#[trigger] r@[i]).ttl == old(self)@.ttl + i && r@[i].results()
                    == hop_results(observed@[i]@),
            forall|i: int| 0 <= i < r@.len() - 1 ==> !hop_ends(old(self)@, #[trigger] observed@[i]@, old(self)@.ttl + i),
            forall|i: int|
                0 <= i < r@.len() && reached(#[trigger] observed@[i]@, old(self)@.addr) ==> i == r@.len() - 1,
            forall|i: int|
                0 <= i < r@.len() && has_addr((#[trigger] r@[i]).results(), old(self)@.addr) ==> i == r@.len()
                    - 1 && final(self)@.done,
    {
        let ghost start = self@;
        let mut hops = Vec::<TracerouteHop>::new();
        let mut k: usize = 0;
        while k < observed.len() && !self.done
            invariant
                self.settings_ok(),
                self.wf(),
                k <= observed@.len(),
                hops@.len() == k,
                forall|i: int|
                    0 <= i < observed@.len() ==> (#[trigger] observed@[i])@.len() == start.number_of_queries
                        && replies_named(observed@[i]@),
                self@ == (SessionView { ttl: self@.ttl, done: self@.done, ..start }),
                start.done ==> k == 0 && self@ == start,
                !start.done ==> self@.ttl == start.ttl + k,
                !start.done ==> self@.done == (k > 0 && hop_ends(start, observed@[k - 1]@, start.ttl + k - 1)),
                forall|i: int|
                    0 <= i < k ==> (#[trigger] hops@[i]).ttl == start.ttl + i && hops@[i].results()
                        == hop_results(observed@[i]@),
                forall|i: int| 0 <= i < k - 1 ==> !hop_ends(start, #[trigger] observed@[i]@, start.ttl + i),
                !start.done ==> k <= start.max_hops - start.ttl + 1,
            decreases observed@.len() - k,
        {
            match self.next(&observed[k]) {
                Some(hop) => hops.push(hop),
                None => {},
            }
            k = k + 1;
        }
        proof {
            assert forall|i: int|
                0 <= i < hops@.len() && reached(#[trigger] observed@[i]@, start.addr) implies i == hops@.len() - 1 by {
                if i < hops@.len() - 1 {
                    assert(!hop_ends(start, observed@[i]@, start.ttl + i));
                }
            }
            lemma_no_reply_not_dotted();
            assert forall|i: int|
                0 <= i < hops@.len() && has_addr((#[trigger] hops@[i]).results(), start.addr) implies i
                == hops@.len() - 1 && self@.done by {
                lemma_recorded_address_replied(observed@[i]@, start.addr);
                if i < hops@.len() - 1 {
                    assert(!hop_ends(start, observed@[i]@, start.ttl + i));
                }
            }
        }
        hops
    }
}

/// The walk ends after the hop at `ttl`, whose probes had `outcomes`.
pub open spec fn hop_ends(v: SessionView, outcomes: Seq<QueryOutcome>, ttl: int) -> bool {
    reached(outcomes, v.addr) || ttl >= v.max_hops
}

/// Within one hop no address other than `*` is recorded twice.
pub proof fn lemma_hop_results_distinct(outcomes: Seq<QueryOutcome>)
    ensures
        ({
            let r = hop_results(outcomes);
            forall|i: int, j: int|
                0 <= i < j < r.len() && (#[trigger] r[i]).1 != no_reply() ==> r[i].1 != (#[trigger] r[j]).1
        }),
    decreases outcomes.len(),
{
    if outcomes.len() > 0 {
        lemma_hop_results_distinct(outcomes.drop_last());
        let before = hop_results(outcomes.drop_last());
        let r = hop_results(outcomes);
        match outcomes.last() {
            QueryOutcome::Timeout => {
                assert forall|i: int, j: int|
                    0 <= i < j < r.len() && (#[trigger] r[i]).1 != no_reply() implies r[i].1 != (
                    #[trigger] r[j]).1 by {
                    if j == before.len() {
                        assert(r[j].1 == no_reply());
                    } else {
                        assert(r[i] == before[i] && r[j] == before[j]);
                    }
                }
            },
            QueryOutcome::Reply { addr, rtt } => {
                if !has_addr(before, addr@) {
                    assert forall|i: int, j: int|
                        0 <= i < j < r.len() && (#[trigger] r[i]).1 != no_reply() implies r[i].1 != (
                        #[trigger] r[j]).1 by {
                        assert(r[i] == before[i]);
                        if j == before.len() {
                            assert(r[j].1 == addr@);
                            assert(before[i].1 != addr@);
                        } else {
                            assert(r[j] == before[j]);
                        }
                    }
                }
            },
        }
    }
}

/// Recording the outcomes of later probes never changes the results
/// recorded before them.
pub proof fn lemma_hop_results_prefix(outcomes: Seq<QueryOutcome>, later: Seq<QueryOutcome>)
    ensures
        hop_results(outcomes).is_prefix_of(hop_results(outcomes + later)),
    decreases later.len(),
{
    if later.len() == 0 {
        assert(outcomes + later =~= outcomes);
    } else {
        let rest = later.drop_last();
        lemma_hop_results_prefix(outcomes, rest);
        assert((outcomes + later).drop_last() =~= outcomes + rest);
    }
}

/// A probe that times out is recorded as `(0, "*")` right after the results
/// before it, and the probes after it are still recorded.
pub proof fn lemma_timeout_recorded(outcomes: Seq<QueryOutcome>, later: Seq<QueryOutcome>)
    ensures
        hop_results(outcomes.push(QueryOutcome::Timeout)) == hop_results(outcomes).push((0u64, no_reply())),
        hop_results(outcomes.push(QueryOutcome::Timeout)).is_prefix_of(
            hop_results(outcomes.push(QueryOutcome::Timeout) + later),
        ),
{
    assert(outcomes.push(QueryOutcome::Timeout).drop_last() =~= outcomes);
    lemma_hop_results_prefix(outcomes.push(QueryOutcome::Timeout), later);
}

/// The address recorded for no reply is not a dotted quad.
proof fn lemma_no_reply_not_dotted()
    ensures
        dotted_quad(encode_utf8(no_reply())) is None,
{
    reveal_strlit("*");
    let c = no_reply();
    assert(c.len() == 1);
    assert(c.drop_first() =~= Seq::<char>::empty());
    let s = encode_utf8(c);
    assert(encode_utf8(c.drop_first()) =~= Seq::<u8>::empty());
    assert(s.len() == 1);
    let i = util::address::first_dot(s, 0);
    assert(0 <= i <= 1) by {
        if s[0] != util::address::DOT {
            assert(util::address::first_dot(s, 1) == 1);
        }
    }
    assert(util::address::first_dot(s, i + 1) == 1);
    assert(util::address::first_dot(s, 2) == 1);
}

/// An address other than `*` is among a hop's results only when some probe
/// of the hop was answered from it.
pub proof fn lemma_recorded_address_replied(outcomes: Seq<QueryOutcome>, addr: Seq<char>)
    requires
        addr != no_reply(),
        has_addr(hop_results(outcomes), addr),
    ensures
        reached(outcomes, addr),
    decreases outcomes.len(),
{
    let before = hop_results(outcomes.drop_last());
    let r = hop_results(outcomes);
    let j = choose|j: int| 0 <= j < r.len() && (#[trigger] r[j]).1 == addr;
    let last = outcomes.len() - 1;
    if j < before.len() && r[j] == before[j] {
        assert(has_addr(before, addr));
        lemma_recorded_address_replied(outcomes.drop_last(), addr);
        let k = choose|k: int|
            0 <= k < outcomes.drop_last().len() && match #[trigger] outcomes.drop_last()[k] {
                QueryOutcome::Reply { addr: a, rtt: _ } => a@ == addr,
                QueryOutcome::Timeout => false,
            };
        assert(outcomes[k] == outcomes.drop_last()[k]);
    } else {
        match outcomes.last() {
            QueryOutcome::Timeout => {
                assert(r[j].1 == no_reply());
            },
            QueryOutcome::Reply { addr: a, rtt } => {
                assert(outcomes[last] == outcomes.last());
            },
        }
    }
}

} // verus!
