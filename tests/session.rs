use libtraceroute::util::{InterfaceDescriptor, Protocol};
use libtraceroute::{collect_hop_results, hop_reached, ConfigError, QueryOutcome, Traceroute};

fn interfaces() -> Vec<InterfaceDescriptor> {
    vec![
        InterfaceDescriptor { name: String::from("lo"), mac: [0; 6], ips: vec![[127, 0, 0, 1]] },
        InterfaceDescriptor { name: String::from("eth0"), mac: [2, 0, 0, 0, 0, 1], ips: vec![[192, 168, 1, 2], [10, 0, 0, 2]] },
        InterfaceDescriptor { name: String::from("eth0"), mac: [2, 0, 0, 0, 0, 9], ips: vec![[192, 168, 9, 9]] },
        InterfaceDescriptor { name: String::from("tun0"), mac: [0; 6], ips: vec![] },
    ]
}

fn reply(addr: &str, rtt: u64) -> QueryOutcome {
    QueryOutcome::Reply { addr: String::from(addr), rtt }
}

fn session(addr: &str) -> Traceroute {
    match Traceroute::new(addr).with_interface("eth0", &interfaces()) {
        Ok(t) => t,
        Err(e) => panic!("interface lookup failed: {:?}", e),
    }
}

#[test]
fn udp_walk_reaches_destination_at_fifth_hop() {
    let mut t = session("8.8.8.8").with_protocol(Protocol::UDP).with_first_ttl(1).with_max_hops(5).with_number_of_queries(1);
    assert_eq!(t.validate(), Ok(()));
    let observed = vec![
        vec![QueryOutcome::Timeout],
        vec![QueryOutcome::Timeout],
        vec![QueryOutcome::Timeout],
        vec![QueryOutcome::Timeout],
        vec![reply("8.8.8.8", 1200)],
    ];
    let hops = t.perform_traceroute(&observed);
    assert_eq!(hops.len(), 5);
    for (i, hop) in hops.iter().enumerate() {
        assert_eq!(hop.ttl as usize, i + 1);
        assert_eq!(hop.query_result.len(), 1);
    }
    for hop in &hops[..4] {
        assert_eq!(hop.query_result[0].addr, "*");
        assert_eq!(hop.query_result[0].rtt, 0);
    }
    assert_eq!(hops[4].query_result[0].addr, "8.8.8.8");
    assert_eq!(hops[4].query_result[0].rtt, 1200);
    assert_eq!(t.next_ttl(), None);
    assert!(t.next(&vec![QueryOutcome::Timeout]).is_none());
}

#[test]
fn icmp_duplicate_reply_recorded_once() {
    let mut t = session("8.8.8.8").with_protocol(Protocol::ICMP).with_first_ttl(3).with_number_of_queries(3);
    assert_eq!(t.validate(), Ok(()));
    let hop = t.next(&vec![reply("10.1.1.1", 500), reply("10.1.1.1", 700), QueryOutcome::Timeout]).unwrap();
    assert_eq!(hop.ttl, 3);
    assert_eq!(hop.query_result.len(), 2);
    assert_eq!(hop.query_result[0].addr, "10.1.1.1");
    assert_eq!(hop.query_result[0].rtt, 500);
    assert_eq!(hop.query_result[1].addr, "*");
    assert_eq!(t.next_ttl(), Some(4));
}

#[test]
fn tcp_frame_below_minimum_is_rejected() {
    let t = session("8.8.8.8").with_protocol(Protocol::TCP).with_mtu(40);
    assert_eq!(t.validate(), Err(ConfigError::FrameTooSmall));
    let t = session("8.8.8.8").with_protocol(Protocol::TCP).with_mtu(53);
    assert_eq!(t.validate(), Err(ConfigError::FrameTooSmall));
    let t = session("8.8.8.8").with_protocol(Protocol::TCP).with_mtu(54);
    assert_eq!(t.validate(), Ok(()));
    let t = session("8.8.8.8").with_protocol(Protocol::UDP).with_mtu(41);
    assert_eq!(t.validate(), Err(ConfigError::FrameTooSmall));
    let t = session("8.8.8.8").with_protocol(Protocol::ICMP).with_mtu(42);
    assert_eq!(t.validate(), Ok(()));
    let t = session("8.8.8.8").with_mtu(1501);
    assert_eq!(t.validate(), Err(ConfigError::FrameTooLarge));
    let t = session("8.8.8.8").with_mtu(1500);
    assert_eq!(t.validate(), Ok(()));
}

#[test]
fn destination_must_be_dotted_quad() {
    for bad in ["not an address", "", "*", "1.2.3", "1.2.3.4.5", "256.1.1.1", "01.2.3.4", "1..2.3", "1.2.3.4 ", "a.b.c.d", "1.2.3.-4"] {
        assert_eq!(session(bad).validate(), Err(ConfigError::InvalidDestination), "{}", bad);
        assert_eq!(session(bad).destination_ip(), None, "{}", bad);
    }
    assert_eq!(session("8.8.8.8").destination_ip(), Some([8, 8, 8, 8]));
    assert_eq!(session("255.0.10.199").destination_ip(), Some([255, 0, 10, 199]));
    assert_eq!(session("0.0.0.0").validate(), Ok(()));
}

#[test]
fn config_errors() {
    assert_eq!(Traceroute::new("1.2.3.4").validate(), Err(ConfigError::NoInterface));
    assert_eq!(session("1.2.3.4").with_max_hops(0).validate(), Err(ConfigError::MaxHopsOutOfRange));
    assert_eq!(session("1.2.3.4").with_max_hops(255).validate(), Err(ConfigError::MaxHopsOutOfRange));
    assert_eq!(session("1.2.3.4").with_max_hops(254).validate(), Ok(()));
    assert_eq!(session("1.2.3.4").with_first_ttl(0).validate(), Err(ConfigError::FirstTtlOutOfRange));
    assert_eq!(session("1.2.3.4").with_max_hops(4).with_first_ttl(5).validate(), Err(ConfigError::FirstTtlOutOfRange));
    assert_eq!(session("1.2.3.4").with_number_of_queries(0).validate(), Err(ConfigError::NoQueries));
}

#[test]
fn interface_lookup() {
    let t = Traceroute::new("1.2.3.4").with_interface("eth0", &interfaces()).ok().unwrap();
    let b = t.packet_builder().unwrap();
    assert_eq!(b.source_mac, [2, 0, 0, 0, 0, 1]);
    assert_eq!(b.source_ip, [192, 168, 1, 2]);
    assert_eq!(b.protocol, Protocol::UDP);
    assert_eq!(Traceroute::new("1.2.3.4").with_interface("wlan0", &interfaces()).err(), Some(ConfigError::UnknownInterface));
    assert_eq!(Traceroute::new("1.2.3.4").with_interface("tun0", &interfaces()).err(), Some(ConfigError::NoIpv4Address));
    assert!(Traceroute::new("1.2.3.4").packet_builder().is_none());
}

#[test]
fn defaults() {
    let t = Traceroute::new("1.2.3.4");
    assert_eq!(t.port(), 33434);
    assert_eq!(t.number_of_queries(), 3);
    assert_eq!(t.mtu(), 80);
    assert_eq!(t.timeout_ms(), 1000);
    assert_eq!(t.with_timeout(250).timeout_ms(), 250);
    let t = Traceroute::new("1.2.3.4");
    assert_eq!(t.next_ttl(), Some(1));
    let t = t.with_port(33480);
    assert_eq!(t.port(), 33480);
}

#[test]
fn walk_stops_at_max_hops() {
    let mut t = session("9.9.9.9").with_first_ttl(2).with_max_hops(4).with_number_of_queries(2);
    assert_eq!(t.validate(), Ok(()));
    let observed: Vec<Vec<QueryOutcome>> = (0..10).map(|i| vec![reply(&format!("10.0.0.{}", i), 10), QueryOutcome::Timeout]).collect();
    let hops = t.perform_traceroute(&observed);
    assert_eq!(hops.len(), 3);
    assert_eq!(hops.iter().map(|h| h.ttl).collect::<Vec<_>>(), vec![2, 3, 4]);
    assert_eq!(t.next_ttl(), None);
    assert!(t.perform_traceroute(&observed).is_empty());
}

#[test]
fn walk_stops_when_observations_run_out() {
    let mut t = session("9.9.9.9").with_number_of_queries(1);
    let observed = vec![vec![QueryOutcome::Timeout], vec![reply("10.0.0.1", 5)]];
    let hops = t.perform_traceroute(&observed);
    assert_eq!(hops.len(), 2);
    assert_eq!(t.next_ttl(), Some(3));
    let hop = t.next(&vec![reply("9.9.9.9", 7)]).unwrap();
    assert_eq!(hop.ttl, 3);
    assert_eq!(t.next_ttl(), None);
}

#[test]
fn destination_seen_in_discarded_duplicate_ends_walk() {
    let mut t = session("9.9.9.9").with_number_of_queries(2);
    let hop = t.next(&vec![reply("9.9.9.9", 5), reply("9.9.9.9", 6)]).unwrap();
    assert_eq!(hop.query_result.len(), 1);
    assert_eq!(t.next_ttl(), None);
}

#[test]
fn timeouts_repeat_and_do_not_stop_later_queries() {
    let r = collect_hop_results(&vec![QueryOutcome::Timeout, QueryOutcome::Timeout, reply("10.0.0.1", 3), reply("10.0.0.2", 4), reply("10.0.0.1", 9)]);
    let addrs: Vec<&str> = r.iter().map(|q| q.addr.as_str()).collect();
    assert_eq!(addrs, vec!["*", "*", "10.0.0.1", "10.0.0.2"]);
    assert_eq!(r[0].rtt, 0);
    assert_eq!(r[3].rtt, 4);
    assert!(collect_hop_results(&vec![]).is_empty());
}

#[test]
fn reached_checks_every_reply() {
    let dest = String::from("1.1.1.1");
    assert!(hop_reached(&vec![QueryOutcome::Timeout, reply("1.1.1.1", 1)], &dest));
    assert!(!hop_reached(&vec![QueryOutcome::Timeout, reply("1.1.1.2", 1)], &dest));
    assert!(!hop_reached(&vec![], &dest));
}
