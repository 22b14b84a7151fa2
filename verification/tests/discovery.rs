use flock::discovery::{
    dedup_by_host, host_from_service, ipv4_text, is_birdui_response, local_ipv4_candidates,
    merge_hosts, probe_url, swept_host, DiscoveredHost, NetInterface, MAX_HOSTS_TO_PROBE,
};

fn host(name: &str, h: &str, port: u16) -> DiscoveredHost {
    DiscoveredHost {
        name: name.to_string(),
        host: h.to_string(),
        port,
    }
}

fn ip(a: u8, b: u8, c: u8, d: u8) -> u32 {
    u32::from_be_bytes([a, b, c, d])
}

#[test]
fn merge_sorts_by_host_and_keeps_the_first_of_each() {
    let browsed = vec![host("ndi-b", "b.local", 5961), host("ndi-a", "a.local", 5960)];
    let swept = vec![host("10.0.0.2", "10.0.0.2", 80), host("again", "a.local", 80)];
    let merged = merge_hosts(browsed, swept);
    let hosts: Vec<&str> = merged.iter().map(|h| h.host.as_str()).collect();
    assert_eq!(hosts, vec!["10.0.0.2", "a.local", "b.local"]);
    assert_eq!(merged[1].name, "ndi-a");
    assert_eq!(merged[1].port, 5960);
}

#[test]
fn merging_a_merged_list_changes_nothing() {
    let all = vec![host("x", "c", 1), host("y", "a", 2), host("z", "c", 3), host("w", "b", 4)];
    let once = dedup_by_host(&all);
    let twice = dedup_by_host(&once);
    let key = |v: &Vec<DiscoveredHost>| -> Vec<(String, String, u16)> {
        v.iter().map(|h| (h.name.clone(), h.host.clone(), h.port)).collect()
    };
    assert_eq!(key(&once), key(&twice));
    assert_eq!(key(&once)[2], ("x".to_string(), "c".to_string(), 1));
}

#[test]
fn service_hosts_lose_trailing_dots() {
    let h = host_from_service("Cam (NDI)._ndi._tcp.local.", "cam.local.", 5961);
    assert_eq!(h.host, "cam.local");
    assert_eq!(h.name, "Cam (NDI)._ndi._tcp.local.");
    assert_eq!(h.port, 5961);
}

#[test]
fn sweeps_a_slash_24_without_network_and_broadcast() {
    let ifaces = vec![NetInterface {
        is_loopback: false,
        ipv4: Some((ip(192, 168, 1, 40), ip(255, 255, 255, 0))),
    }];
    let c = local_ipv4_candidates(&ifaces);
    assert_eq!(c.len(), 254);
    assert_eq!(c[0], ip(192, 168, 1, 1));
    assert_eq!(c[253], ip(192, 168, 1, 254));
}

#[test]
fn skips_loopback_missing_ipv4_and_oversized_subnets() {
    let ifaces = vec![
        NetInterface { is_loopback: true, ipv4: Some((ip(127, 0, 0, 1), ip(255, 0, 0, 0))) },
        NetInterface { is_loopback: false, ipv4: None },
        NetInterface { is_loopback: false, ipv4: Some((ip(10, 0, 0, 5), ip(255, 255, 0, 0))) },
        NetInterface { is_loopback: false, ipv4: Some((ip(10, 0, 0, 5), ip(255, 255, 255, 255))) },
        NetInterface { is_loopback: false, ipv4: Some((ip(10, 1, 2, 9), ip(255, 255, 255, 252))) },
    ];
    assert_eq!(local_ipv4_candidates(&ifaces), vec![ip(10, 1, 2, 9), ip(10, 1, 2, 10)]);
}

#[test]
fn sweep_stops_at_the_cap() {
    let ifaces = vec![
        NetInterface { is_loopback: false, ipv4: Some((ip(10, 0, 4, 1), ip(255, 255, 252, 0))) },
        NetInterface { is_loopback: false, ipv4: Some((ip(10, 9, 9, 1), ip(255, 255, 255, 0))) },
    ];
    let c = local_ipv4_candidates(&ifaces);
    assert_eq!(c.len(), MAX_HOSTS_TO_PROBE);
    assert_eq!(c[0], ip(10, 0, 4, 1));
    assert_eq!(c[511], ip(10, 0, 6, 0));
}

#[test]
fn recognises_birdui_by_its_cookie() {
    assert!(is_birdui_response(&vec![
        None,
        Some("other=1".to_string()),
        Some("BirdDogSession=abc; Path=/".to_string()),
    ]));
    assert!(!is_birdui_response(&vec![Some("session=1".to_string()), None]));
    assert!(!is_birdui_response(&vec![]));
}

#[test]
fn swept_hosts_are_named_by_address() {
    assert_eq!(ipv4_text(ip(192, 168, 0, 255)), "192.168.0.255");
    assert_eq!(probe_url(ip(10, 0, 0, 7)), "http://10.0.0.7/");
    let h = swept_host(ip(1, 2, 3, 4));
    assert_eq!((h.name.as_str(), h.host.as_str(), h.port), ("1.2.3.4", "1.2.3.4", 80));
}
