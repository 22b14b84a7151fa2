use flock::device::{Device, DeviceCredentials, DeviceId};
use flock::mock::{demo_devices, MockClientProvider, MockDevice};
use flock::settings::ConfigMethod;

fn device(name: &str) -> Device {
    Device {
        id: DeviceId::new(),
        name: name.to_string(),
        host: "h".to_string(),
        tags: vec![],
        credentials: DeviceCredentials::default(),
        discovered: false,
    }
}

#[test]
fn a_new_mock_starts_from_its_name() {
    let m = MockDevice::new("Stage Cam Play");
    let s = m.status();
    assert!(s.online);
    assert_eq!(s.ndi_stream_name, "stage-cam-play");
    assert_eq!(s.system_name, "stage-cam-play");
    assert_eq!(s.average_bitrate_kbps, 134000);
    assert_eq!(s.video_format, "1080p60");
    let n = m.network_settings();
    assert_eq!(n.config_method, ConfigMethod::Dhcp);
    assert_eq!(n.birddog_name, "stage-cam-play");
    assert_eq!(n.ip_address, "192.168.100.100");
    assert!(n.ndi_discovery_server_ips.is_empty());
    let d = m.decode_settings();
    assert_eq!(d.source_type, "NDI");
    assert_eq!(d.srt_latency_ms, 120);
    assert_eq!(m.system_settings().firmware_version, "1.0.2");
}

#[test]
fn non_ascii_names_are_lower_cased() {
    let m = MockDevice::new("ÉCRAN Hall");
    assert_eq!(m.status().ndi_stream_name, "écran-hall");
}

#[test]
fn a_mock_gives_back_what_was_written() {
    let mut m = MockDevice::new("cam");
    let mut n = m.network_settings();
    n.ip_address = "10.0.0.9".to_string();
    n.multicast_ttl = 9;
    m.set_network_settings(n.clone());
    assert_eq!(m.network_settings(), n);
    let mut d = m.decode_settings();
    d.selected_source = Some("CAM (A)".to_string());
    m.set_decode_settings(d.clone());
    assert_eq!(m.decode_settings(), d);
    assert_eq!(m.network_settings(), n);
    let mut s = m.system_settings();
    s.ndi_group_list = vec!["public".to_string()];
    m.set_system_settings(s.clone());
    assert_eq!(m.system_settings(), s);
}

#[test]
fn the_provider_makes_one_mock_per_id_lazily() {
    let mut p = MockClientProvider::new();
    let d = device("Lobby Play");
    assert_eq!(p.status(d.id), None);
    p.client_for(&d);
    assert_eq!(p.status(d.id).unwrap().ndi_stream_name, "lobby-play");
    let mut n = p.network_settings(d.id).unwrap();
    n.gateway_address = "10.0.0.1".to_string();
    assert!(p.set_network_settings(d.id, n.clone()));
    let mut renamed = d.clone();
    renamed.name = "Other".to_string();
    p.client_for(&renamed);
    assert_eq!(p.network_settings(d.id), Some(n));
    assert_eq!(p.status(d.id).unwrap().ndi_stream_name, "lobby-play");
    let unknown = device("x");
    assert!(!p.set_network_settings(unknown.id, p.network_settings(d.id).unwrap()));
    assert!(!p.set_decode_settings(unknown.id, p.decode_settings(d.id).unwrap()));
    assert!(!p.set_system_settings(unknown.id, p.system_settings(d.id).unwrap()));
    assert_eq!(p.decode_settings(unknown.id), None);
}

#[test]
fn demo_fleet_has_three_devices() {
    let v = demo_devices();
    let names: Vec<&str> = v.iter().map(|d| d.name.as_str()).collect();
    assert_eq!(names, vec!["Stage Cam Play", "Lobby Play", "Backup Feed Play"]);
    assert_eq!(v[0].tags, vec!["stage", "primary"]);
    assert_eq!(v[2].host, "birddog-backup.local");
    assert!(v.iter().all(|d| d.credentials.password.as_deref() == Some("birddog") && !d.discovered));
    assert_ne!(v[0].id, v[1].id);
}
