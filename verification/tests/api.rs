use flock::api::{
    batch_outcome, build_state_response, create_device, delete_device, discovery_server_to_push,
    find_device, group_members, merge_patch, parse_settings_tab, snapshot_changed,
    unadded_hosts, update_device, with_discovery_server, DeviceRequest, PushState, SettingsTab,
};
use flock::app_settings::{AppSettings, AppSettingsStore};
use flock::discovery::DiscoveredHost;
use flock::error::{parse_device_id, ApiError};
use flock::field_map::FieldMap;
use flock::mock::MockDevice;
use flock::registry::Registry;

fn req(name: &str, host: &str, tags: &[&str], password: Option<&str>) -> DeviceRequest {
    DeviceRequest {
        name: name.to_string(),
        host: host.to_string(),
        tags: tags.iter().map(|t| t.to_string()).collect(),
        password: password.map(str::to_string),
        discovered: false,
    }
}

fn id_text(x: u128) -> String {
    let h = format!("{x:032x}");
    format!("{}-{}-{}-{}-{}", &h[0..8], &h[8..12], &h[12..16], &h[16..20], &h[20..32])
}

#[test]
fn created_devices_are_stored_and_answered_masked() {
    let mut r = Registry::new();
    let d = create_device(&mut r, req("cam", "10.0.0.1", &["stage"], Some("pw")));
    assert_eq!(d.credentials.password.as_deref(), Some("********"));
    let stored = r.get(&d.id).unwrap();
    assert_eq!(stored.credentials.password.as_deref(), Some("pw"));
    assert_eq!(stored.tags, vec!["stage"]);
    assert_eq!(find_device(&r, &id_text(d.id.0)).unwrap(), stored);
}

#[test]
fn updates_keep_the_password_unless_a_new_one_is_given() {
    let mut r = Registry::new();
    let d = create_device(&mut r, req("cam", "h1", &[], Some("pw")));
    let id = id_text(d.id.0);
    let u = update_device(&mut r, &id, req("cam2", "h2", &["a"], Some(""))).unwrap();
    assert_eq!(u.name, "cam2");
    assert_eq!(r.get(&d.id).unwrap().credentials.password.as_deref(), Some("pw"));
    update_device(&mut r, &id, req("cam2", "h2", &["a"], None)).unwrap();
    assert_eq!(r.get(&d.id).unwrap().credentials.password.as_deref(), Some("pw"));
    update_device(&mut r, &id, req("cam2", "h2", &["a"], Some("new"))).unwrap();
    assert_eq!(r.get(&d.id).unwrap().credentials.password.as_deref(), Some("new"));
}

#[test]
fn bad_and_unknown_ids_are_refused() {
    let mut r = Registry::new();
    assert_eq!(
        update_device(&mut r, "nope", req("a", "b", &[], None)),
        Err(ApiError::BadRequest("invalid device id: nope".to_string()))
    );
    let unknown = id_text(0x67e5504410b1426f9247bb680e5fe0c8);
    assert_eq!(delete_device(&mut r, &unknown), Err(ApiError::NotFound));
    assert_eq!(find_device(&r, &unknown), Err(ApiError::NotFound));
    assert_eq!(
        parse_device_id("x"),
        Err(ApiError::BadRequest("invalid device id: x".to_string()))
    );
    assert_eq!(ApiError::NotFound.status_code(), 404);
    assert_eq!(ApiError::NotFound.message(), "device not found");
    assert_eq!(ApiError::Internal("boom".into()).status_code(), 500);
    assert_eq!(ApiError::TooManyRequests("t".into()).status_code(), 429);
    assert_eq!(ApiError::Unauthorized("u".into()).status_code(), 401);
}

#[test]
fn delete_removes_the_device() {
    let mut r = Registry::new();
    let d = create_device(&mut r, req("cam", "h", &[], None));
    assert_eq!(delete_device(&mut r, &id_text(d.id.0)), Ok(()));
    assert_eq!(r.len(), 0);
}

#[test]
fn state_snapshot_masks_passwords_and_lists_groups() {
    let mut r = Registry::new();
    let b = create_device(&mut r, req("b", "h", &["x"], Some("pw")));
    let a = create_device(&mut r, req("a", "h", &["x"], None));
    let s = build_state_response(&r);
    let names: Vec<&str> = s.devices.iter().map(|d| d.name.as_str()).collect();
    assert_eq!(names, vec!["a", "b"]);
    assert_eq!(s.devices[1].credentials.password.as_deref(), Some("********"));
    assert_eq!(s.groups.get("x").unwrap().len(), 2);
    assert!(s.groups.get("x").unwrap().contains(&a.id));
    assert!(s.groups.get("x").unwrap().contains(&b.id));
}

#[test]
fn scans_report_only_hosts_not_yet_added() {
    let mut r = Registry::new();
    create_device(&mut r, req("cam", "10.0.0.2", &[], None));
    let found = vec![
        DiscoveredHost { name: "a".into(), host: "10.0.0.2".into(), port: 80 },
        DiscoveredHost { name: "b".into(), host: "10.0.0.3".into(), port: 80 },
    ];
    let u = unadded_hosts(found, &r);
    assert_eq!(u.len(), 1);
    assert_eq!(u[0].host, "10.0.0.3");
}

#[test]
fn pushing_a_discovery_server_needs_one_and_replaces_the_list() {
    assert_eq!(
        discovery_server_to_push(&AppSettings { discovery_server: None }),
        Err(ApiError::BadRequest("no discovery server configured".to_string()))
    );
    let mut store = AppSettingsStore::new(AppSettings::default());
    store.set(AppSettings { discovery_server: Some("10.0.0.9".into()) });
    assert_eq!(store.get().discovery_server.as_deref(), Some("10.0.0.9"));
    let server = discovery_server_to_push(&store.get()).unwrap();
    let mut n = MockDevice::new("cam").network_settings();
    n.ndi_discovery_server_ips = vec!["1.1.1.1".into(), "2.2.2.2".into()];
    let pushed = with_discovery_server(n.clone(), &server);
    assert!(pushed.ndi_discovery_server_enabled);
    assert_eq!(pushed.ndi_discovery_server_ips, vec!["10.0.0.9"]);
    assert_eq!(pushed.ip_address, n.ip_address);
}

#[test]
fn batch_outcomes_carry_the_error_message() {
    let mut r = Registry::new();
    let d = create_device(&mut r, req("cam", "h", &[], None));
    let ok = batch_outcome(&d, Ok(()));
    assert!(ok.ok && ok.error.is_none() && ok.device_name == "cam" && ok.device_id == d.id);
    let bad = batch_outcome(&d, Err("timeout".to_string()));
    assert!(!bad.ok);
    assert_eq!(bad.error.as_deref(), Some("timeout"));
}

#[test]
fn group_members_and_tabs() {
    let mut r = Registry::new();
    let d = create_device(&mut r, req("cam", "h", &["stage"], None));
    assert_eq!(group_members(&r, "stage"), vec![d.id]);
    assert!(group_members(&r, "nothing").is_empty());
    assert_eq!(parse_settings_tab("network"), Ok(SettingsTab::Network));
    assert_eq!(parse_settings_tab("decode"), Ok(SettingsTab::Decode));
    assert_eq!(parse_settings_tab("system"), Ok(SettingsTab::System));
    assert_eq!(parse_settings_tab("encode"), Err("unknown settings tab: encode".to_string()));
}

#[test]
fn a_patch_only_touches_the_fields_it_names() {
    let mut current: FieldMap<String> = FieldMap::new();
    current.insert("ip_address".into(), "\"10.0.0.1\"".into());
    current.insert("multicast_ttl".into(), "1".into());
    let mut patch: FieldMap<String> = FieldMap::new();
    patch.insert("multicast_ttl".into(), "4".into());
    patch.insert("subnet_mask".into(), "\"255.0.0.0\"".into());
    merge_patch(&mut current, Some(patch));
    assert_eq!(current.get("ip_address").map(String::as_str), Some("\"10.0.0.1\""));
    assert_eq!(current.get("multicast_ttl").map(String::as_str), Some("4"));
    assert_eq!(current.get("subnet_mask").map(String::as_str), Some("\"255.0.0.0\""));
    merge_patch(&mut current, None);
    assert_eq!(current.len(), 3);
}

#[test]
fn snapshots_are_sent_only_when_changed() {
    assert!(snapshot_changed(&None, "{}"));
    assert!(!snapshot_changed(&Some("{}".to_string()), "{}"));
    assert!(snapshot_changed(&Some("{}".to_string()), "{\"a\":1}"));
}

#[test]
fn the_push_loop_sends_each_change_once() {
    let mut push = PushState::new();
    let polls = ["a", "a", "b", "b", "b", "a"];
    let sent: Vec<String> = polls.iter().filter_map(|p| push.poll(p.to_string())).collect();
    assert_eq!(sent, vec!["a", "b", "a"]);
}
