use flock::birdui::{login_failed_message, page_step, ClientCache, PageStep};
use flock::birdui::{
    apply_decode_settings, decode_from_fields, apply_network_settings, base_url, client_still_current, device_password, is_login_page,
    list_file_content, ndi_method_str, network_from_fields, none_if_placeholder,
    parse_ndi_method, resolve_source, source_list_url, split_ips, system_from_status,
    system_uploads, ListUpload,
};
use flock::config::{should_seed_demo, Config, ProviderKind};
use flock::device::{Device, DeviceCredentials, DeviceId};
use flock::field_map::FieldMap;
use flock::mock::MockDevice;
use flock::registry::Registry;
use flock::settings::NdiTransmitMethod;

#[test]
fn ndi_methods_round_trip() {
    for m in [
        NdiTransmitMethod::Tcp,
        NdiTransmitMethod::Udp,
        NdiTransmitMethod::Multicast,
        NdiTransmitMethod::RUdp,
    ] {
        assert_eq!(parse_ndi_method(ndi_method_str(m)), m);
    }
    assert_eq!(parse_ndi_method("garbage"), NdiTransmitMethod::Tcp);
    assert_eq!(ndi_method_str(NdiTransmitMethod::RUdp), "RUDP");
}

#[test]
fn splits_discovery_server_lists() {
    assert_eq!(split_ips(" \"10.0.0.1\" , ,10.0.0.2"), vec!["10.0.0.1", "10.0.0.2"]);
    assert!(split_ips("").is_empty());
    assert_eq!(split_ips(r#" "10.0.0.1", 10.0.0.2 ,,"#), vec!["10.0.0.1", "10.0.0.2"]);
    let ips = vec!["10.0.0.1".to_string(), "host.local".to_string()];
    assert_eq!(split_ips(&ips.join(",")), ips);
}

#[test]
fn placeholders_mean_no_source() {
    assert_eq!(none_if_placeholder(String::new()), None);
    assert_eq!(none_if_placeholder("NoNe".to_string()), None);
    assert_eq!(none_if_placeholder("CAM".to_string()), Some("CAM".to_string()));
}

#[test]
fn sources_resolve_to_their_address() {
    let mut sources: FieldMap<String> = FieldMap::new();
    sources.insert("CAM (A)".into(), "10.0.0.5".into());
    assert_eq!(
        resolve_source(&Some("CAM (A)".to_string()), &sources),
        ("CAM (A)".to_string(), "10.0.0.5".to_string())
    );
    assert_eq!(
        resolve_source(&Some("gone".to_string()), &sources),
        ("gone".to_string(), String::new())
    );
    assert_eq!(resolve_source(&None, &sources), ("None".to_string(), "None".to_string()));
}

#[test]
fn network_settings_survive_a_write_and_read() {
    let mut n = MockDevice::new("cam").network_settings();
    n.ndi_discovery_server_ips = vec!["10.0.0.1".into(), "10.0.0.2".into()];
    n.ndi_discovery_server_enabled = true;
    n.dhcp_timeout_secs = 45;
    n.ndi_transmit_method = NdiTransmitMethod::Multicast;
    let mut fields: FieldMap<String> = FieldMap::new();
    fields.insert("unrelated".into(), "kept".into());
    apply_network_settings(&mut fields, &n);
    assert_eq!(fields.get("NDIDisServIP").map(String::as_str), Some("10.0.0.1,10.0.0.2"));
    assert_eq!(fields.get("NDIDisServ").map(String::as_str), Some("NDIDisServEn"));
    assert_eq!(fields.get("unrelated").map(String::as_str), Some("kept"));
    assert_eq!(network_from_fields(&fields), n);
}

#[test]
fn urls_and_login_detection() {
    assert_eq!(base_url("10.0.0.1"), "http://10.0.0.1");
    assert_eq!(source_list_url("10.0.0.1"), "http://10.0.0.1:8080/List");
    assert!(is_login_page("<form id=\"auth_form\">"));
    assert!(!is_login_page("<html>dashboard</html>"));
}

#[test]
fn device_password_defaults_and_cache_follows_it() {
    let mut d = Device {
        id: DeviceId::new(),
        name: "cam".into(),
        host: "h".into(),
        tags: vec![],
        credentials: DeviceCredentials::default(),
        discovered: false,
    };
    assert_eq!(device_password(&d), "birddog");
    assert!(client_still_current("h", "birddog", &d));
    d.credentials.password = Some("pw".into());
    assert_eq!(device_password(&d), "pw");
    assert!(!client_still_current("h", "birddog", &d));
    d.host = "h2".into();
    assert!(!client_still_current("h", "pw", &d));
}

#[test]
fn access_lists_upload_as_quoted_lines() {
    let items = vec!["10.0.0.1".to_string(), "10.0.0.2".to_string()];
    let content = list_file_content(&items);
    assert_eq!(content, "\"10.0.0.1\",\"10.0.0.2\"");
    let mut s = system_from_status(&MockDevice::new("cam").status());
    assert_eq!(s.firmware_version, "1.0.2");
    assert!(system_uploads(&s).is_empty());
    s.remote_ip_list = items;
    assert_eq!(
        system_uploads(&s),
        vec![ListUpload {
            path: "/settings".to_string(),
            field: "update_configfile".to_string(),
            content,
        }]
    );
}

#[test]
fn config_defaults_and_decisions() {
    let c = Config::default();
    assert_eq!(c.bind, "0.0.0.0:8080");
    assert_eq!(c.registry_path, "data/registry.json");
    assert_eq!(c.app_settings_path, "data/app_settings.json");
    assert!(c.seed_demo_devices);
    assert_eq!(c.provider_kind(), ProviderKind::Mock);
    assert!(!c.requires_login());
    let mut h = c.clone();
    h.provider = "http".into();
    h.admin_password = Some("x".into());
    assert_eq!(h.provider_kind(), ProviderKind::Http);
    assert!(h.requires_login());
    let mut r = Registry::new();
    assert!(should_seed_demo(&c, &r));
    r.upsert(flock::mock::demo_devices().remove(0));
    assert!(!should_seed_demo(&c, &r));
}

#[test]
fn decode_settings_survive_a_write_and_read() {
    let mut d = MockDevice::new("cam").decode_settings();
    d.selected_source = Some("CAM (A)".to_string());
    d.failover_source = None;
    d.color_space = "RGB".to_string();
    d.ndi_audio_enabled = true;
    d.tally_mode = "TallyOn".to_string();
    let mut sources: FieldMap<String> = FieldMap::new();
    sources.insert("CAM (A)".into(), "10.0.0.5:5961".into());
    let mut fields: FieldMap<String> = FieldMap::new();
    fields.insert("genlock".into(), "on".into());
    apply_decode_settings(&mut fields, &d, &sources);
    assert_eq!(fields.get("dec0_source_ip").map(String::as_str), Some("10.0.0.5:5961"));
    assert_eq!(fields.get("dec0_fo_source_name").map(String::as_str), Some("None"));
    assert_eq!(
        fields.get("dec0_change_source_button").map(String::as_str),
        Some("dec0_change_source")
    );
    assert_eq!(fields.get("genlock").map(String::as_str), Some("on"));
    let back = decode_from_fields(&fields, Some("BlackSS".to_string()));
    assert_eq!(back.selected_source, d.selected_source);
    assert_eq!(back.failover_source, None);
    assert_eq!(back.color_space, "RGB");
    assert!(back.ndi_audio_enabled);
    assert_eq!(back.tally_mode, "TallyOn");
    assert_eq!(back.screensaver_mode, "BlackSS");
    assert_eq!(decode_from_fields(&FieldMap::new(), None).color_space, "YUV");
}

#[test]
fn page_fetch_logs_in_once_more_then_gives_up() {
    let login = Some("<form id=\"auth_form\">".to_string());
    let page = Some("<html>network</html>".to_string());
    assert_eq!(page_step(false, &None, false), PageStep::LogIn);
    assert_eq!(page_step(true, &None, false), PageStep::Fetch);
    assert_eq!(page_step(true, &page, false), PageStep::Done);
    assert_eq!(page_step(true, &login, false), PageStep::LogIn);
    assert_eq!(page_step(true, &login, true), PageStep::Fail);
    assert_eq!(page_step(true, &page, true), PageStep::Done);
    assert_eq!(
        login_failed_message("http://10.0.0.1"),
        "login failed for http://10.0.0.1 - check the device's BirdUI password"
    );
}

#[test]
fn clients_are_rebuilt_only_when_host_or_password_change() {
    let mut cache = ClientCache::new();
    let mut d = Device {
        id: DeviceId::new(),
        name: "cam".into(),
        host: "h".into(),
        tags: vec![],
        credentials: DeviceCredentials::default(),
        discovered: false,
    };
    assert!(cache.client_for(&d));
    assert!(!cache.client_for(&d));
    d.name = "renamed".into();
    assert!(!cache.client_for(&d));
    d.credentials.password = Some("birddog".into());
    assert!(!cache.client_for(&d));
    d.credentials.password = Some("other".into());
    assert!(cache.client_for(&d));
    d.host = "h2".into();
    assert!(cache.client_for(&d));
    assert!(!cache.client_for(&d));
}

#[test]
fn configured_admin_password_is_shown_redacted() {
    let mut c = Config::default();
    assert_eq!(c.shown_admin_password(), None);
    c.admin_password = Some("hunter2".into());
    assert_eq!(c.shown_admin_password().as_deref(), Some("<redacted>"));
}
