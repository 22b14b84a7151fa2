use flock::device::{Device, DeviceCredentials, DeviceId, DeviceMode};
use flock::registry::Registry;

fn sample_device(name: &str, tags: &[&str]) -> Device {
    Device {
        id: DeviceId::new(),
        name: name.to_string(),
        host: "192.168.1.50".to_string(),
        tags: tags.iter().map(|t| t.to_string()).collect(),
        credentials: DeviceCredentials::default(),
        discovered: false,
    }
}

#[test]
fn device_can_belong_to_multiple_groups() {
    let mut registry = Registry::new();
    let device = sample_device("cam-1", &["stage", "backup"]);
    let id = device.id;
    registry.upsert(device);

    let groups = registry.groups();
    assert_eq!(groups.get("stage"), Some(&vec![id]));
    assert_eq!(groups.get("backup"), Some(&vec![id]));
}

#[test]
fn persists_across_reload() {
    let mut registry = Registry::new();
    registry.upsert(sample_device("cam-1", &["stage"]));
    let reloaded = Registry::from_devices(registry.list());
    assert_eq!(reloaded.list().len(), 1);
}

#[test]
fn upsert_replaces_and_remove_forgets() {
    let mut registry = Registry::new();
    let mut d = sample_device("cam-1", &[]);
    let id = d.id;
    registry.upsert(d.clone());
    d.name = "renamed".to_string();
    registry.upsert(d.clone());
    assert_eq!(registry.len(), 1);
    assert_eq!(registry.get(&id), Some(d.clone()));
    assert_eq!(registry.remove(&id), Some(d));
    assert_eq!(registry.get(&id), None);
    assert_eq!(registry.remove(&id), None);
}

#[test]
fn list_is_ordered_by_name_and_groups_by_tag() {
    let mut registry = Registry::new();
    let b = sample_device("b", &["x"]);
    let a = sample_device("a", &["x", "y"]);
    let c = sample_device("c", &[]);
    registry.upsert(b.clone());
    registry.upsert(c.clone());
    registry.upsert(a.clone());
    let names: Vec<String> = registry.list().into_iter().map(|d| d.name).collect();
    assert_eq!(names, vec!["a", "b", "c"]);
    let groups = registry.groups();
    let x = groups.get("x").unwrap().clone();
    let mut expected = vec![a.id, b.id];
    expected.sort_by_key(|i| i.0);
    assert_eq!(x, expected);
    assert_eq!(groups.get("y"), Some(&vec![a.id]));
    assert_eq!(groups.get("z"), None);
    assert_eq!(groups.len(), 2);
}

#[test]
fn redaction_masks_only_a_present_password() {
    let mut d = sample_device("cam", &[]);
    assert_eq!(d.clone().redacted().credentials.password, None);
    d.credentials.password = Some("birddog".to_string());
    let r = d.clone().redacted();
    assert_eq!(r.credentials.password.as_deref(), Some("********"));
    assert_eq!(r.clone().redacted(), r);
    assert_eq!(r.name, d.name);
}

#[test]
fn device_ids_parse_their_uuid_text() {
    let id = DeviceId::parse("67e55044-10b1-426f-9247-bb680e5fe0c8").unwrap();
    assert_eq!(id.0, 0x67e5504410b1426f9247bb680e5fe0c8);
    assert_eq!(DeviceId::parse("not-a-uuid"), None);
    let fresh = DeviceId::new();
    assert_eq!((fresh.0 >> 76) & 0xf, 4);
    assert_ne!(fresh, DeviceId::new());
    assert_ne!(DeviceMode::Encode, DeviceMode::Decode);
}
