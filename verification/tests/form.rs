use flock::form::{scrape_form_fields, scrape_text_by_id};

const NETWORK_HTML: &str = r#"<!DOCTYPE html><html><body><form>
<input type="radio" name="net_method" value="dhcp" checked>
<input type="radio" name="net_method" value="static">
<input type="text" name="net_address" value="192.168.1.40">
<input type="text" name="net_avahi" value="unknown">
<select name="Txpm"><option value="TCP">TCP</option><option value="UDP">UDP</option></select>
<select name="Rxpm"><option value="TCP">TCP</option><option value="UDP" selected>UDP</option></select>
<input type="submit" name="save" value="Save">
</form></body></html>"#;

const DASHBOARD_HTML: &str = r#"<!DOCTYPE html><html><body>
<div id="dashboard_avahi_name">
  unknown
</div>
<span id="dashboard_fw_version">BirdDog PLAY 1.0.18</span>
<span id="dashboard_net_addr"> 192.168.1.40 </span>
<p id="dashboard_dev_serial">dhcp</p>
</body></html>"#;

#[test]
fn scrapes_checked_radio_and_text_input() {
    let fields = scrape_form_fields(NETWORK_HTML);
    assert_eq!(fields.get("net_method").map(String::as_str), Some("dhcp"));
    assert_eq!(fields.get("net_address").map(String::as_str), Some("192.168.1.40"));
    assert_eq!(fields.get("net_avahi").map(String::as_str), Some("unknown"));
}

#[test]
fn scrapes_select_options() {
    let fields = scrape_form_fields(NETWORK_HTML);
    assert!(fields.contains_key("net_method"));
    assert_eq!(fields.get("Txpm"), None);
    assert_eq!(fields.get("Rxpm").map(String::as_str), Some("UDP"));
    assert_eq!(fields.get("save"), None);
}

#[test]
fn scrapes_dashboard_text_values() {
    let values = scrape_text_by_id(
        DASHBOARD_HTML,
        &[
            "dashboard_avahi_name",
            "dashboard_fw_version",
            "dashboard_net_addr",
            "dashboard_dev_serial",
        ],
    );
    assert_eq!(values.get("dashboard_avahi_name").map(String::as_str), Some("unknown"));
    assert_eq!(
        values.get("dashboard_fw_version").map(String::as_str),
        Some("BirdDog PLAY 1.0.18")
    );
    assert_eq!(values.get("dashboard_net_addr").map(String::as_str), Some("192.168.1.40"));
    assert_eq!(values.get("dashboard_dev_serial").map(String::as_str), Some("dhcp"));
}

#[test]
fn missing_ids_are_left_out() {
    let values = scrape_text_by_id(DASHBOARD_HTML, &["no_such_id", "dashboard_dev_serial"]);
    assert_eq!(values.get("no_such_id"), None);
    assert_eq!(values.len(), 1);
}
