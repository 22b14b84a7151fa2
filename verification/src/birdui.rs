//! The BirdDog PLAY's own web UI (BirdUI), as flock reads and writes it.
//! Every read scrapes a page; every write is read-modify-write: the page's
//! current fields are scraped, the fields flock manages are overridden, and
//! the whole map is posted back, so anything flock does not model passes
//! through unchanged. The HTTP exchanges themselves are the caller's; this
//! module maps between pages, field maps and flock's settings.

use vstd::prelude::*;

use std::collections::HashMap;

use crate::device::{opt_view, Device, DeviceView};
use crate::field_map::FieldMap;
use crate::form::{scrape_attr_by_id, scrape_form_fields, scrape_text_by_id};
use crate::settings::{
    ConfigMethod, DecodeSettings, DecodeSettingsView, DeviceStatus, DeviceStatusView,
    NdiTransmitMethod, NetworkSettings, NetworkSettingsView, SystemSettings, SystemSettingsView,
};
use crate::text::{
    chars_of, decimal, decimal_string, join_strings, join_with, lemma_decimal_round_trip,
    lemma_split_join, owned, parse_unsigned, parse_unsigned_str, push_char, push_str,
    split_char, split_on, str_contains, str_eq, trim, trim_both, trim_class, trim_str, views,
    CharClass, contains,
};

verus! {

broadcast use vstd::std_specs::hash::group_hash_axioms;

// ---------------------------------------------------------------------------
// Reaching a device
// ---------------------------------------------------------------------------

/// The password BirdUI ships with.
pub open spec fn default_password() -> Seq<char> {
    "birddog"@
}

/// The password flock logs in with: the stored one, else the default.
pub open spec fn login_password(d: crate::device::DeviceView) -> Seq<char> {
    match d.password {
        Some(p) => p,
        None => default_password(),
    }
}

/// The password to log into `device` with.
pub fn device_password(device: &Device) -> (p: String)
    ensures
        p@ == login_password(device@),
{
    match &device.credentials.password {
        Some(p) => p.clone(),
        None => owned("birddog"),
    }
}

/// `http://<host>`, the root of the device's web UI.
pub fn base_url(host: &str) -> (u: String)
    ensures
        u@ == "http://"@ + host@,
{
    let mut u = owned("http://");
    push_str(&mut u, host);
    u
}

/// `http://<host>:8080/List`, the device's own JSON list of the NDI
/// sources it currently sees (`{"name": "ip:port"}`).
pub fn source_list_url(host: &str) -> (u: String)
    ensures
        u@ == "http://"@ + host@ + ":8080/List"@,
{
    let mut u = base_url(host);
    push_str(&mut u, ":8080/List");
    u
}

/// A fetched page is BirdUI's login page (it carries the login form's
/// `auth_form` marker): the session is missing or expired.
pub fn is_login_page(body: &str) -> (r: bool)
    ensures
        r == contains(body@, "auth_form"@),
{
    str_contains(body, "auth_form")
}

/// A client built for `cached_host` with `cached_password` still fits the
/// device: same host, same login password.
pub fn client_still_current(cached_host: &str, cached_password: &str, device: &Device) -> (r: bool)
    ensures
        r == (cached_host@ == device@.host && cached_password@ == login_password(device@)),
{
    let p = device_password(device);
    str_eq(cached_host, device.host.as_str()) && str_eq(cached_password, p.as_str())
}

/// The next step in fetching a BirdUI page.
#[derive(Clone, Copy, Debug, PartialEq, Eq)]
pub enum PageStep {
    /// Log in (then, after a login page came back, fetch again).
    LogIn,
    /// Request the page.
    Fetch,
    /// The page is the body fetched last.
    Done,
    /// The login page came back even after logging in again: the password
    /// is wrong.
    Fail,
}

/// Fetching a page: log in first if there is no session; a page that comes
/// back as the login page means the session expired, so log in once more
/// and fetch again; a second login page is a failure.
pub open spec fn page_step_of(logged_in: bool, fetched: Option<Seq<char>>, retried: bool) -> PageStep {
    match fetched {
        None => if logged_in {
            PageStep::Fetch
        } else {
            PageStep::LogIn
        },
        Some(body) => if !contains(body, "auth_form"@) {
            PageStep::Done
        } else if retried {
            PageStep::Fail
        } else {
            PageStep::LogIn
        },
    }
}

/// The next step in fetching a page, given whether a session exists, the
/// body fetched since the last login (if any), and whether the client has
/// already logged in again after a login page.
pub fn page_step(logged_in: bool, fetched: &Option<String>, retried: bool) -> (s: PageStep)
    ensures
        s == page_step_of(logged_in, opt_view(*fetched), retried),
{
    match fetched {
        None => if logged_in {
            PageStep::Fetch
        } else {
            PageStep::LogIn
        },
        Some(body) => if !is_login_page(body.as_str()) {
            PageStep::Done
        } else if retried {
            PageStep::Fail
        } else {
            PageStep::LogIn
        },
    }
}

/// The error of a login that does not take.
pub fn login_failed_message(base_url: &str) -> (m: String)
    ensures
        m@ == "login failed for "@ + base_url@ + " - check the device's BirdUI password"@,
{
    let mut m = owned("login failed for ");
    push_str(&mut m, base_url);
    push_str(&mut m, " - check the device's BirdUI password");
    m
}

/// A client has to be (re)built for `device`: none was made for its id, or
/// the last one was made for another host or login password.
pub open spec fn must_rebuild(made_for: Map<u128, (Seq<char>, Seq<char>)>, device: DeviceView) -> bool {
    !(made_for.contains_key(device.id) && made_for[device.id] == (device.host, login_password(device)))
}

/// What the provider of real-hardware clients remembers of each client it
/// made: the host and login password it was made for, by device id.
pub struct ClientCache {
    made_for: HashMap<u128, (String, String)>,
}

impl View for ClientCache {
    type V = Map<u128, (Seq<char>, Seq<char>)>;

    closed spec fn view(&self) -> Map<u128, (Seq<char>, Seq<char>)> {
        self.made_for@.map_values(|v: (String, String)| (v.0@, v.1@))
    }
}

impl ClientCache {
    /// No client made yet.
    pub fn new() -> (c: Self)
        ensures
            c@ == Map::<u128, (Seq<char>, Seq<char>)>::empty(),
    {
        let c = ClientCache { made_for: HashMap::new() };
        assert(c@ =~= Map::<u128, (Seq<char>, Seq<char>)>::empty());
        c
    }

    /// Asked for a client for `device`: says whether a new one has to be
    /// built (else the one made last for this id is handed out again), and
    /// remembers what the client handed out was made for.
    pub fn client_for(&mut self, device: &Device) -> (rebuild: bool)
        ensures
            rebuild == must_rebuild(old(self)@, device@),
            final(self)@ == old(self)@.insert(device.id.0, (device@.host, login_password(device@))),
    {
        let current = match self.made_for.get(&device.id.0) {
            Some(entry) => client_still_current(entry.0.as_str(), entry.1.as_str(), device),
            None => false,
        };
        let password = device_password(device);
        self.made_for.insert(device.id.0, (device.host.clone(), password));
        proof {
            assert(self@ =~= old(self)@.insert(device.id.0, (device@.host, login_password(device@))));
        }
        !current
    }
}

/// The client handed out for a device is the one made last for its id
/// exactly when the host and the login password are the ones that client
/// was made for; otherwise a new one takes its place.
pub proof fn lemma_client_reused_iff_unchanged(
    made_for: Map<u128, (Seq<char>, Seq<char>)>,
    first: DeviceView,
    second: DeviceView,
)
    requires
        second.id == first.id,
    ensures
        ({
            let after = made_for.insert(first.id, (first.host, login_password(first)));
            !must_rebuild(after, second) <==> (second.host == first.host && login_password(second)
                == login_password(first))
        }),
{
}

// ---------------------------------------------------------------------------
// Small value mappings
// ---------------------------------------------------------------------------

/// The NDI method a form value names; anything unknown is TCP.
pub open spec fn ndi_method_from(s: Seq<char>) -> NdiTransmitMethod {
    if s == "UDP"@ {
        NdiTransmitMethod::Udp
    } else if s == "Multicast"@ {
        NdiTransmitMethod::Multicast
    } else if s == "RUDP"@ {
        NdiTransmitMethod::RUdp
    } else {
        NdiTransmitMethod::Tcp
    }
}

/// The form value of an NDI method.
pub open spec fn ndi_method_text(m: NdiTransmitMethod) -> Seq<char> {
    match m {
        NdiTransmitMethod::Tcp => "TCP"@,
        NdiTransmitMethod::Udp => "UDP"@,
        NdiTransmitMethod::Multicast => "Multicast"@,
        NdiTransmitMethod::RUdp => "RUDP"@,
    }
}

/// Reads an NDI method from its form value.
pub fn parse_ndi_method(s: &str) -> (m: NdiTransmitMethod)
    ensures
        m == ndi_method_from(s@),
{
    if str_eq(s, "UDP") {
        NdiTransmitMethod::Udp
    } else if str_eq(s, "Multicast") {
        NdiTransmitMethod::Multicast
    } else if str_eq(s, "RUDP") {
        NdiTransmitMethod::RUdp
    } else {
        NdiTransmitMethod::Tcp
    }
}

/// The form value of an NDI method.
pub fn ndi_method_str(m: NdiTransmitMethod) -> (s: &'static str)
    ensures
        s@ == ndi_method_text(m),
{
    match m {
        NdiTransmitMethod::Tcp => "TCP",
        NdiTransmitMethod::Udp => "UDP",
        NdiTransmitMethod::Multicast => "Multicast",
        NdiTransmitMethod::RUdp => "RUDP",
    }
}

/// Reading back the form value of a method gives the method.
pub proof fn lemma_ndi_method_round_trip(m: NdiTransmitMethod)
    ensures
        ndi_method_from(ndi_method_text(m)) == m,
{
    reveal_strlit("TCP");
    reveal_strlit("UDP");
    reveal_strlit("Multicast");
    reveal_strlit("RUDP");
    assert("TCP"@[0] != "UDP"@[0]);
    assert("TCP"@.len() != "Multicast"@.len());
    assert("TCP"@[0] != "RUDP"@[0]);
    assert("UDP"@.len() != "Multicast"@.len());
    assert("UDP"@[0] != "RUDP"@[0]);
    assert("Multicast"@.len() != "RUDP"@.len());
}

/// One entry of a comma-separated list, trimmed of spaces and then of
/// quotes.
pub open spec fn clean_entry(p: Seq<char>) -> Seq<char> {
    trim_both(trim(p), CharClass::Quote)
}

/// The non-empty cleaned entries, in order.
pub open spec fn clean_entries(pieces: Seq<Seq<char>>) -> Seq<Seq<char>>
    decreases pieces.len(),
{
    if pieces.len() == 0 {
        Seq::empty()
    } else {
        let prev = clean_entries(pieces.drop_last());
        let c = clean_entry(pieces.last());
        if c.len() > 0 {
            prev.push(c)
        } else {
            prev
        }
    }
}

/// The addresses in a comma-separated list (entries may be quoted and
/// padded; empty entries are dropped).
pub open spec fn split_ips_spec(raw: Seq<char>) -> Seq<Seq<char>> {
    clean_entries(split_on(raw, ','))
}

/// Splits a comma-separated address list.
pub fn split_ips(raw: &str) -> (r: Vec<String>)
    ensures
        views(r@) == split_ips_spec(raw@),
{
    let pieces = split_char(raw, ',');
    let ghost pv = views(pieces@);
    let mut out: Vec<String> = Vec::new();
    let mut i: usize = 0;
    while i < pieces.len()
        invariant
            i <= pieces@.len(),
            pv == views(pieces@),
            views(out@) == clean_entries(pv.take(i as int)),
        decreases pieces.len() - i,
    {
        let t = trim_str(pieces[i].as_str());
        let c = trim_class(t.as_str(), CharClass::Quote);
        proof {
            assert(pv.take(i + 1).drop_last() == pv.take(i as int));
            assert(pv.take(i + 1).last() == pieces@[i as int]@);
        }
        let ghost before = out@;
        if !c.as_str().is_empty() {
            let ghost cv = c@;
            out.push(c);
            assert(views(out@) =~= views(before).push(cv));
        }
        i = i + 1;
    }
    assert(pv.take(pieces@.len() as int) == pv);
    out
}

/// `None` for BirdUI's placeholder of an unset source: empty, or `none` in
/// any ASCII case.
pub open spec fn is_placeholder(s: Seq<char>) -> bool {
    s.len() == 0 || (s.len() == 4 && ascii_lower(s[0]) == 'n' && ascii_lower(s[1]) == 'o'
        && ascii_lower(s[2]) == 'n' && ascii_lower(s[3]) == 'e')
}

pub open spec fn ascii_lower(c: char) -> char {
    if 'A' <= c && c <= 'Z' {
        ((c as u32 + 32) as u8) as char
    } else {
        c
    }
}

fn ascii_lower_exec(c: char) -> (r: char)
    ensures
        r == ascii_lower(c),
{
    if 'A' <= c && c <= 'Z' {
        ((c as u32 + 32) as u8) as char
    } else {
        c
    }
}

pub open spec fn source_or_none(s: Seq<char>) -> Option<Seq<char>> {
    if is_placeholder(s) {
        None
    } else {
        Some(s)
    }
}

/// A source field's value, or `None` for the unset placeholder.
pub fn none_if_placeholder(s: String) -> (r: Option<String>)
    ensures
        opt_view(r) == source_or_none(s@),
{
    let v = chars_of(s.as_str());
    let placeholder = v.len() == 0 || (v.len() == 4 && ascii_lower_exec(v[0]) == 'n'
        && ascii_lower_exec(v[1]) == 'o' && ascii_lower_exec(v[2]) == 'n' && ascii_lower_exec(
        v[3],
    ) == 'e');
    if placeholder {
        None
    } else {
        Some(s)
    }
}

/// The (name, ip) pair BirdUI's "Apply Source" submits for a wanted
/// source: the device's own `ip:port` for it, or the literal name with an
/// empty ip when the device does not currently see it (so a request to
/// change the source is never silently dropped); both `None` to clear the
/// source.
pub open spec fn resolved_source(wanted: Option<Seq<char>>, sources: Map<Seq<char>, Seq<char>>) -> (
    Seq<char>,
    Seq<char>,
) {
    match wanted {
        None => ("None"@, "None"@),
        Some(n) => (
            n,
            if sources.contains_key(n) {
                sources[n]
            } else {
                Seq::empty()
            },
        ),
    }
}

/// Resolves a wanted source name against the device's live source list.
pub fn resolve_source(wanted: &Option<String>, sources: &FieldMap<String>) -> (r: (String, String))
    ensures
        (r.0@, r.1@) == resolved_source(opt_view(*wanted), sources@),
{
    match wanted {
        None => (owned("None"), owned("None")),
        Some(name) => {
            let ip = match sources.get(name.as_str()) {
                Some(ip) => ip.clone(),
                None => String::new(),
            };
            (name.clone(), ip)
        },
    }
}

// ---------------------------------------------------------------------------
// Field maps
// ---------------------------------------------------------------------------

/// A field's value, empty when the page has no such field.
pub open spec fn field(m: Map<Seq<char>, Seq<char>>, k: Seq<char>) -> Seq<char> {
    if m.contains_key(k) {
        m[k]
    } else {
        Seq::empty()
    }
}

fn field_or_empty(fields: &FieldMap<String>, key: &str) -> (r: String)
    ensures
        r@ == field(fields@, key@),
{
    match fields.get(key) {
        Some(v) => v.clone(),
        None => String::new(),
    }
}

// ---------------------------------------------------------------------------
// Network page
// ---------------------------------------------------------------------------

/// What the Network page's fields say. An unreadable DHCP timeout reads as
/// 20 s and an unreadable TTL as 1.
pub open spec fn network_from_map(m: Map<Seq<char>, Seq<char>>) -> NetworkSettingsView {
    NetworkSettingsView {
        config_method: if field(m, "net_method"@) == "static"@ {
            ConfigMethod::Static
        } else {
            ConfigMethod::Dhcp
        },
        ip_address: field(m, "net_address"@),
        subnet_mask: field(m, "net_mask"@),
        gateway_address: field(m, "net_gate"@),
        dhcp_timeout_secs: match parse_unsigned(field(m, "net_fallback_timeout"@), 0xffff_ffff) {
            Some(n) => n as u32,
            None => 20,
        },
        fallback_ip_address: field(m, "net_fallback_address"@),
        fallback_subnet_mask: field(m, "net_fallback_mask"@),
        birddog_name: field(m, "net_avahi"@),
        ndi_transmit_method: ndi_method_from(field(m, "Txpm"@)),
        ndi_receive_method: ndi_method_from(field(m, "Rxpm"@)),
        multicast_net_prefix: field(m, "Txnetprefix"@),
        multicast_net_mask: field(m, "Txnetmask"@),
        multicast_ttl: match parse_unsigned(field(m, "Txmcttl"@), 0xff) {
            Some(n) => n as u8,
            None => 1,
        },
        ndi_discovery_server_enabled: field(m, "NDIDisServ"@) == "NDIDisServEn"@,
        ndi_discovery_server_ips: split_ips_spec(field(m, "NDIDisServIP"@)),
    }
}

/// Network settings from the Network page's fields.
pub fn network_from_fields(fields: &FieldMap<String>) -> (s: NetworkSettings)
    ensures
        s@ == network_from_map(fields@),
{
    let method = field_or_empty(fields, "net_method");
    let timeout = field_or_empty(fields, "net_fallback_timeout");
    let ttl = field_or_empty(fields, "Txmcttl");
    let dis = field_or_empty(fields, "NDIDisServ");
    let ips = field_or_empty(fields, "NDIDisServIP");
    let tx = field_or_empty(fields, "Txpm");
    let rx = field_or_empty(fields, "Rxpm");
    NetworkSettings {
        config_method: if str_eq(method.as_str(), "static") {
            ConfigMethod::Static
        } else {
            ConfigMethod::Dhcp
        },
        ip_address: field_or_empty(fields, "net_address"),
        subnet_mask: field_or_empty(fields, "net_mask"),
        gateway_address: field_or_empty(fields, "net_gate"),
        dhcp_timeout_secs: match parse_unsigned_str(timeout.as_str(), 0xffff_ffff) {
            Some(n) => n as u32,
            None => 20,
        },
        fallback_ip_address: field_or_empty(fields, "net_fallback_address"),
        fallback_subnet_mask: field_or_empty(fields, "net_fallback_mask"),
        birddog_name: field_or_empty(fields, "net_avahi"),
        ndi_transmit_method: parse_ndi_method(tx.as_str()),
        ndi_receive_method: parse_ndi_method(rx.as_str()),
        multicast_net_prefix: field_or_empty(fields, "Txnetprefix"),
        multicast_net_mask: field_or_empty(fields, "Txnetmask"),
        multicast_ttl: match parse_unsigned_str(ttl.as_str(), 0xff) {
            Some(n) => n as u8,
            None => 1,
        },
        ndi_discovery_server_enabled: str_eq(dis.as_str(), "NDIDisServEn"),
        ndi_discovery_server_ips: split_ips(ips.as_str()),
    }
}

/// Network settings as the Network page shows them.
pub fn network_settings_from_page(html: &str) -> (s: NetworkSettings)
    ensures
        s@ == network_from_map(
            crate::form::form_fields(
                crate::form::html_input_elements(html@),
                crate::form::html_select_elements(html@),
            ),
        ),
{
    let fields = scrape_form_fields(html);
    network_from_fields(&fields)
}

/// The fields a Network write overrides, on top of the page's current ones.
pub open spec fn apply_network(m: Map<Seq<char>, Seq<char>>, s: NetworkSettingsView) -> Map<
    Seq<char>,
    Seq<char>,
> {
    m.insert(
        "net_method"@,
        match s.config_method {
            ConfigMethod::Dhcp => "dhcp"@,
            ConfigMethod::Static => "static"@,
        },
    ).insert("net_address"@, s.ip_address).insert("net_mask"@, s.subnet_mask).insert(
        "net_gate"@,
        s.gateway_address,
    ).insert("net_fallback_timeout"@, decimal(s.dhcp_timeout_secs as nat)).insert(
        "net_fallback_address"@,
        s.fallback_ip_address,
    ).insert("net_fallback_mask"@, s.fallback_subnet_mask).insert(
        "net_avahi"@,
        s.birddog_name,
    ).insert("Txpm"@, ndi_method_text(s.ndi_transmit_method)).insert(
        "Rxpm"@,
        ndi_method_text(s.ndi_receive_method),
    ).insert("Txnetprefix"@, s.multicast_net_prefix).insert(
        "Txnetmask"@,
        s.multicast_net_mask,
    ).insert("Txmcttl"@, decimal(s.multicast_ttl as nat)).insert(
        "NDIDisServ"@,
        if s.ndi_discovery_server_enabled {
            "NDIDisServEn"@
        } else {
            "NDIDisServDis"@
        },
    ).insert("NDIDisServIP"@, join_with(s.ndi_discovery_server_ips, ','))
}

/// The keys a Network write sets.
pub open spec fn network_keys() -> Set<Seq<char>> {
    set![
        "net_method"@,
        "net_address"@,
        "net_mask"@,
        "net_gate"@,
        "net_fallback_timeout"@,
        "net_fallback_address"@,
        "net_fallback_mask"@,
        "net_avahi"@,
        "Txpm"@,
        "Rxpm"@,
        "Txnetprefix"@,
        "Txnetmask"@,
        "Txmcttl"@,
        "NDIDisServ"@,
        "NDIDisServIP"@,
    ]
}

fn insert_lit(fields: &mut FieldMap<String>, key: &str, value: String)
    ensures
        final(fields)@ == old(fields)@.insert(key@, value@),
{
    fields.insert(owned(key), value);
}

/// Overrides the fields flock manages with `s`, leaving every other
/// scraped field as it was.
pub fn apply_network_settings(fields: &mut FieldMap<String>, s: &NetworkSettings)
    ensures
        final(fields)@ == apply_network(old(fields)@, s@),
{
    insert_lit(
        fields,
        "net_method",
        owned(
            match s.config_method {
                ConfigMethod::Dhcp => "dhcp",
                ConfigMethod::Static => "static",
            },
        ),
    );
    insert_lit(fields, "net_address", s.ip_address.clone());
    insert_lit(fields, "net_mask", s.subnet_mask.clone());
    insert_lit(fields, "net_gate", s.gateway_address.clone());
    insert_lit(fields, "net_fallback_timeout", decimal_string(s.dhcp_timeout_secs as u64));
    insert_lit(fields, "net_fallback_address", s.fallback_ip_address.clone());
    insert_lit(fields, "net_fallback_mask", s.fallback_subnet_mask.clone());
    insert_lit(fields, "net_avahi", s.birddog_name.clone());
    insert_lit(fields, "Txpm", owned(ndi_method_str(s.ndi_transmit_method)));
    insert_lit(fields, "Rxpm", owned(ndi_method_str(s.ndi_receive_method)));
    insert_lit(fields, "Txnetprefix", s.multicast_net_prefix.clone());
    insert_lit(fields, "Txnetmask", s.multicast_net_mask.clone());
    insert_lit(fields, "Txmcttl", decimal_string(s.multicast_ttl as u64));
    insert_lit(
        fields,
        "NDIDisServ",
        owned(
            if s.ndi_discovery_server_enabled {
                "NDIDisServEn"
            } else {
                "NDIDisServDis"
            },
        ),
    );
    insert_lit(fields, "NDIDisServIP", join_strings(&s.ndi_discovery_server_ips, ','));
}

/// A Network write keeps every field it does not manage.
pub proof fn lemma_network_write_keeps_other_fields(
    m: Map<Seq<char>, Seq<char>>,
    s: NetworkSettingsView,
    k: Seq<char>,
)
    requires
        !network_keys().contains(k),
    ensures
        apply_network(m, s).contains_key(k) == m.contains_key(k),
        m.contains_key(k) ==> apply_network(m, s)[k] == m[k],
{
}

/// A discovery-server address that survives the comma-separated list:
/// non-empty, no comma, nothing that trimming spaces or quotes removes.
pub open spec fn ip_entry_ok(ip: Seq<char>) -> bool {
    ip.len() > 0 && !ip.contains(',') && clean_entry(ip) == ip
}

proof fn lemma_clean_entries_identity(v: Seq<Seq<char>>)
    requires
        forall|i: int| 0 <= i < v.len() ==> ip_entry_ok(#[trigger] v[i]),
    ensures
        clean_entries(v) == v,
    decreases v.len(),
{
    if v.len() > 0 {
        let d = v.drop_last();
        assert forall|i: int| 0 <= i < d.len() implies ip_entry_ok(#[trigger] d[i]) by {
            assert(d[i] == v[i]);
        }
        lemma_clean_entries_identity(d);
        assert(ip_entry_ok(v[v.len() - 1]));
        assert(d.push(v.last()) == v);
    }
}

proof fn lemma_clean_entries_nonempty(pieces: Seq<Seq<char>>)
    ensures
        forall|i: int| 0 <= i < clean_entries(pieces).len() ==> (#[trigger] clean_entries(pieces)[i]).len() > 0,
    decreases pieces.len(),
{
    if pieces.len() > 0 {
        let prev = clean_entries(pieces.drop_last());
        lemma_clean_entries_nonempty(pieces.drop_last());
        assert forall|i: int| 0 <= i < clean_entries(pieces).len() implies (#[trigger] clean_entries(
            pieces,
        )[i]).len() > 0 by {
            if i < prev.len() {
                assert(clean_entries(pieces)[i] == prev[i]);
            }
        }
    }
}

/// Splitting a comma-joined list of addresses gives the list back, when
/// every address survives the list (non-empty, no comma, nothing that
/// trimming spaces or quotes removes); and no address split from any text
/// is empty.
pub proof fn lemma_split_ips_of_join(ips: Seq<Seq<char>>, raw: Seq<char>)
    requires
        forall|i: int| 0 <= i < ips.len() ==> ip_entry_ok(#[trigger] ips[i]),
    ensures
        split_ips_spec(join_with(ips, ',')) == ips,
        forall|i: int| 0 <= i < split_ips_spec(raw).len() ==> (#[trigger] split_ips_spec(raw)[i]).len() > 0,
{
    if ips.len() > 0 {
        lemma_split_join(ips, ',');
    } else {
        assert(split_on(Seq::<char>::empty(), ',') == seq![Seq::<char>::empty()]);
        assert(seq![Seq::<char>::empty()].drop_last() =~= Seq::<Seq<char>>::empty());
        assert(clean_entry(Seq::<char>::empty()) =~= Seq::<char>::empty()) by {
            assert(trim(Seq::<char>::empty()) == Seq::<char>::empty());
        }
        assert(ips =~= Seq::<Seq<char>>::empty());
    }
    lemma_clean_entries_identity(ips);
    lemma_clean_entries_nonempty(split_on(raw, ','));
}

/// The Network page's `net_method` field reads as static addressing exactly
/// when it says `static`; `dhcp` (or anything else, or no field) reads as
/// DHCP. A write posts `dhcp` for DHCP and `static` for static addressing.
pub proof fn lemma_network_method_field(m: Map<Seq<char>, Seq<char>>, s: NetworkSettingsView)
    ensures
        (network_from_map(m).config_method == ConfigMethod::Static) <==> (m.contains_key(
            "net_method"@,
        ) && m["net_method"@] == "static"@),
        m.contains_key("net_method"@) && m["net_method"@] == "dhcp"@ ==> network_from_map(
            m,
        ).config_method == ConfigMethod::Dhcp,
        s.config_method == ConfigMethod::Dhcp ==> apply_network(m, s)["net_method"@] == "dhcp"@,
        s.config_method == ConfigMethod::Static ==> apply_network(m, s)["net_method"@]
            == "static"@,
{
    lemma_network_literals();
    reveal_strlit("dhcp");
    reveal_strlit("static");
    assert("dhcp"@[0] != "static"@[0]);
}

/// The Network page's field names (and two-way values) are distinct.
proof fn lemma_network_literals()
    ensures
        "net_method"@ != "net_address"@,
        "net_method"@ != "net_mask"@,
        "net_method"@ != "net_gate"@,
        "net_method"@ != "net_fallback_timeout"@,
        "net_method"@ != "net_fallback_address"@,
        "net_method"@ != "net_fallback_mask"@,
        "net_method"@ != "net_avahi"@,
        "net_method"@ != "Txpm"@,
        "net_method"@ != "Rxpm"@,
        "net_method"@ != "Txnetprefix"@,
        "net_method"@ != "Txnetmask"@,
        "net_method"@ != "Txmcttl"@,
        "net_method"@ != "NDIDisServ"@,
        "net_method"@ != "NDIDisServIP"@,
        "net_address"@ != "net_mask"@,
        "net_address"@ != "net_gate"@,
        "net_address"@ != "net_fallback_timeout"@,
        "net_address"@ != "net_fallback_address"@,
        "net_address"@ != "net_fallback_mask"@,
        "net_address"@ != "net_avahi"@,
        "net_address"@ != "Txpm"@,
        "net_address"@ != "Rxpm"@,
        "net_address"@ != "Txnetprefix"@,
        "net_address"@ != "Txnetmask"@,
        "net_address"@ != "Txmcttl"@,
        "net_address"@ != "NDIDisServ"@,
        "net_address"@ != "NDIDisServIP"@,
        "net_mask"@ != "net_gate"@,
        "net_mask"@ != "net_fallback_timeout"@,
        "net_mask"@ != "net_fallback_address"@,
        "net_mask"@ != "net_fallback_mask"@,
        "net_mask"@ != "net_avahi"@,
        "net_mask"@ != "Txpm"@,
        "net_mask"@ != "Rxpm"@,
        "net_mask"@ != "Txnetprefix"@,
        "net_mask"@ != "Txnetmask"@,
        "net_mask"@ != "Txmcttl"@,
        "net_mask"@ != "NDIDisServ"@,
        "net_mask"@ != "NDIDisServIP"@,
        "net_gate"@ != "net_fallback_timeout"@,
        "net_gate"@ != "net_fallback_address"@,
        "net_gate"@ != "net_fallback_mask"@,
        "net_gate"@ != "net_avahi"@,
        "net_gate"@ != "Txpm"@,
        "net_gate"@ != "Rxpm"@,
        "net_gate"@ != "Txnetprefix"@,
        "net_gate"@ != "Txnetmask"@,
        "net_gate"@ != "Txmcttl"@,
        "net_gate"@ != "NDIDisServ"@,
        "net_gate"@ != "NDIDisServIP"@,
        "net_fallback_timeout"@ != "net_fallback_address"@,
        "net_fallback_timeout"@ != "net_fallback_mask"@,
        "net_fallback_timeout"@ != "net_avahi"@,
        "net_fallback_timeout"@ != "Txpm"@,
        "net_fallback_timeout"@ != "Rxpm"@,
        "net_fallback_timeout"@ != "Txnetprefix"@,
        "net_fallback_timeout"@ != "Txnetmask"@,
        "net_fallback_timeout"@ != "Txmcttl"@,
        "net_fallback_timeout"@ != "NDIDisServ"@,
        "net_fallback_timeout"@ != "NDIDisServIP"@,
        "net_fallback_address"@ != "net_fallback_mask"@,
        "net_fallback_address"@ != "net_avahi"@,
        "net_fallback_address"@ != "Txpm"@,
        "net_fallback_address"@ != "Rxpm"@,
        "net_fallback_address"@ != "Txnetprefix"@,
        "net_fallback_address"@ != "Txnetmask"@,
        "net_fallback_address"@ != "Txmcttl"@,
        "net_fallback_address"@ != "NDIDisServ"@,
        "net_fallback_address"@ != "NDIDisServIP"@,
        "net_fallback_mask"@ != "net_avahi"@,
        "net_fallback_mask"@ != "Txpm"@,
        "net_fallback_mask"@ != "Rxpm"@,
        "net_fallback_mask"@ != "Txnetprefix"@,
        "net_fallback_mask"@ != "Txnetmask"@,
        "net_fallback_mask"@ != "Txmcttl"@,
        "net_fallback_mask"@ != "NDIDisServ"@,
        "net_fallback_mask"@ != "NDIDisServIP"@,
        "net_avahi"@ != "Txpm"@,
        "net_avahi"@ != "Rxpm"@,
        "net_avahi"@ != "Txnetprefix"@,
        "net_avahi"@ != "Txnetmask"@,
        "net_avahi"@ != "Txmcttl"@,
        "net_avahi"@ != "NDIDisServ"@,
        "net_avahi"@ != "NDIDisServIP"@,
        "Txpm"@ != "Rxpm"@,
        "Txpm"@ != "Txnetprefix"@,
        "Txpm"@ != "Txnetmask"@,
        "Txpm"@ != "Txmcttl"@,
        "Txpm"@ != "NDIDisServ"@,
        "Txpm"@ != "NDIDisServIP"@,
        "Rxpm"@ != "Txnetprefix"@,
        "Rxpm"@ != "Txnetmask"@,
        "Rxpm"@ != "Txmcttl"@,
        "Rxpm"@ != "NDIDisServ"@,
        "Rxpm"@ != "NDIDisServIP"@,
        "Txnetprefix"@ != "Txnetmask"@,
        "Txnetprefix"@ != "Txmcttl"@,
        "Txnetprefix"@ != "NDIDisServ"@,
        "Txnetprefix"@ != "NDIDisServIP"@,
        "Txnetmask"@ != "Txmcttl"@,
        "Txnetmask"@ != "NDIDisServ"@,
        "Txnetmask"@ != "NDIDisServIP"@,
        "Txmcttl"@ != "NDIDisServ"@,
        "Txmcttl"@ != "NDIDisServIP"@,
        "NDIDisServ"@ != "NDIDisServIP"@,
        "dhcp"@ != "static"@,
        "NDIDisServEn"@ != "NDIDisServDis"@,
{
    reveal_strlit("net_method");
    reveal_strlit("net_address");
    reveal_strlit("net_mask");
    reveal_strlit("net_gate");
    reveal_strlit("net_fallback_timeout");
    reveal_strlit("net_fallback_address");
    reveal_strlit("net_fallback_mask");
    reveal_strlit("net_avahi");
    reveal_strlit("Txpm");
    reveal_strlit("Rxpm");
    reveal_strlit("Txnetprefix");
    reveal_strlit("Txnetmask");
    reveal_strlit("Txmcttl");
    reveal_strlit("NDIDisServ");
    reveal_strlit("NDIDisServIP");
    reveal_strlit("dhcp");
    reveal_strlit("static");
    reveal_strlit("NDIDisServEn");
    reveal_strlit("NDIDisServDis");
    assert("net_method"@.len() != "net_address"@.len());
    assert("net_method"@.len() != "net_mask"@.len());
    assert("net_method"@.len() != "net_gate"@.len());
    assert("net_method"@.len() != "net_fallback_timeout"@.len());
    assert("net_method"@.len() != "net_fallback_address"@.len());
    assert("net_method"@.len() != "net_fallback_mask"@.len());
    assert("net_method"@.len() != "net_avahi"@.len());
    assert("net_method"@.len() != "Txpm"@.len());
    assert("net_method"@.len() != "Rxpm"@.len());
    assert("net_method"@.len() != "Txnetprefix"@.len());
    assert("net_method"@.len() != "Txnetmask"@.len());
    assert("net_method"@.len() != "Txmcttl"@.len());
    assert("net_method"@[0] != "NDIDisServ"@[0]);
    assert("net_method"@.len() != "NDIDisServIP"@.len());
    assert("net_address"@.len() != "net_mask"@.len());
    assert("net_address"@.len() != "net_gate"@.len());
    assert("net_address"@.len() != "net_fallback_timeout"@.len());
    assert("net_address"@.len() != "net_fallback_address"@.len());
    assert("net_address"@.len() != "net_fallback_mask"@.len());
    assert("net_address"@.len() != "net_avahi"@.len());
    assert("net_address"@.len() != "Txpm"@.len());
    assert("net_address"@.len() != "Rxpm"@.len());
    assert("net_address"@[0] != "Txnetprefix"@[0]);
    assert("net_address"@.len() != "Txnetmask"@.len());
    assert("net_address"@.len() != "Txmcttl"@.len());
    assert("net_address"@.len() != "NDIDisServ"@.len());
    assert("net_address"@.len() != "NDIDisServIP"@.len());
    assert("net_mask"@[4] != "net_gate"@[4]);
    assert("net_mask"@.len() != "net_fallback_timeout"@.len());
    assert("net_mask"@.len() != "net_fallback_address"@.len());
    assert("net_mask"@.len() != "net_fallback_mask"@.len());
    assert("net_mask"@.len() != "net_avahi"@.len());
    assert("net_mask"@.len() != "Txpm"@.len());
    assert("net_mask"@.len() != "Rxpm"@.len());
    assert("net_mask"@.len() != "Txnetprefix"@.len());
    assert("net_mask"@.len() != "Txnetmask"@.len());
    assert("net_mask"@.len() != "Txmcttl"@.len());
    assert("net_mask"@.len() != "NDIDisServ"@.len());
    assert("net_mask"@.len() != "NDIDisServIP"@.len());
    assert("net_gate"@.len() != "net_fallback_timeout"@.len());
    assert("net_gate"@.len() != "net_fallback_address"@.len());
    assert("net_gate"@.len() != "net_fallback_mask"@.len());
    assert("net_gate"@.len() != "net_avahi"@.len());
    assert("net_gate"@.len() != "Txpm"@.len());
    assert("net_gate"@.len() != "Rxpm"@.len());
    assert("net_gate"@.len() != "Txnetprefix"@.len());
    assert("net_gate"@.len() != "Txnetmask"@.len());
    assert("net_gate"@.len() != "Txmcttl"@.len());
    assert("net_gate"@.len() != "NDIDisServ"@.len());
    assert("net_gate"@.len() != "NDIDisServIP"@.len());
    assert("net_fallback_timeout"@[13] != "net_fallback_address"@[13]);
    assert("net_fallback_timeout"@.len() != "net_fallback_mask"@.len());
    assert("net_fallback_timeout"@.len() != "net_avahi"@.len());
    assert("net_fallback_timeout"@.len() != "Txpm"@.len());
    assert("net_fallback_timeout"@.len() != "Rxpm"@.len());
    assert("net_fallback_timeout"@.len() != "Txnetprefix"@.len());
    assert("net_fallback_timeout"@.len() != "Txnetmask"@.len());
    assert("net_fallback_timeout"@.len() != "Txmcttl"@.len());
    assert("net_fallback_timeout"@.len() != "NDIDisServ"@.len());
    assert("net_fallback_timeout"@.len() != "NDIDisServIP"@.len());
    assert("net_fallback_address"@.len() != "net_fallback_mask"@.len());
    assert("net_fallback_address"@.len() != "net_avahi"@.len());
    assert("net_fallback_address"@.len() != "Txpm"@.len());
    assert("net_fallback_address"@.len() != "Rxpm"@.len());
    assert("net_fallback_address"@.len() != "Txnetprefix"@.len());
    assert("net_fallback_address"@.len() != "Txnetmask"@.len());
    assert("net_fallback_address"@.len() != "Txmcttl"@.len());
    assert("net_fallback_address"@.len() != "NDIDisServ"@.len());
    assert("net_fallback_address"@.len() != "NDIDisServIP"@.len());
    assert("net_fallback_mask"@.len() != "net_avahi"@.len());
    assert("net_fallback_mask"@.len() != "Txpm"@.len());
    assert("net_fallback_mask"@.len() != "Rxpm"@.len());
    assert("net_fallback_mask"@.len() != "Txnetprefix"@.len());
    assert("net_fallback_mask"@.len() != "Txnetmask"@.len());
    assert("net_fallback_mask"@.len() != "Txmcttl"@.len());
    assert("net_fallback_mask"@.len() != "NDIDisServ"@.len());
    assert("net_fallback_mask"@.len() != "NDIDisServIP"@.len());
    assert("net_avahi"@.len() != "Txpm"@.len());
    assert("net_avahi"@.len() != "Rxpm"@.len());
    assert("net_avahi"@.len() != "Txnetprefix"@.len());
    assert("net_avahi"@[0] != "Txnetmask"@[0]);
    assert("net_avahi"@.len() != "Txmcttl"@.len());
    assert("net_avahi"@.len() != "NDIDisServ"@.len());
    assert("net_avahi"@.len() != "NDIDisServIP"@.len());
    assert("Txpm"@[0] != "Rxpm"@[0]);
    assert("Txpm"@.len() != "Txnetprefix"@.len());
    assert("Txpm"@.len() != "Txnetmask"@.len());
    assert("Txpm"@.len() != "Txmcttl"@.len());
    assert("Txpm"@.len() != "NDIDisServ"@.len());
    assert("Txpm"@.len() != "NDIDisServIP"@.len());
    assert("Rxpm"@.len() != "Txnetprefix"@.len());
    assert("Rxpm"@.len() != "Txnetmask"@.len());
    assert("Rxpm"@.len() != "Txmcttl"@.len());
    assert("Rxpm"@.len() != "NDIDisServ"@.len());
    assert("Rxpm"@.len() != "NDIDisServIP"@.len());
    assert("Txnetprefix"@.len() != "Txnetmask"@.len());
    assert("Txnetprefix"@.len() != "Txmcttl"@.len());
    assert("Txnetprefix"@.len() != "NDIDisServ"@.len());
    assert("Txnetprefix"@.len() != "NDIDisServIP"@.len());
    assert("Txnetmask"@.len() != "Txmcttl"@.len());
    assert("Txnetmask"@.len() != "NDIDisServ"@.len());
    assert("Txnetmask"@.len() != "NDIDisServIP"@.len());
    assert("Txmcttl"@.len() != "NDIDisServ"@.len());
    assert("Txmcttl"@.len() != "NDIDisServIP"@.len());
    assert("NDIDisServ"@.len() != "NDIDisServIP"@.len());
    assert("dhcp"@.len() != "static"@.len());
    assert("NDIDisServEn"@.len() != "NDIDisServDis"@.len());
}

/// A Network read after a write, as the real-hardware client does them:
/// when the Network page's form now holds what `set_network_settings`
/// posted (`apply_network_settings` over the fields scraped before),
/// `network_settings_from_page` gives back the settings written, provided
/// every discovery-server address survives the comma-separated list.
pub proof fn lemma_http_network_settings_read_back(
    html: Seq<char>,
    scraped: Map<Seq<char>, Seq<char>>,
    s: NetworkSettingsView,
)
    requires
        crate::form::form_fields(
            crate::form::html_input_elements(html),
            crate::form::html_select_elements(html),
        ) == apply_network(scraped, s),
        forall|i: int|
            0 <= i < s.ndi_discovery_server_ips.len() ==> ip_entry_ok(
                #[trigger] s.ndi_discovery_server_ips[i],
            ),
    ensures
        network_from_map(
            crate::form::form_fields(
                crate::form::html_input_elements(html),
                crate::form::html_select_elements(html),
            ),
        ) == s,
{
    lemma_network_round_trip(scraped, s);
}

/// Writing Network settings and reading the page back gives the same
/// settings, provided every discovery-server address survives the
/// comma-separated list.
pub proof fn lemma_network_round_trip(m: Map<Seq<char>, Seq<char>>, s: NetworkSettingsView)
    requires
        forall|i: int|
            0 <= i < s.ndi_discovery_server_ips.len() ==> ip_entry_ok(
                #[trigger] s.ndi_discovery_server_ips[i],
            ),
    ensures
        network_from_map(apply_network(m, s)) == s,
{
    lemma_network_literals();
    let w = apply_network(m, s);
    lemma_decimal_round_trip(s.dhcp_timeout_secs as nat, 0xffff_ffff);
    lemma_decimal_round_trip(s.multicast_ttl as nat, 0xff);
    lemma_ndi_method_round_trip(s.ndi_transmit_method);
    lemma_ndi_method_round_trip(s.ndi_receive_method);
    let ips = s.ndi_discovery_server_ips;
    lemma_split_ips_of_join(ips, Seq::empty());
    assert(field(w, "NDIDisServIP"@) == join_with(ips, ','));
    let r = network_from_map(w);
    assert(r.ndi_discovery_server_ips == ips);
    assert(r.config_method == s.config_method);
    assert(r.ip_address == s.ip_address);
    assert(r.subnet_mask == s.subnet_mask);
    assert(r.gateway_address == s.gateway_address);
    assert(r.dhcp_timeout_secs == s.dhcp_timeout_secs);
    assert(r.fallback_ip_address == s.fallback_ip_address);
    assert(r.fallback_subnet_mask == s.fallback_subnet_mask);
    assert(r.birddog_name == s.birddog_name);
    assert(r.ndi_transmit_method == s.ndi_transmit_method);
    assert(r.ndi_receive_method == s.ndi_receive_method);
    assert(r.multicast_net_prefix == s.multicast_net_prefix);
    assert(r.multicast_net_mask == s.multicast_net_mask);
    assert(r.multicast_ttl == s.multicast_ttl);
    assert(r.ndi_discovery_server_enabled == s.ndi_discovery_server_enabled);
    assert(r == s);
}


// ---------------------------------------------------------------------------
// Decode page
// ---------------------------------------------------------------------------

/// What the Decode page says. Its source fields read `None` (any case) or
/// empty when unset; the screensaver's current value is the page's hidden
/// `dec1_sel` marker rather than a selected option; an empty colour space
/// reads as YUV. The page has no SRT or source-list fields, so those read as
/// an NDI source with SRT defaults (caller, 120 ms) and empty lists.
pub open spec fn decode_from_map(m: Map<Seq<char>, Seq<char>>, marker: Option<Seq<char>>) -> DecodeSettingsView {
    DecodeSettingsView {
        source_type: "NDI"@,
        selected_source: source_or_none(field(m, "dec0_source_name"@)),
        available_sources: Seq::empty(),
        failover_source: source_or_none(field(m, "dec0_fo_source_name"@)),
        srt_connection_type: "caller"@,
        srt_stream_name: None,
        srt_ip_address: None,
        srt_port: None,
        srt_latency_ms: 120,
        srt_encryption_enabled: false,
        srt_encryption_key_length: None,
        srt_passphrase: None,
        srt_stream_id: None,
        srt_available_sources: Seq::empty(),
        screensaver_mode: match marker {
            Some(v) => v,
            None => Seq::empty(),
        },
        color_space: if field(m, "decode_ColorSpace"@).len() == 0 {
            "YUV"@
        } else {
            field(m, "decode_ColorSpace"@)
        },
        ndi_audio_enabled: field(m, "decode_NDIAudio"@) == "NDIAudioEn"@,
        tally_mode: field(m, "decode_TallyMode"@),
    }
}

/// Decode settings from the Decode page's fields and its screensaver marker.
pub fn decode_from_fields(fields: &FieldMap<String>, screensaver_marker: Option<String>) -> (s: DecodeSettings)
    ensures
        s@ == decode_from_map(fields@, opt_view(screensaver_marker)),
{
    let color = field_or_empty(fields, "decode_ColorSpace");
    let audio = field_or_empty(fields, "decode_NDIAudio");
    let none_listed: Vec<String> = Vec::new();
    let srt_listed: Vec<String> = Vec::new();
    assert(views(none_listed@) =~= Seq::<Seq<char>>::empty());
    assert(views(srt_listed@) =~= Seq::<Seq<char>>::empty());
    DecodeSettings {
        source_type: owned("NDI"),
        selected_source: none_if_placeholder(field_or_empty(fields, "dec0_source_name")),
        available_sources: none_listed,
        failover_source: none_if_placeholder(field_or_empty(fields, "dec0_fo_source_name")),
        srt_connection_type: owned("caller"),
        srt_stream_name: None,
        srt_ip_address: None,
        srt_port: None,
        srt_latency_ms: 120,
        srt_encryption_enabled: false,
        srt_encryption_key_length: None,
        srt_passphrase: None,
        srt_stream_id: None,
        srt_available_sources: srt_listed,
        screensaver_mode: match screensaver_marker {
            Some(v) => v,
            None => String::new(),
        },
        color_space: if color.as_str().is_empty() {
            owned("YUV")
        } else {
            color
        },
        ndi_audio_enabled: str_eq(audio.as_str(), "NDIAudioEn"),
        tally_mode: field_or_empty(fields, "decode_TallyMode"),
    }
}

/// Decode settings as the Decode page shows them.
pub fn decode_settings_from_page(html: &str) -> (s: DecodeSettings)
    ensures
        s@ == decode_from_map(
            crate::form::form_fields(
                crate::form::html_input_elements(html@),
                crate::form::html_select_elements(html@),
            ),
            crate::form::html_attr_by_id(html@, "dec1_sel"@, "value"@),
        ),
{
    let fields = scrape_form_fields(html);
    let marker = scrape_attr_by_id(html, "dec1_sel", "value");
    decode_from_fields(&fields, marker)
}

/// The fields a Decode write overrides: the source and failover (name and
/// the device's `ip:port` for it), the source-change button that the
/// device needs before it applies a source, and the other decode fields.
pub open spec fn apply_decode(
    m: Map<Seq<char>, Seq<char>>,
    s: DecodeSettingsView,
    sources: Map<Seq<char>, Seq<char>>,
) -> Map<Seq<char>, Seq<char>> {
    let src = resolved_source(s.selected_source, sources);
    let fo = resolved_source(s.failover_source, sources);
    m.insert("dec0_source_name"@, src.0).insert("dec0_source_ip"@, src.1).insert(
        "dec0_fo_source_name"@,
        fo.0,
    ).insert("dec0_fo_source_ip"@, fo.1).insert(
        "dec0_change_source_button"@,
        "dec0_change_source"@,
    ).insert("decode_ScreenSaverMode"@, s.screensaver_mode).insert(
        "decode_ColorSpace"@,
        s.color_space,
    ).insert(
        "decode_NDIAudio"@,
        if s.ndi_audio_enabled {
            "NDIAudioEn"@
        } else {
            "NDIAudioDis"@
        },
    ).insert("decode_TallyMode"@, s.tally_mode)
}

/// The keys a Decode write sets.
pub open spec fn decode_keys() -> Set<Seq<char>> {
    set![
        "dec0_source_name"@,
        "dec0_source_ip"@,
        "dec0_fo_source_name"@,
        "dec0_fo_source_ip"@,
        "dec0_change_source_button"@,
        "decode_ScreenSaverMode"@,
        "decode_ColorSpace"@,
        "decode_NDIAudio"@,
        "decode_TallyMode"@,
    ]
}

/// A Decode write passes every field it does not manage through
/// unchanged, and always carries the source-change button.
pub proof fn lemma_decode_write_keeps_other_fields(
    m: Map<Seq<char>, Seq<char>>,
    s: DecodeSettingsView,
    sources: Map<Seq<char>, Seq<char>>,
    k: Seq<char>,
)
    requires
        !decode_keys().contains(k),
    ensures
        apply_decode(m, s, sources).contains_key(k) == m.contains_key(k),
        m.contains_key(k) ==> apply_decode(m, s, sources)[k] == m[k],
        apply_decode(m, s, sources)["dec0_change_source_button"@] == "dec0_change_source"@,
{
    lemma_decode_literals();
}

/// Overrides the Decode fields flock manages with `s`, resolving sources
/// against the device's live source list and always submitting the
/// source-change button; other scraped fields are left as they were.
pub fn apply_decode_settings(fields: &mut FieldMap<String>, s: &DecodeSettings, sources: &FieldMap<String>)
    ensures
        final(fields)@ == apply_decode(old(fields)@, s@, sources@),
{
    let (source_name, source_ip) = resolve_source(&s.selected_source, sources);
    let (fo_name, fo_ip) = resolve_source(&s.failover_source, sources);
    insert_lit(fields, "dec0_source_name", source_name);
    insert_lit(fields, "dec0_source_ip", source_ip);
    insert_lit(fields, "dec0_fo_source_name", fo_name);
    insert_lit(fields, "dec0_fo_source_ip", fo_ip);
    insert_lit(fields, "dec0_change_source_button", owned("dec0_change_source"));
    insert_lit(fields, "decode_ScreenSaverMode", s.screensaver_mode.clone());
    insert_lit(fields, "decode_ColorSpace", s.color_space.clone());
    insert_lit(
        fields,
        "decode_NDIAudio",
        owned(
            if s.ndi_audio_enabled {
                "NDIAudioEn"
            } else {
                "NDIAudioDis"
            },
        ),
    );
    insert_lit(fields, "decode_TallyMode", s.tally_mode.clone());
}

/// NDI audio reads as on exactly when the page's `decode_NDIAudio` field
/// says `NDIAudioEn`; a write posts `NDIAudioEn` to switch it on and
/// `NDIAudioDis` to switch it off.
pub proof fn lemma_decode_audio_field(
    m: Map<Seq<char>, Seq<char>>,
    marker: Option<Seq<char>>,
    s: DecodeSettingsView,
    sources: Map<Seq<char>, Seq<char>>,
)
    ensures
        decode_from_map(m, marker).ndi_audio_enabled <==> (m.contains_key("decode_NDIAudio"@)
            && m["decode_NDIAudio"@] == "NDIAudioEn"@),
        s.ndi_audio_enabled ==> apply_decode(m, s, sources)["decode_NDIAudio"@] == "NDIAudioEn"@,
        !s.ndi_audio_enabled ==> apply_decode(m, s, sources)["decode_NDIAudio"@]
            == "NDIAudioDis"@,
{
    lemma_decode_literals();
    reveal_strlit("NDIAudioEn");
    reveal_strlit("NDIAudioDis");
    assert("NDIAudioEn"@.len() != 0);
    assert("NDIAudioEn"@.len() != "NDIAudioDis"@.len());
}

/// The Decode page's field names are distinct, and `None` is the unset
/// placeholder.
proof fn lemma_decode_literals()
    ensures
        "dec0_source_name"@ != "dec0_source_ip"@,
        "dec0_source_name"@ != "dec0_fo_source_name"@,
        "dec0_source_name"@ != "dec0_fo_source_ip"@,
        "dec0_source_name"@ != "dec0_change_source_button"@,
        "dec0_source_name"@ != "decode_ScreenSaverMode"@,
        "dec0_source_name"@ != "decode_ColorSpace"@,
        "dec0_source_name"@ != "decode_NDIAudio"@,
        "dec0_source_name"@ != "decode_TallyMode"@,
        "dec0_source_ip"@ != "dec0_fo_source_name"@,
        "dec0_source_ip"@ != "dec0_fo_source_ip"@,
        "dec0_source_ip"@ != "dec0_change_source_button"@,
        "dec0_source_ip"@ != "decode_ScreenSaverMode"@,
        "dec0_source_ip"@ != "decode_ColorSpace"@,
        "dec0_source_ip"@ != "decode_NDIAudio"@,
        "dec0_source_ip"@ != "decode_TallyMode"@,
        "dec0_fo_source_name"@ != "dec0_fo_source_ip"@,
        "dec0_fo_source_name"@ != "dec0_change_source_button"@,
        "dec0_fo_source_name"@ != "decode_ScreenSaverMode"@,
        "dec0_fo_source_name"@ != "decode_ColorSpace"@,
        "dec0_fo_source_name"@ != "decode_NDIAudio"@,
        "dec0_fo_source_name"@ != "decode_TallyMode"@,
        "dec0_fo_source_ip"@ != "dec0_change_source_button"@,
        "dec0_fo_source_ip"@ != "decode_ScreenSaverMode"@,
        "dec0_fo_source_ip"@ != "decode_ColorSpace"@,
        "dec0_fo_source_ip"@ != "decode_NDIAudio"@,
        "dec0_fo_source_ip"@ != "decode_TallyMode"@,
        "dec0_change_source_button"@ != "decode_ScreenSaverMode"@,
        "dec0_change_source_button"@ != "decode_ColorSpace"@,
        "dec0_change_source_button"@ != "decode_NDIAudio"@,
        "dec0_change_source_button"@ != "decode_TallyMode"@,
        "decode_ScreenSaverMode"@ != "decode_ColorSpace"@,
        "decode_ScreenSaverMode"@ != "decode_NDIAudio"@,
        "decode_ScreenSaverMode"@ != "decode_TallyMode"@,
        "decode_ColorSpace"@ != "decode_NDIAudio"@,
        "decode_ColorSpace"@ != "decode_TallyMode"@,
        "decode_NDIAudio"@ != "decode_TallyMode"@,
        "NDIAudioEn"@ != "NDIAudioDis"@,
        is_placeholder("None"@),
{
    reveal_strlit("dec0_source_name");
    reveal_strlit("dec0_source_ip");
    reveal_strlit("dec0_fo_source_name");
    reveal_strlit("dec0_fo_source_ip");
    reveal_strlit("dec0_change_source_button");
    reveal_strlit("decode_ScreenSaverMode");
    reveal_strlit("decode_ColorSpace");
    reveal_strlit("decode_NDIAudio");
    reveal_strlit("decode_TallyMode");
    reveal_strlit("None");
    reveal_strlit("NDIAudioEn");
    reveal_strlit("NDIAudioDis");
    reveal_strlit("YUV");
    assert("dec0_source_name"@.len() != "dec0_source_ip"@.len());
    assert("dec0_source_name"@.len() != "dec0_fo_source_name"@.len());
    assert("dec0_source_name"@.len() != "dec0_fo_source_ip"@.len());
    assert("dec0_source_name"@.len() != "dec0_change_source_button"@.len());
    assert("dec0_source_name"@.len() != "decode_ScreenSaverMode"@.len());
    assert("dec0_source_name"@.len() != "decode_ColorSpace"@.len());
    assert("dec0_source_name"@.len() != "decode_NDIAudio"@.len());
    assert("dec0_source_name"@[3] != "decode_TallyMode"@[3]);
    assert("dec0_source_ip"@.len() != "dec0_fo_source_name"@.len());
    assert("dec0_source_ip"@.len() != "dec0_fo_source_ip"@.len());
    assert("dec0_source_ip"@.len() != "dec0_change_source_button"@.len());
    assert("dec0_source_ip"@.len() != "decode_ScreenSaverMode"@.len());
    assert("dec0_source_ip"@.len() != "decode_ColorSpace"@.len());
    assert("dec0_source_ip"@.len() != "decode_NDIAudio"@.len());
    assert("dec0_source_ip"@.len() != "decode_TallyMode"@.len());
    assert("dec0_fo_source_name"@.len() != "dec0_fo_source_ip"@.len());
    assert("dec0_fo_source_name"@.len() != "dec0_change_source_button"@.len());
    assert("dec0_fo_source_name"@.len() != "decode_ScreenSaverMode"@.len());
    assert("dec0_fo_source_name"@.len() != "decode_ColorSpace"@.len());
    assert("dec0_fo_source_name"@.len() != "decode_NDIAudio"@.len());
    assert("dec0_fo_source_name"@.len() != "decode_TallyMode"@.len());
    assert("dec0_fo_source_ip"@.len() != "dec0_change_source_button"@.len());
    assert("dec0_fo_source_ip"@.len() != "decode_ScreenSaverMode"@.len());
    assert("dec0_fo_source_ip"@[3] != "decode_ColorSpace"@[3]);
    assert("dec0_fo_source_ip"@.len() != "decode_NDIAudio"@.len());
    assert("dec0_fo_source_ip"@.len() != "decode_TallyMode"@.len());
    assert("dec0_change_source_button"@.len() != "decode_ScreenSaverMode"@.len());
    assert("dec0_change_source_button"@.len() != "decode_ColorSpace"@.len());
    assert("dec0_change_source_button"@.len() != "decode_NDIAudio"@.len());
    assert("dec0_change_source_button"@.len() != "decode_TallyMode"@.len());
    assert("decode_ScreenSaverMode"@.len() != "decode_ColorSpace"@.len());
    assert("decode_ScreenSaverMode"@.len() != "decode_NDIAudio"@.len());
    assert("decode_ScreenSaverMode"@.len() != "decode_TallyMode"@.len());
    assert("decode_ColorSpace"@.len() != "decode_NDIAudio"@.len());
    assert("decode_ColorSpace"@.len() != "decode_TallyMode"@.len());
    assert("decode_NDIAudio"@.len() != "decode_TallyMode"@.len());
    assert("NDIAudioEn"@.len() != "NDIAudioDis"@.len());
    assert(ascii_lower('N') == 'n') by {
        assert(('N' as u32 + 32) as u8 == 110u8);
    }
}


/// Writing Decode settings and reading the page back gives the same source,
/// failover, colour space, audio and tally, provided the sources are not
/// themselves spelled like the unset placeholder and the colour space is
/// not empty.
pub proof fn lemma_decode_round_trip(
    m: Map<Seq<char>, Seq<char>>,
    s: DecodeSettingsView,
    sources: Map<Seq<char>, Seq<char>>,
    marker: Option<Seq<char>>,
)
    requires
        s.selected_source matches Some(n) ==> !is_placeholder(n),
        s.failover_source matches Some(n) ==> !is_placeholder(n),
        s.color_space.len() > 0,
    ensures
        ({
            let r = decode_from_map(apply_decode(m, s, sources), marker);
            &&& r.selected_source == s.selected_source
            &&& r.failover_source == s.failover_source
            &&& r.color_space == s.color_space
            &&& r.ndi_audio_enabled == s.ndi_audio_enabled
            &&& r.tally_mode == s.tally_mode
        }),
{
    lemma_decode_literals();
}

// ---------------------------------------------------------------------------
// Dashboard and System
// ---------------------------------------------------------------------------

/// The Dashboard element ids flock reads.
pub open spec fn dashboard_ids() -> Seq<Seq<char>> {
    seq![
        "vid_str_name"@,
        "vid_fmt"@,
        "aud_stat"@,
        "vid_res"@,
        "vid_fr"@,
        "dashboard_avahi_name"@,
        "dashboard_vid_status"@,
        "dashboard_fw_version"@,
    ]
}

/// The status the Dashboard's texts show. The bitrate is hidden on a Play's
/// Dashboard and reads as 0.
pub open spec fn status_from_map(t: Map<Seq<char>, Seq<char>>) -> DeviceStatusView {
    DeviceStatusView {
        online: field(t, "dashboard_vid_status"@) == "active"@,
        ndi_stream_name: field(t, "vid_str_name"@),
        video_format: field(t, "vid_fmt"@),
        audio_status: field(t, "aud_stat"@),
        video_resolution: field(t, "vid_res"@),
        video_frame_rate: field(t, "vid_fr"@),
        average_bitrate_kbps: 0,
        firmware_version: field(t, "dashboard_fw_version"@),
        system_name: field(t, "dashboard_avahi_name"@),
    }
}

/// Device status from the Dashboard's texts.
pub fn status_from_texts(texts: &FieldMap<String>) -> (s: DeviceStatus)
    ensures
        s@ == status_from_map(texts@),
{
    let vid = field_or_empty(texts, "dashboard_vid_status");
    DeviceStatus {
        online: str_eq(vid.as_str(), "active"),
        ndi_stream_name: field_or_empty(texts, "vid_str_name"),
        video_format: field_or_empty(texts, "vid_fmt"),
        audio_status: field_or_empty(texts, "aud_stat"),
        video_resolution: field_or_empty(texts, "vid_res"),
        video_frame_rate: field_or_empty(texts, "vid_fr"),
        average_bitrate_kbps: 0,
        firmware_version: field_or_empty(texts, "dashboard_fw_version"),
        system_name: field_or_empty(texts, "dashboard_avahi_name"),
    }
}

/// Device status as the Dashboard page shows it.
pub fn dashboard_status(html: &str) -> (s: DeviceStatus)
    ensures
        s@ == status_from_map(
            crate::form::text_fields(dashboard_ids(), crate::form::id_texts(html@, dashboard_ids())),
        ),
{
    let ids: [&str; 8] = [
        "vid_str_name",
        "vid_fmt",
        "aud_stat",
        "vid_res",
        "vid_fr",
        "dashboard_avahi_name",
        "dashboard_vid_status",
        "dashboard_fw_version",
    ];
    assert(crate::form::str_views(ids@) =~= dashboard_ids());
    let texts = scrape_text_by_id(html, &ids);
    status_from_texts(&texts)
}

/// System settings as the device reports them: the firmware version from
/// the Dashboard; the Access Manager lists cannot be read back and are
/// empty.
pub fn system_from_status(status: &DeviceStatus) -> (s: SystemSettings)
    ensures
        s@.firmware_version == status@.firmware_version,
        s@.remote_ip_list.len() == 0,
        s@.ndi_group_list.len() == 0,
{
    SystemSettings {
        firmware_version: status.firmware_version.clone(),
        remote_ip_list: Vec::new(),
        ndi_group_list: Vec::new(),
    }
}

/// One Access Manager list upload: the page to post to, the file field's
/// name, and the file's text.
#[derive(Clone, Debug, PartialEq, Eq)]
pub struct ListUpload {
    pub path: String,
    pub field: String,
    pub content: String,
}

impl View for ListUpload {
    type V = (Seq<char>, Seq<char>, Seq<char>);

    open spec fn view(&self) -> (Seq<char>, Seq<char>, Seq<char>) {
        (self.path@, self.field@, self.content@)
    }
}

/// Each item in double quotes, joined by commas (the Access Manager's file
/// format).
pub open spec fn quoted_list(items: Seq<Seq<char>>) -> Seq<char> {
    join_with(items.map_values(|s: Seq<char>| seq!['"'] + s + seq!['"']), ',')
}

/// The text of an Access Manager list file.
pub fn list_file_content(items: &Vec<String>) -> (r: String)
    ensures
        r@ == quoted_list(views(items@)),
{
    let mut quoted: Vec<String> = Vec::new();
    let mut i: usize = 0;
    while i < items.len()
        invariant
            i <= items@.len(),
            views(quoted@) == views(items@).take(i as int).map_values(
                |s: Seq<char>| seq!['"'] + s + seq!['"'],
            ),
        decreases items.len() - i,
    {
        let mut q = String::new();
        push_char(&mut q, '"');
        push_str(&mut q, items[i].as_str());
        push_char(&mut q, '"');
        let ghost qv = q@;
        let ghost before = quoted@;
        let ghost item = items@[i as int]@;
        assert(qv =~= seq!['"'] + item + seq!['"']);
        quoted.push(q);
        i = i + 1;
        proof {
            assert(views(quoted@) =~= views(before).push(qv));
            assert(views(items@).take(i as int) =~= views(items@).take(i - 1).push(item));
            assert(views(quoted@) =~= views(items@).take(i as int).map_values(
                |s: Seq<char>| seq!['"'] + s + seq!['"'],
            ));
        }
    }
    assert(views(items@).take(items@.len() as int) == views(items@));
    join_strings(&quoted, ',')
}

/// The uploads a System write makes: the remote-IP list, then the NDI
/// group list, each only when it is not empty.
pub open spec fn system_uploads_spec(s: SystemSettingsView) -> Seq<(Seq<char>, Seq<char>, Seq<char>)> {
    (if s.remote_ip_list.len() > 0 {
        seq![("/settings"@, "update_configfile"@, quoted_list(s.remote_ip_list))]
    } else {
        Seq::empty()
    }) + (if s.ndi_group_list.len() > 0 {
        seq![("/settings"@, "update_groupfile"@, quoted_list(s.ndi_group_list))]
    } else {
        Seq::empty()
    })
}

/// A System write uploads the remote-IP list under the `update_configfile`
/// file field and the NDI group list under `update_groupfile`, both to
/// `/settings`, the remote-IP list first, each only when it is not empty.
pub proof fn lemma_system_upload_fields(s: SystemSettingsView)
    ensures
        s.remote_ip_list.len() > 0 && s.ndi_group_list.len() > 0 ==> system_uploads_spec(s) == seq![
            ("/settings"@, "update_configfile"@, quoted_list(s.remote_ip_list)),
            ("/settings"@, "update_groupfile"@, quoted_list(s.ndi_group_list)),
        ],
        s.remote_ip_list.len() > 0 && s.ndi_group_list.len() == 0 ==> system_uploads_spec(s)
            == seq![("/settings"@, "update_configfile"@, quoted_list(s.remote_ip_list))],
        s.remote_ip_list.len() == 0 && s.ndi_group_list.len() > 0 ==> system_uploads_spec(s)
            == seq![("/settings"@, "update_groupfile"@, quoted_list(s.ndi_group_list))],
        s.remote_ip_list.len() == 0 && s.ndi_group_list.len() == 0 ==> system_uploads_spec(s).len()
            == 0,
{
    let u = system_uploads_spec(s);
    if s.remote_ip_list.len() > 0 && s.ndi_group_list.len() > 0 {
        assert(u =~= seq![
            ("/settings"@, "update_configfile"@, quoted_list(s.remote_ip_list)),
            ("/settings"@, "update_groupfile"@, quoted_list(s.ndi_group_list)),
        ]);
    } else if s.remote_ip_list.len() > 0 {
        assert(u =~= seq![("/settings"@, "update_configfile"@, quoted_list(s.remote_ip_list))]);
    } else if s.ndi_group_list.len() > 0 {
        assert(u =~= seq![("/settings"@, "update_groupfile"@, quoted_list(s.ndi_group_list))]);
    }
}

pub open spec fn upload_views(v: Seq<ListUpload>) -> Seq<(Seq<char>, Seq<char>, Seq<char>)> {
    v.map_values(|u: ListUpload| u@)
}

/// The uploads that write `s` to a device.
pub fn system_uploads(s: &SystemSettings) -> (r: Vec<ListUpload>)
    ensures
        upload_views(r@) == system_uploads_spec(s@),
{
    let mut r: Vec<ListUpload> = Vec::new();
    if s.remote_ip_list.len() > 0 {
        r.push(
            ListUpload {
                path: owned("/settings"),
                field: owned("update_configfile"),
                content: list_file_content(&s.remote_ip_list),
            },
        );
    }
    let ghost first = r@;
    if s.ndi_group_list.len() > 0 {
        r.push(
            ListUpload {
                path: owned("/settings"),
                field: owned("update_groupfile"),
                content: list_file_content(&s.ndi_group_list),
            },
        );
    }
    assert(upload_views(r@) =~= system_uploads_spec(s@));
    r
}

} // verus!
