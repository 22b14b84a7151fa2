//! What the web API does with the registry and the settings it is handed:
//! adding, editing and removing devices, the state snapshot the UI shows,
//! which discovered hosts are new, and how a batch edit is put together.
//! Talking to the devices themselves is the caller's.

use vstd::prelude::*;

use crate::app_settings::AppSettings;
use crate::device::{
    is_v4_uuid, opt_view, redacted_view, uuid_parse, Device, DeviceCredentials, DeviceId,
    DeviceView,
};
use crate::discovery::{DiscoveredHost, DiscoveredHostView};
use crate::error::{parse_device_id, ApiError};
use crate::field_map::FieldMap;
use crate::registry::{has_tag, is_group, lists_exactly, sorted_by_name, Registry};
use crate::settings::{NetworkSettings, NetworkSettingsView};
use crate::text::{chars_eq, chars_of, owned, push_str, str_eq, views};

verus! {

/// The body of a request that adds or edits a device.
#[derive(Clone, Debug, Default)]
pub struct DeviceRequest {
    pub name: String,
    pub host: String,
    pub tags: Vec<String>,
    pub password: Option<String>,
    pub discovered: bool,
}

/// The device a request describes, under id `id`.
pub open spec fn requested_device(id: u128, r: DeviceRequest) -> DeviceView {
    DeviceView {
        id,
        name: r.name@,
        host: r.host@,
        tags: views(r.tags@),
        password: opt_view(r.password),
        discovered: r.discovered,
    }
}

/// Adds the device a request describes under a fresh id; answers with the
/// new device, password masked.
pub fn create_device(registry: &mut Registry, body: DeviceRequest) -> (d: Device)
    ensures
        is_v4_uuid(d.id.0),
        final(registry)@ == old(registry)@.insert(d.id.0, requested_device(d.id.0, body)),
        d@ == redacted_view(requested_device(d.id.0, body)),
{
    let device = Device {
        id: DeviceId::new(),
        name: body.name,
        host: body.host,
        tags: body.tags,
        credentials: DeviceCredentials { password: body.password },
        discovered: body.discovered,
    };
    registry.upsert(device.duplicate());
    device.redacted()
}

/// A device after an edit: name, host and tags replaced; the password
/// replaced only by a non-empty one; the rest kept.
pub open spec fn edited_device(d: DeviceView, r: DeviceRequest) -> DeviceView {
    DeviceView {
        name: r.name@,
        host: r.host@,
        tags: views(r.tags@),
        password: match r.password {
            Some(p) => if p@.len() > 0 {
                Some(p@)
            } else {
                d.password
            },
            None => d.password,
        },
        ..d
    }
}

/// Looks up the device a path names: a malformed id is a 400, an unknown
/// one a 404.
pub fn find_device(registry: &Registry, raw_id: &str) -> (r: Result<Device, ApiError>)
    ensures
        match uuid_parse(raw_id@) {
            None => r matches Err(ApiError::BadRequest(m)) && m@ == "invalid device id: "@
                + raw_id@,
            Some(x) => if registry@.contains_key(x) {
                r matches Ok(d) && d@ == registry@[x] && d.id.0 == x
            } else {
                r == Err::<Device, ApiError>(ApiError::NotFound)
            },
        },
{
    let id = parse_device_id(raw_id)?;
    match registry.get(&id) {
        Some(d) => Ok(d),
        None => Err(ApiError::NotFound),
    }
}

/// Edits the device a path names; answers with it, password masked.
pub fn update_device(registry: &mut Registry, raw_id: &str, body: DeviceRequest) -> (r: Result<
    Device,
    ApiError,
>)
    ensures
        match uuid_parse(raw_id@) {
            None => r matches Err(ApiError::BadRequest(m)) && m@ == "invalid device id: "@
                + raw_id@,
            Some(x) => if old(registry)@.contains_key(x) {
                r matches Ok(d) && d@ == redacted_view(edited_device(old(registry)@[x], body))
            } else {
                r == Err::<Device, ApiError>(ApiError::NotFound)
            },
        },
        match r {
            Ok(_) => final(registry)@ == old(registry)@.insert(
                uuid_parse(raw_id@)->0,
                edited_device(old(registry)@[uuid_parse(raw_id@)->0], body),
            ),
            Err(_) => final(registry)@ == old(registry)@,
        },
{
    let mut device = find_device(registry, raw_id)?;
    device.name = body.name;
    device.host = body.host;
    device.tags = body.tags;
    if let Some(password) = body.password {
        if !password.as_str().is_empty() {
            device.credentials.password = Some(password);
        }
    }
    registry.upsert(device.duplicate());
    Ok(device.redacted())
}

/// Removes the device a path names.
pub fn delete_device(registry: &mut Registry, raw_id: &str) -> (r: Result<(), ApiError>)
    ensures
        match uuid_parse(raw_id@) {
            None => r matches Err(ApiError::BadRequest(m)) && m@ == "invalid device id: "@
                + raw_id@,
            Some(x) => if old(registry)@.contains_key(x) {
                r is Ok && final(registry)@ == old(registry)@.remove(x)
            } else {
                r == Err::<(), ApiError>(ApiError::NotFound)
            },
        },
        r is Err ==> final(registry)@ == old(registry)@,
{
    let id = parse_device_id(raw_id)?;
    match registry.remove(&id) {
        Some(_) => Ok(()),
        None => Err(ApiError::NotFound),
    }
}

/// What the UI is sent: every device (passwords masked) and the groups.
pub struct StateResponse {
    pub devices: Vec<Device>,
    pub groups: FieldMap<Vec<DeviceId>>,
}

/// Every device of `m` is listed once, ordered by name, password masked.
pub open spec fn lists_redacted(list: Seq<Device>, m: Map<u128, DeviceView>) -> bool {
    &&& list.len() == m.dom().len()
    &&& forall|i: int, j: int|
        0 <= i < list.len() && 0 <= j < list.len() && i != j ==> #[trigger] list[i].id.0
            != #[trigger] list[j].id.0
    &&& forall|i: int|
        0 <= i < list.len() ==> m.contains_key(#[trigger] list[i].id.0) && list[i]@
            == redacted_view(m[list[i].id.0])
    &&& forall|x: u128| #[trigger]
        m.contains_key(x) ==> exists|i: int| 0 <= i < list.len() && (#[trigger] list[i]).id.0 == x
    &&& sorted_by_name(list)
}

/// The state snapshot: the registry's devices by name, passwords masked,
/// and its groups.
pub fn build_state_response(registry: &Registry) -> (s: StateResponse)
    ensures
        lists_redacted(s.devices@, registry@),
        forall|t: Seq<char>| #[trigger] s.groups@.contains_key(t) <==> has_tag(registry@, t),
        forall|t: Seq<char>| #[trigger]
            s.groups@.contains_key(t) ==> is_group(registry@, t, s.groups@[t]),
{
    let list = registry.list();
    let mut devices: Vec<Device> = Vec::new();
    let mut i: usize = 0;
    while i < list.len()
        invariant
            i <= list@.len(),
            devices@.len() == i,
            forall|k: int| 0 <= k < i ==> (#[trigger] devices@[k])@ == redacted_view(list@[k]@),
        decreases list.len() - i,
    {
        devices.push(list[i].duplicate().redacted());
        i = i + 1;
    }
    proof {
        assert forall|a: int, b: int|
            0 <= a < devices@.len() && 0 <= b < devices@.len() && a != b implies #[trigger] devices@[a].id.0
            != #[trigger] devices@[b].id.0 by {
            assert(devices@[a]@ == redacted_view(list@[a]@));
            assert(devices@[b]@ == redacted_view(list@[b]@));
            assert(list@[a].id.0 != list@[b].id.0);
        }
        assert forall|a: int| 0 <= a < devices@.len() implies registry@.contains_key(
            #[trigger] devices@[a].id.0,
        ) && devices@[a]@ == redacted_view(registry@[devices@[a].id.0]) by {
            assert(devices@[a]@ == redacted_view(list@[a]@));
            assert(registry@.contains_key(list@[a].id.0));
        }
        assert forall|x: u128| #[trigger] registry@.contains_key(x) implies exists|a: int|
            0 <= a < devices@.len() && (#[trigger] devices@[a]).id.0 == x by {
            let a = choose|a: int| 0 <= a < list@.len() && (#[trigger] list@[a]).id.0 == x;
            assert(devices@[a]@ == redacted_view(list@[a]@));
        }
        assert forall|a: int, b: int| 0 <= a < b < devices@.len() implies crate::text::lex_le(
            devices@[a].name@,
            devices@[b].name@,
        ) by {
            assert(devices@[a]@ == redacted_view(list@[a]@));
            assert(devices@[b]@ == redacted_view(list@[b]@));
        }
    }
    StateResponse { devices, groups: registry.groups() }
}

/// Some registered device is reached at `host`.
pub open spec fn is_known_host(m: Map<u128, DeviceView>, host: Seq<char>) -> bool {
    exists|x: u128| #[trigger] m.contains_key(x) && m[x].host == host
}

/// The entries of a list of hosts, as values.
pub open spec fn host_views(s: Seq<DiscoveredHost>) -> Seq<DiscoveredHostView> {
    s.map_values(|h: DiscoveredHost| h@)
}

/// The hosts of `found` that no registered device is reached at, in order.
pub open spec fn unadded(found: Seq<DiscoveredHostView>, m: Map<u128, DeviceView>) -> Seq<
    DiscoveredHostView,
> {
    found.filter(|h: DiscoveredHostView| !is_known_host(m, h.host))
}

fn host_listed(list: &Vec<Device>, host: &str) -> (r: bool)
    ensures
        r == exists|i: int| 0 <= i < list@.len() && (#[trigger] list@[i]).host@ == host@,
{
    let h = chars_of(host);
    let mut i: usize = 0;
    while i < list.len()
        invariant
            i <= list@.len(),
            h@ == host@,
            forall|k: int| 0 <= k < i ==> (#[trigger] list@[k]).host@ != host@,
        decreases list.len() - i,
    {
        if chars_eq(&chars_of(list[i].host.as_str()), &h) {
            return true;
        }
        i = i + 1;
    }
    false
}

/// What a discovery scan reports: the hosts found that are not registered
/// yet, in the order found.
pub fn unadded_hosts(found: Vec<DiscoveredHost>, registry: &Registry) -> (r: Vec<DiscoveredHost>)
    ensures
        host_views(r@) == unadded(host_views(found@), registry@),
{
    let list = registry.list();
    let mut r: Vec<DiscoveredHost> = Vec::new();
    let mut i: usize = 0;
    while i < found.len()
        invariant
            i <= found@.len(),
            lists_exactly(list@, registry@),
            host_views(r@) == unadded(host_views(found@.take(i as int)), registry@),
        decreases found.len() - i,
    {
        let listed = host_listed(&list, found[i].host.as_str());
        proof {
            let hv = found@[i as int].host@;
            if listed {
                let k = choose|k: int| 0 <= k < list@.len() && (#[trigger] list@[k]).host@ == hv;
                assert(registry@.contains_key(list@[k].id.0));
                assert(registry@[list@[k].id.0].host == hv);
                assert(is_known_host(registry@, hv));
            } else {
                if is_known_host(registry@, hv) {
                    let x = choose|x: u128| #[trigger] registry@.contains_key(x) && registry@[x].host == hv;
                    let k = choose|k: int| 0 <= k < list@.len() && (#[trigger] list@[k]).id.0 == x;
                    assert(list@[k]@ == registry@[x]);
                    assert(list@[k].host@ == hv);
                }
            }
            reveal(Seq::filter);
            let t = host_views(found@.take(i + 1));
            assert(t.drop_last() =~= host_views(found@.take(i as int)));
            assert(t.last() == found@[i as int]@);
        }
        let ghost before = r@;
        if !listed {
            r.push(found[i].duplicate());
            assert(host_views(r@) =~= host_views(before).push(found@[i as int]@));
        }
        i = i + 1;
    }
    assert(found@.take(found@.len() as int) =~= found@);
    r
}

/// The discovery server to push out, or a 400 where none is configured.
pub fn discovery_server_to_push(settings: &AppSettings) -> (r: Result<String, ApiError>)
    ensures
        match settings@ {
            Some(s) => r matches Ok(v) && v@ == s,
            None => r matches Err(ApiError::BadRequest(m)) && m@
                == "no discovery server configured"@,
        },
{
    match &settings.discovery_server {
        Some(s) => Ok(s.clone()),
        None => Err(ApiError::BadRequest(owned("no discovery server configured"))),
    }
}

/// Network settings pointed at one discovery server, everything else kept.
pub open spec fn pointed_at(n: NetworkSettingsView, server: Seq<char>) -> NetworkSettingsView {
    NetworkSettingsView {
        ndi_discovery_server_enabled: true,
        ndi_discovery_server_ips: seq![server],
        ..n
    }
}

/// Points a device's Network settings at `server`: the discovery server is
/// switched on and is the only one listed.
pub fn with_discovery_server(settings: NetworkSettings, server: &str) -> (r: NetworkSettings)
    ensures
        r@ == pointed_at(settings@, server@),
{
    let mut r = settings;
    r.ndi_discovery_server_enabled = true;
    r.ndi_discovery_server_ips = vec![owned(server)];
    assert(views(r.ndi_discovery_server_ips@) =~= seq![server@]);
    r
}

/// How one device fared in a batch operation.
#[derive(Clone, Debug)]
pub struct BatchOutcome {
    pub device_id: DeviceId,
    pub device_name: String,
    pub ok: bool,
    pub error: Option<String>,
}

/// The outcome for `device`: ok, or failed with the error's message.
pub fn batch_outcome(device: &Device, result: Result<(), String>) -> (o: BatchOutcome)
    ensures
        o.device_id == device.id,
        o.device_name@ == device.name@,
        o.ok == result is Ok,
        match result {
            Ok(()) => o.error is None,
            Err(e) => o.error == Some(e),
        },
{
    let ok = result.is_ok();
    BatchOutcome {
        device_id: device.id,
        device_name: device.name.clone(),
        ok,
        error: match result {
            Ok(()) => None,
            Err(e) => Some(e),
        },
    }
}

/// The ids of the devices tagged `tag`, in ascending order of id; none for
/// an unknown tag.
pub fn group_members(registry: &Registry, tag: &str) -> (ids: Vec<DeviceId>)
    ensures
        has_tag(registry@, tag@) ==> is_group(registry@, tag@, ids@),
        !has_tag(registry@, tag@) ==> ids@.len() == 0,
{
    let groups = registry.groups();
    match groups.get(tag) {
        Some(ids) => ids.clone(),
        None => Vec::new(),
    }
}

/// A settings tab a batch edit can target.
#[derive(Clone, Copy, Debug, PartialEq, Eq)]
pub enum SettingsTab {
    Network,
    Decode,
    System,
}

/// The tab a path names: `network`, `decode` or `system`; any other name is
/// refused with `unknown settings tab: <name>`.
pub fn parse_settings_tab(tab: &str) -> (r: Result<SettingsTab, String>)
    ensures
        tab@ == "network"@ ==> r == Ok::<SettingsTab, String>(SettingsTab::Network),
        tab@ == "decode"@ ==> r == Ok::<SettingsTab, String>(SettingsTab::Decode),
        tab@ == "system"@ ==> r == Ok::<SettingsTab, String>(SettingsTab::System),
        tab@ != "network"@ && tab@ != "decode"@ && tab@ != "system"@ ==> (r matches Err(m) && m@
            == "unknown settings tab: "@ + tab@),
{
    proof {
        reveal_strlit("network");
        reveal_strlit("decode");
        reveal_strlit("system");
        assert("network"@[0] != "decode"@[0] && "network"@[0] != "system"@[0] && "decode"@[0]
            != "system"@[0]);
    }
    if str_eq(tab, "network") {
        Ok(SettingsTab::Network)
    } else if str_eq(tab, "decode") {
        Ok(SettingsTab::Decode)
    } else if str_eq(tab, "system") {
        Ok(SettingsTab::System)
    } else {
        let mut m = owned("unknown settings tab: ");
        push_str(&mut m, tab);
        Err(m)
    }
}

/// A batch patch applied to one device's current settings, both taken as
/// JSON objects (field name to the field's JSON text): every field the
/// patch names takes the patch's value, every other field keeps the
/// device's own. A patch that is not an object changes nothing.
pub fn merge_patch(current: &mut FieldMap<String>, patch: Option<FieldMap<String>>)
    ensures
        match patch {
            Some(p) => final(current)@ == old(current)@.union_prefer_right(p@),
            None => final(current)@ == old(current)@,
        },
{
    if let Some(p) = patch {
        current.merge(p);
    }
}

/// A batch edit never touches a field its patch does not name, and sets
/// every field it does.
pub proof fn lemma_patch_keeps_unnamed_fields(
    current: Map<Seq<char>, Seq<char>>,
    patch: Map<Seq<char>, Seq<char>>,
    field: Seq<char>,
)
    ensures
        !patch.contains_key(field) ==> (current.union_prefer_right(patch).contains_key(field)
            <==> current.contains_key(field)),
        !patch.contains_key(field) && current.contains_key(field) ==> current.union_prefer_right(
            patch,
        )[field] == current[field],
        patch.contains_key(field) ==> current.union_prefer_right(patch)[field] == patch[field],
{
}

/// Whether the state snapshot differs from the one last sent (and so is
/// sent again).
pub fn snapshot_changed(last_sent: &Option<String>, snapshot: &str) -> (r: bool)
    ensures
        r == !(last_sent matches Some(l) && l@ == snapshot@),
{
    match last_sent {
        Some(l) => !str_eq(l.as_str(), snapshot),
        None => true,
    }
}


/// The last snapshot sent, if any.
pub open spec fn last_sent(sent: Seq<Seq<char>>) -> Option<Seq<char>> {
    if sent.len() == 0 {
        None
    } else {
        Some(sent.last())
    }
}

/// What the live-push loop sends for successive snapshots `s`, deciding
/// each poll as `snapshot_changed` does: the first snapshot, then each one
/// that differs from the last one sent.
pub open spec fn pushed(s: Seq<Seq<char>>) -> Seq<Seq<char>>
    decreases s.len(),
{
    if s.len() == 0 {
        Seq::empty()
    } else {
        let p = pushed(s.drop_last());
        if last_sent(p) == Some(s.last()) {
            p
        } else {
            p.push(s.last())
        }
    }
}

/// One more poll: the snapshot is sent exactly when `snapshot_changed`
/// says so for the last one sent.
pub proof fn lemma_push_step(s: Seq<Seq<char>>, x: Seq<char>)
    ensures
        pushed(s.push(x)) == if !(last_sent(pushed(s)) matches Some(l) && l == x) {
            pushed(s).push(x)
        } else {
            pushed(s)
        },
{
    assert(s.push(x).drop_last() =~= s);
}

/// The live push never sends the same snapshot twice in a row, sends the
/// first snapshot, and sends nothing more while the state stays the same.
pub proof fn lemma_pushes_differ(s: Seq<Seq<char>>)
    ensures
        forall|i: int| 0 <= i < pushed(s).len() - 1 ==> #[trigger] pushed(s)[i] != pushed(s)[i + 1],
        s.len() > 0 ==> pushed(s).len() > 0 && pushed(s)[0] == s[0],
        s.len() > 0 && (forall|i: int| 0 <= i < s.len() ==> #[trigger] s[i] == s[0]) ==> pushed(s)
            == seq![s[0]],
    decreases s.len(),
{
    if s.len() > 0 {
        let t = s.drop_last();
        lemma_pushes_differ(t);
        if t.len() > 0 {
            assert(t[0] == s[0]);
        }
        if s.len() > 0 && (forall|i: int| 0 <= i < s.len() ==> #[trigger] s[i] == s[0]) {
            if t.len() > 0 {
                assert forall|i: int| 0 <= i < t.len() implies #[trigger] t[i] == t[0] by {
                    assert(t[i] == s[i]);
                }
                assert(s.last() == s[s.len() - 1]);
            } else {
                assert(pushed(t) =~= Seq::<Seq<char>>::empty());
                assert(pushed(s) =~= seq![s[0]]);
            }
        }
    }
}

/// The live-push loop's memory: the snapshots polled so far (ghost) and
/// the last one sent.
pub struct PushState {
    last: Option<String>,
    seen: Ghost<Seq<Seq<char>>>,
}

impl View for PushState {
    type V = Seq<Seq<char>>;

    /// The snapshots polled so far.
    closed spec fn view(&self) -> Seq<Seq<char>> {
        self.seen@
    }
}

impl PushState {
    #[verifier::type_invariant]
    closed spec fn inv(&self) -> bool {
        crate::device::opt_view(self.last) == last_sent(pushed(self.seen@))
    }

    /// Nothing polled, nothing sent.
    pub fn new() -> (p: Self)
        ensures
            p@ == Seq::<Seq<char>>::empty(),
    {
        PushState { last: None, seen: Ghost(Seq::empty()) }
    }

    /// One poll of the state: gives the snapshot to send when it differs
    /// from the last one sent, and nothing otherwise. Over a run of polls,
    /// what is sent is `pushed` of the snapshots polled.
    pub fn poll(&mut self, snapshot: String) -> (send: Option<String>)
        ensures
            final(self)@ == old(self)@.push(snapshot@),
            send is Some <==> last_sent(pushed(old(self)@)) != Some(snapshot@),
            send matches Some(s) ==> s@ == snapshot@,
            pushed(final(self)@) == match send {
                Some(s) => pushed(old(self)@).push(s@),
                None => pushed(old(self)@),
            },
    {
        proof {
            use_type_invariant(&*self);
            lemma_push_step(self.seen@, snapshot@);
        }
        let changed = snapshot_changed(&self.last, snapshot.as_str());
        let seen = Ghost(self.seen@.push(snapshot@));
        if changed {
            let last = Some(snapshot.clone());
            *self = PushState { last, seen };
            Some(snapshot)
        } else {
            let last = crate::text::copy_opt(&self.last);
            *self = PushState { last, seen };
            None
        }
    }
}


} // verus!
