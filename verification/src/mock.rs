//! A simulated BirdDog Play, so flock can be built, demoed and tested with
//! no hardware on the bench, and a provider that hands out one simulated
//! device per device id, made the first time that id is asked for.

use vstd::prelude::*;

use std::collections::HashMap;

use crate::birdui::ascii_lower;
use crate::device::{Device, DeviceCredentials, DeviceId, DeviceView, is_v4_uuid};
use crate::settings::{
    ConfigMethod, DecodeSettings, DecodeSettingsView, DeviceStatus, DeviceStatusView,
    NdiTransmitMethod, NetworkSettings, NetworkSettingsView, SystemSettings, SystemSettingsView,
};
use crate::text::{owned, push_char, views};

verus! {

broadcast use vstd::std_specs::hash::group_hash_axioms;

/// What `str::to_lowercase` gives for a text (Unicode lower-casing).
pub uninterp spec fn unicode_lowercase(s: Seq<char>) -> Seq<char>;

/// Every character is ASCII.
pub open spec fn all_ascii(s: Seq<char>) -> bool {
    forall|i: int| 0 <= i < s.len() ==> (#[trigger] s[i] as u32) < 128
}

/// `str::to_lowercase` (std). Claims the named result, and that ASCII-only
/// text is lower-cased letter by letter, `A`-`Z` to `a`-`z`.
#[verifier::external_body]
fn to_lowercase(s: &str) -> (r: String)
    ensures
        r@ == unicode_lowercase(s@),
        all_ascii(s@) ==> r@ == s@.map_values(|c: char| ascii_lower(c)),
{
    s.to_lowercase()
}

/// Spaces turned into dashes (`str::replace(' ', "-")`).
pub open spec fn dashed(s: Seq<char>) -> Seq<char> {
    s.map_values(|c: char| if c == ' ' { '-' } else { c })
}

fn dashed_exec(s: &str) -> (r: String)
    ensures
        r@ == dashed(s@),
{
    let mut r = String::new();
    for c in it: s.chars()
        invariant
            it.seq() == s@,
            r@ == dashed(s@).take(it.index() as int),
    {
        let d = if c == ' ' {
            '-'
        } else {
            c
        };
        proof {
            assert(dashed(s@)[it.index() as int] == d);
            assert(dashed(s@).take(it.index() + 1) == dashed(s@).take(it.index() as int).push(d));
        }
        push_char(&mut r, d);
    }
    assert(dashed(s@).take(s@.len() as int) == dashed(s@));
    r
}

/// The NDI stream name a simulated device takes from its display name:
/// spaces become dashes, then the text is lower-cased.
pub open spec fn stream_name(name: Seq<char>) -> Seq<char> {
    unicode_lowercase(dashed(name))
}

pub open spec fn initial_status(stream: Seq<char>) -> DeviceStatusView {
    DeviceStatusView {
        online: true,
        ndi_stream_name: stream,
        video_format: "1080p60"@,
        audio_status: "Mute"@,
        video_resolution: "1920x1080"@,
        video_frame_rate: "60"@,
        average_bitrate_kbps: 134000,
        firmware_version: "1.0.2"@,
        system_name: stream,
    }
}

pub open spec fn initial_network(stream: Seq<char>) -> NetworkSettingsView {
    NetworkSettingsView {
        config_method: ConfigMethod::Dhcp,
        ip_address: "192.168.100.100"@,
        subnet_mask: "255.255.255.0"@,
        gateway_address: "192.168.100.1"@,
        dhcp_timeout_secs: 20,
        fallback_ip_address: "192.168.100.100"@,
        fallback_subnet_mask: "255.255.255.0"@,
        birddog_name: stream,
        ndi_transmit_method: NdiTransmitMethod::Tcp,
        ndi_receive_method: NdiTransmitMethod::Tcp,
        multicast_net_prefix: "239.255.0.0"@,
        multicast_net_mask: "255.255.0.0"@,
        multicast_ttl: 1,
        ndi_discovery_server_enabled: false,
        ndi_discovery_server_ips: Seq::empty(),
    }
}

pub open spec fn initial_decode() -> DecodeSettingsView {
    DecodeSettingsView {
        source_type: "NDI"@,
        selected_source: None,
        available_sources: Seq::empty(),
        failover_source: None,
        srt_connection_type: "caller"@,
        srt_stream_name: None,
        srt_ip_address: None,
        srt_port: None,
        srt_latency_ms: 120,
        srt_encryption_enabled: false,
        srt_encryption_key_length: None,
        srt_passphrase: None,
        srt_stream_id: None,
        srt_available_sources: Seq::empty(),
        screensaver_mode: "BlackSS"@,
        color_space: "YUV"@,
        ndi_audio_enabled: false,
        tally_mode: "TallyOff"@,
    }
}

pub open spec fn initial_system() -> SystemSettingsView {
    SystemSettingsView {
        firmware_version: "1.0.2"@,
        remote_ip_list: Seq::empty(),
        ndi_group_list: Seq::empty(),
    }
}

/// A simulated device's state, one value per settings tab.
pub struct MockDeviceView {
    pub status: DeviceStatusView,
    pub network: NetworkSettingsView,
    pub decode: DecodeSettingsView,
    pub system: SystemSettingsView,
}

/// The state a simulated device named `name` starts in.
pub open spec fn initial_state(name: Seq<char>) -> MockDeviceView {
    MockDeviceView {
        status: initial_status(stream_name(name)),
        network: initial_network(stream_name(name)),
        decode: initial_decode(),
        system: initial_system(),
    }
}

/// The state with the Network tab replaced.
pub open spec fn with_network(s: MockDeviceView, n: NetworkSettingsView) -> MockDeviceView {
    MockDeviceView { network: n, ..s }
}

/// The state with the Decode tab replaced.
pub open spec fn with_decode(s: MockDeviceView, d: DecodeSettingsView) -> MockDeviceView {
    MockDeviceView { decode: d, ..s }
}

/// The state with the System tab replaced.
pub open spec fn with_system(s: MockDeviceView, y: SystemSettingsView) -> MockDeviceView {
    MockDeviceView { system: y, ..s }
}

/// A simulated BirdDog Play: it keeps whatever settings it is given.
pub struct MockDevice {
    status: DeviceStatus,
    network: NetworkSettings,
    decode: DecodeSettings,
    system: SystemSettings,
}

impl View for MockDevice {
    type V = MockDeviceView;

    closed spec fn view(&self) -> MockDeviceView {
        MockDeviceView {
            status: self.status@,
            network: self.network@,
            decode: self.decode@,
            system: self.system@,
        }
    }
}

impl MockDevice {
    /// A simulated device named `name`, online, on DHCP, decoding nothing.
    pub fn new(name: &str) -> (d: Self)
        ensures
            d@ == initial_state(name@),
            all_ascii(name@) ==> stream_name(name@) == dashed(name@).map_values(
                |c: char| ascii_lower(c),
            ),
    {
        let dashes = dashed_exec(name);
        proof {
            if all_ascii(name@) {
                assert forall|i: int| 0 <= i < dashes@.len() implies (#[trigger] dashes@[i] as u32)
                    < 128 by {
                    assert((name@[i] as u32) < 128);
                }
            }
        }
        let stream = to_lowercase(dashes.as_str());
        let status = DeviceStatus {
            online: true,
            ndi_stream_name: stream.clone(),
            video_format: owned("1080p60"),
            audio_status: owned("Mute"),
            video_resolution: owned("1920x1080"),
            video_frame_rate: owned("60"),
            average_bitrate_kbps: 134000,
            firmware_version: owned("1.0.2"),
            system_name: stream.clone(),
        };
        let network = NetworkSettings {
            config_method: ConfigMethod::Dhcp,
            ip_address: owned("192.168.100.100"),
            subnet_mask: owned("255.255.255.0"),
            gateway_address: owned("192.168.100.1"),
            dhcp_timeout_secs: 20,
            fallback_ip_address: owned("192.168.100.100"),
            fallback_subnet_mask: owned("255.255.255.0"),
            birddog_name: stream.clone(),
            ndi_transmit_method: NdiTransmitMethod::Tcp,
            ndi_receive_method: NdiTransmitMethod::Tcp,
            multicast_net_prefix: owned("239.255.0.0"),
            multicast_net_mask: owned("255.255.0.0"),
            multicast_ttl: 1,
            ndi_discovery_server_enabled: false,
            ndi_discovery_server_ips: Vec::new(),
        };
        let decode = DecodeSettings {
            source_type: owned("NDI"),
            selected_source: None,
            available_sources: Vec::new(),
            failover_source: None,
            srt_connection_type: owned("caller"),
            srt_stream_name: None,
            srt_ip_address: None,
            srt_port: None,
            srt_latency_ms: 120,
            srt_encryption_enabled: false,
            srt_encryption_key_length: None,
            srt_passphrase: None,
            srt_stream_id: None,
            srt_available_sources: Vec::new(),
            screensaver_mode: owned("BlackSS"),
            color_space: owned("YUV"),
            ndi_audio_enabled: false,
            tally_mode: owned("TallyOff"),
        };
        let system = SystemSettings {
            firmware_version: owned("1.0.2"),
            remote_ip_list: Vec::new(),
            ndi_group_list: Vec::new(),
        };
        let d = MockDevice { status, network, decode, system };
        assert(views(d.network.ndi_discovery_server_ips@) =~= Seq::empty());
        assert(views(d.decode.available_sources@) =~= Seq::empty());
        assert(views(d.decode.srt_available_sources@) =~= Seq::empty());
        assert(views(d.system.remote_ip_list@) =~= Seq::empty());
        assert(views(d.system.ndi_group_list@) =~= Seq::empty());
        d
    }

    /// The Dashboard's status.
    pub fn status(&self) -> (s: DeviceStatus)
        ensures
            s@ == self@.status,
    {
        self.status.duplicate()
    }

    pub fn network_settings(&self) -> (s: NetworkSettings)
        ensures
            s@ == self@.network,
    {
        self.network.duplicate()
    }

    pub fn set_network_settings(&mut self, settings: NetworkSettings)
        ensures
            final(self)@ == with_network(old(self)@, settings@),
    {
        self.network = settings;
    }

    pub fn decode_settings(&self) -> (s: DecodeSettings)
        ensures
            s@ == self@.decode,
    {
        self.decode.duplicate()
    }

    pub fn set_decode_settings(&mut self, settings: DecodeSettings)
        ensures
            final(self)@ == with_decode(old(self)@, settings@),
    {
        self.decode = settings;
    }

    pub fn system_settings(&self) -> (s: SystemSettings)
        ensures
            s@ == self@.system,
    {
        self.system.duplicate()
    }

    pub fn set_system_settings(&mut self, settings: SystemSettings)
        ensures
            final(self)@ == with_system(old(self)@, settings@),
    {
        self.system = settings;
    }
}

/// The simulated devices once `device` has been asked for: a device seen
/// before keeps its state; a new one starts from its name.
pub open spec fn with_client(m: Map<u128, MockDeviceView>, device: DeviceView) -> Map<
    u128,
    MockDeviceView,
> {
    if m.contains_key(device.id) {
        m
    } else {
        m.insert(device.id, initial_state(device.name))
    }
}

/// Hands out one simulated device per device id, made the first time the id
/// is asked for, so devices added at run time get a working backend.
pub struct MockClientProvider {
    devices: HashMap<u128, MockDevice>,
}

impl View for MockClientProvider {
    type V = Map<u128, MockDeviceView>;

    closed spec fn view(&self) -> Map<u128, MockDeviceView> {
        self.devices@.map_values(|d: MockDevice| d@)
    }
}

impl MockClientProvider {
    /// No simulated devices yet.
    pub fn new() -> (p: Self)
        ensures
            p@ == Map::<u128, MockDeviceView>::empty(),
    {
        let p = MockClientProvider { devices: HashMap::new() };
        assert(p@ =~= Map::<u128, MockDeviceView>::empty());
        p
    }

    /// Makes sure `device` has a simulated counterpart.
    pub fn client_for(&mut self, device: &Device)
        ensures
            final(self)@ == with_client(old(self)@, device@),
    {
        if !self.devices.contains_key(&device.id.0) {
            let d = MockDevice::new(device.name.as_str());
            self.devices.insert(device.id.0, d);
            assert(self@ =~= old(self)@.insert(device.id.0, initial_state(device.name@)));
        }
    }

    pub fn status(&self, id: DeviceId) -> (r: Option<DeviceStatus>)
        ensures
            match r {
                Some(s) => self@.contains_key(id.0) && s@ == self@[id.0].status,
                None => !self@.contains_key(id.0),
            },
    {
        match self.devices.get(&id.0) {
            Some(d) => Some(d.status()),
            None => None,
        }
    }

    pub fn network_settings(&self, id: DeviceId) -> (r: Option<NetworkSettings>)
        ensures
            match r {
                Some(s) => self@.contains_key(id.0) && s@ == self@[id.0].network,
                None => !self@.contains_key(id.0),
            },
    {
        match self.devices.get(&id.0) {
            Some(d) => Some(d.network_settings()),
            None => None,
        }
    }

    pub fn decode_settings(&self, id: DeviceId) -> (r: Option<DecodeSettings>)
        ensures
            match r {
                Some(s) => self@.contains_key(id.0) && s@ == self@[id.0].decode,
                None => !self@.contains_key(id.0),
            },
    {
        match self.devices.get(&id.0) {
            Some(d) => Some(d.decode_settings()),
            None => None,
        }
    }

    pub fn system_settings(&self, id: DeviceId) -> (r: Option<SystemSettings>)
        ensures
            match r {
                Some(s) => self@.contains_key(id.0) && s@ == self@[id.0].system,
                None => !self@.contains_key(id.0),
            },
    {
        match self.devices.get(&id.0) {
            Some(d) => Some(d.system_settings()),
            None => None,
        }
    }

    /// Replaces the Network settings of a known device; says whether the
    /// device was known.
    pub fn set_network_settings(&mut self, id: DeviceId, settings: NetworkSettings) -> (found:
        bool)
        ensures
            found == old(self)@.contains_key(id.0),
            final(self)@ == if found {
                old(self)@.insert(id.0, with_network(old(self)@[id.0], settings@))
            } else {
                old(self)@
            },
    {
        match self.devices.remove(&id.0) {
            Some(mut d) => {
                d.set_network_settings(settings);
                self.devices.insert(id.0, d);
                assert(self@ =~= old(self)@.insert(
                    id.0,
                    with_network(old(self)@[id.0], settings@),
                ));
                true
            },
            None => false,
        }
    }

    /// Replaces the Decode settings of a known device; says whether the
    /// device was known.
    pub fn set_decode_settings(&mut self, id: DeviceId, settings: DecodeSettings) -> (found:
        bool)
        ensures
            found == old(self)@.contains_key(id.0),
            final(self)@ == if found {
                old(self)@.insert(id.0, with_decode(old(self)@[id.0], settings@))
            } else {
                old(self)@
            },
    {
        match self.devices.remove(&id.0) {
            Some(mut d) => {
                d.set_decode_settings(settings);
                self.devices.insert(id.0, d);
                assert(self@ =~= old(self)@.insert(
                    id.0,
                    with_decode(old(self)@[id.0], settings@),
                ));
                true
            },
            None => false,
        }
    }

    /// Replaces the System settings of a known device; says whether the
    /// device was known.
    pub fn set_system_settings(&mut self, id: DeviceId, settings: SystemSettings) -> (found:
        bool)
        ensures
            found == old(self)@.contains_key(id.0),
            final(self)@ == if found {
                old(self)@.insert(id.0, with_system(old(self)@[id.0], settings@))
            } else {
                old(self)@
            },
    {
        match self.devices.remove(&id.0) {
            Some(mut d) => {
                d.set_system_settings(settings);
                self.devices.insert(id.0, d);
                assert(self@ =~= old(self)@.insert(
                    id.0,
                    with_system(old(self)@[id.0], settings@),
                ));
                true
            },
            None => false,
        }
    }
}

/// Asking twice for the same device is asking once: the second request
/// neither replaces nor resets its simulated counterpart.
pub proof fn lemma_client_for_idempotent(m: Map<u128, MockDeviceView>, d: DeviceView, e: DeviceView)
    requires
        e.id == d.id,
    ensures
        with_client(with_client(m, d), e) == with_client(m, d),
        with_client(m, d).contains_key(d.id),
{
}

/// A simulated device gives back the settings last written to it, and a
/// write to one tab leaves the other tabs as they were.
pub proof fn lemma_read_back_write(s: MockDeviceView, n: NetworkSettingsView, dc: DecodeSettingsView, sy: SystemSettingsView)
    ensures
        with_network(s, n).network == n,
        with_network(s, n).decode == s.decode,
        with_network(s, n).system == s.system,
        with_decode(s, dc).decode == dc,
        with_decode(s, dc).network == s.network,
        with_system(s, sy).system == sy,
        with_system(s, sy).network == s.network,
{
}

/// A canned device of the demo fleet.
fn demo_device(name: &str, host: &str, tags: Vec<String>) -> (d: Device)
    ensures
        is_v4_uuid(d.id.0),
        d.name@ == name@,
        d.host@ == host@,
        d.tags@ == tags@,
        d.credentials.password matches Some(p) && p@ == "birddog"@,
        !d.discovered,
{
    Device {
        id: DeviceId::new(),
        name: owned(name),
        host: owned(host),
        tags,
        credentials: DeviceCredentials { password: Some(owned("birddog")) },
        discovered: false,
    }
}

/// A handful of canned devices, so a fresh instance has something to show.
pub fn demo_devices() -> (v: Vec<Device>)
    ensures
        v@.len() == 3,
        v@[0].name@ == "Stage Cam Play"@ && v@[0].host@ == "birddog-stage.local"@ && views(
            v@[0].tags@,
        ) == seq!["stage"@, "primary"@],
        v@[1].name@ == "Lobby Play"@ && v@[1].host@ == "birddog-lobby.local"@ && views(
            v@[1].tags@,
        ) == seq!["lobby"@],
        v@[2].name@ == "Backup Feed Play"@ && v@[2].host@ == "birddog-backup.local"@ && views(
            v@[2].tags@,
        ) == seq!["stage"@, "backup"@],
        forall|i: int|
            0 <= i < 3 ==> is_v4_uuid(#[trigger] v@[i].id.0) && !v@[i].discovered && (
            v@[i].credentials.password matches Some(p) && p@ == "birddog"@),
{
    let stage = demo_device(
        "Stage Cam Play",
        "birddog-stage.local",
        vec![owned("stage"), owned("primary")],
    );
    let lobby = demo_device("Lobby Play", "birddog-lobby.local", vec![owned("lobby")]);
    let backup = demo_device(
        "Backup Feed Play",
        "birddog-backup.local",
        vec![owned("stage"), owned("backup")],
    );
    let v = vec![stage, lobby, backup];
    assert(views(v@[0].tags@) =~= seq!["stage"@, "primary"@]);
    assert(views(v@[1].tags@) =~= seq!["lobby"@]);
    assert(views(v@[2].tags@) =~= seq!["stage"@, "backup"@]);
    v
}

} // verus!
