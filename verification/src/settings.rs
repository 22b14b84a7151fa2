//! Per-tab settings, one struct per BirdUI panel (Dashboard, Network,
//! Decode, System). Field values (enum variants, option strings) are those
//! a BirdDog PLAY (firmware 1.0.18) uses; field names are flock's own.

use vstd::prelude::*;

use crate::device::opt_view;
use crate::text::{copy_opt, copy_strings, views};

verus! {

/// The Dashboard's live status. The bitrate is held in kbit/s.
#[derive(Clone, Debug, PartialEq, Eq)]
pub struct DeviceStatus {
    pub online: bool,
    pub ndi_stream_name: String,
    pub video_format: String,
    pub audio_status: String,
    pub video_resolution: String,
    pub video_frame_rate: String,
    pub average_bitrate_kbps: u32,
    pub firmware_version: String,
    pub system_name: String,
}

pub struct DeviceStatusView {
    pub online: bool,
    pub ndi_stream_name: Seq<char>,
    pub video_format: Seq<char>,
    pub audio_status: Seq<char>,
    pub video_resolution: Seq<char>,
    pub video_frame_rate: Seq<char>,
    pub average_bitrate_kbps: u32,
    pub firmware_version: Seq<char>,
    pub system_name: Seq<char>,
}

impl View for DeviceStatus {
    type V = DeviceStatusView;

    open spec fn view(&self) -> DeviceStatusView {
        DeviceStatusView {
            online: self.online,
            ndi_stream_name: self.ndi_stream_name@,
            video_format: self.video_format@,
            audio_status: self.audio_status@,
            video_resolution: self.video_resolution@,
            video_frame_rate: self.video_frame_rate@,
            average_bitrate_kbps: self.average_bitrate_kbps,
            firmware_version: self.firmware_version@,
            system_name: self.system_name@,
        }
    }
}

impl DeviceStatus {
    /// A copy of this status.
    pub fn duplicate(&self) -> (r: Self)
        ensures
            r@ == self@,
    {
        DeviceStatus {
            online: self.online,
            ndi_stream_name: self.ndi_stream_name.clone(),
            video_format: self.video_format.clone(),
            audio_status: self.audio_status.clone(),
            video_resolution: self.video_resolution.clone(),
            video_frame_rate: self.video_frame_rate.clone(),
            average_bitrate_kbps: self.average_bitrate_kbps,
            firmware_version: self.firmware_version.clone(),
            system_name: self.system_name.clone(),
        }
    }
}

/// How the device gets its address.
#[derive(Clone, Copy, Debug, PartialEq, Eq)]
pub enum ConfigMethod {
    Dhcp,
    Static,
}

/// The NDI transmit/receive preferred method (`Txpm`/`Rxpm` on the device):
/// exactly these four options. `RUdp` is written `RUDP`, without a hyphen.
#[derive(Clone, Copy, Debug, PartialEq, Eq)]
pub enum NdiTransmitMethod {
    Tcp,
    Udp,
    Multicast,
    RUdp,
}

/// The Network panel.
#[derive(Clone, Debug, PartialEq, Eq)]
pub struct NetworkSettings {
    pub config_method: ConfigMethod,
    pub ip_address: String,
    pub subnet_mask: String,
    pub gateway_address: String,
    pub dhcp_timeout_secs: u32,
    pub fallback_ip_address: String,
    pub fallback_subnet_mask: String,
    pub birddog_name: String,
    pub ndi_transmit_method: NdiTransmitMethod,
    /// The device's own preferred method for the source it decodes.
    pub ndi_receive_method: NdiTransmitMethod,
    pub multicast_net_prefix: String,
    pub multicast_net_mask: String,
    pub multicast_ttl: u8,
    pub ndi_discovery_server_enabled: bool,
    pub ndi_discovery_server_ips: Vec<String>,
}

pub struct NetworkSettingsView {
    pub config_method: ConfigMethod,
    pub ip_address: Seq<char>,
    pub subnet_mask: Seq<char>,
    pub gateway_address: Seq<char>,
    pub dhcp_timeout_secs: u32,
    pub fallback_ip_address: Seq<char>,
    pub fallback_subnet_mask: Seq<char>,
    pub birddog_name: Seq<char>,
    pub ndi_transmit_method: NdiTransmitMethod,
    pub ndi_receive_method: NdiTransmitMethod,
    pub multicast_net_prefix: Seq<char>,
    pub multicast_net_mask: Seq<char>,
    pub multicast_ttl: u8,
    pub ndi_discovery_server_enabled: bool,
    pub ndi_discovery_server_ips: Seq<Seq<char>>,
}

impl View for NetworkSettings {
    type V = NetworkSettingsView;

    open spec fn view(&self) -> NetworkSettingsView {
        NetworkSettingsView {
            config_method: self.config_method,
            ip_address: self.ip_address@,
            subnet_mask: self.subnet_mask@,
            gateway_address: self.gateway_address@,
            dhcp_timeout_secs: self.dhcp_timeout_secs,
            fallback_ip_address: self.fallback_ip_address@,
            fallback_subnet_mask: self.fallback_subnet_mask@,
            birddog_name: self.birddog_name@,
            ndi_transmit_method: self.ndi_transmit_method,
            ndi_receive_method: self.ndi_receive_method,
            multicast_net_prefix: self.multicast_net_prefix@,
            multicast_net_mask: self.multicast_net_mask@,
            multicast_ttl: self.multicast_ttl,
            ndi_discovery_server_enabled: self.ndi_discovery_server_enabled,
            ndi_discovery_server_ips: views(self.ndi_discovery_server_ips@),
        }
    }
}

impl NetworkSettings {
    /// A copy of these settings.
    pub fn duplicate(&self) -> (r: Self)
        ensures
            r@ == self@,
    {
        NetworkSettings {
            config_method: self.config_method,
            ip_address: self.ip_address.clone(),
            subnet_mask: self.subnet_mask.clone(),
            gateway_address: self.gateway_address.clone(),
            dhcp_timeout_secs: self.dhcp_timeout_secs,
            fallback_ip_address: self.fallback_ip_address.clone(),
            fallback_subnet_mask: self.fallback_subnet_mask.clone(),
            birddog_name: self.birddog_name.clone(),
            ndi_transmit_method: self.ndi_transmit_method,
            ndi_receive_method: self.ndi_receive_method,
            multicast_net_prefix: self.multicast_net_prefix.clone(),
            multicast_net_mask: self.multicast_net_mask.clone(),
            multicast_ttl: self.multicast_ttl,
            ndi_discovery_server_enabled: self.ndi_discovery_server_enabled,
            ndi_discovery_server_ips: copy_strings(&self.ndi_discovery_server_ips),
        }
    }
}

/// The Decode panel: which NDI or SRT source the device plays, and how.
#[derive(Clone, Debug, PartialEq, Eq)]
pub struct DecodeSettings {
    /// `"NDI"` or `"SRT"`.
    pub source_type: String,
    pub selected_source: Option<String>,
    /// Suggested sources; empty when read from real hardware, which has no
    /// such list in its own pages.
    pub available_sources: Vec<String>,
    pub failover_source: Option<String>,
    /// `"caller"`, `"listener"` or `"rendezvous"`.
    pub srt_connection_type: String,
    pub srt_stream_name: Option<String>,
    pub srt_ip_address: Option<String>,
    pub srt_port: Option<u16>,
    pub srt_latency_ms: u32,
    pub srt_encryption_enabled: bool,
    pub srt_encryption_key_length: Option<String>,
    pub srt_passphrase: Option<String>,
    pub srt_stream_id: Option<String>,
    pub srt_available_sources: Vec<String>,
    /// `"CaptureSS"`, `"BlackSS"` or `"BirdDogSS"`.
    pub screensaver_mode: String,
    /// `"YUV"` or `"RGB"`.
    pub color_space: String,
    pub ndi_audio_enabled: bool,
    /// `"TallyOn"`, `"TallyOff"` or `"VideoMode"`.
    pub tally_mode: String,
}

pub struct DecodeSettingsView {
    pub source_type: Seq<char>,
    pub selected_source: Option<Seq<char>>,
    pub available_sources: Seq<Seq<char>>,
    pub failover_source: Option<Seq<char>>,
    pub srt_connection_type: Seq<char>,
    pub srt_stream_name: Option<Seq<char>>,
    pub srt_ip_address: Option<Seq<char>>,
    pub srt_port: Option<u16>,
    pub srt_latency_ms: u32,
    pub srt_encryption_enabled: bool,
    pub srt_encryption_key_length: Option<Seq<char>>,
    pub srt_passphrase: Option<Seq<char>>,
    pub srt_stream_id: Option<Seq<char>>,
    pub srt_available_sources: Seq<Seq<char>>,
    pub screensaver_mode: Seq<char>,
    pub color_space: Seq<char>,
    pub ndi_audio_enabled: bool,
    pub tally_mode: Seq<char>,
}

impl View for DecodeSettings {
    type V = DecodeSettingsView;

    open spec fn view(&self) -> DecodeSettingsView {
        DecodeSettingsView {
            source_type: self.source_type@,
            selected_source: opt_view(self.selected_source),
            available_sources: views(self.available_sources@),
            failover_source: opt_view(self.failover_source),
            srt_connection_type: self.srt_connection_type@,
            srt_stream_name: opt_view(self.srt_stream_name),
            srt_ip_address: opt_view(self.srt_ip_address),
            srt_port: self.srt_port,
            srt_latency_ms: self.srt_latency_ms,
            srt_encryption_enabled: self.srt_encryption_enabled,
            srt_encryption_key_length: opt_view(self.srt_encryption_key_length),
            srt_passphrase: opt_view(self.srt_passphrase),
            srt_stream_id: opt_view(self.srt_stream_id),
            srt_available_sources: views(self.srt_available_sources@),
            screensaver_mode: self.screensaver_mode@,
            color_space: self.color_space@,
            ndi_audio_enabled: self.ndi_audio_enabled,
            tally_mode: self.tally_mode@,
        }
    }
}

impl DecodeSettings {
    /// A copy of these settings.
    pub fn duplicate(&self) -> (r: Self)
        ensures
            r@ == self@,
    {
        DecodeSettings {
            source_type: self.source_type.clone(),
            selected_source: copy_opt(&self.selected_source),
            available_sources: copy_strings(&self.available_sources),
            failover_source: copy_opt(&self.failover_source),
            srt_connection_type: self.srt_connection_type.clone(),
            srt_stream_name: copy_opt(&self.srt_stream_name),
            srt_ip_address: copy_opt(&self.srt_ip_address),
            srt_port: self.srt_port,
            srt_latency_ms: self.srt_latency_ms,
            srt_encryption_enabled: self.srt_encryption_enabled,
            srt_encryption_key_length: copy_opt(&self.srt_encryption_key_length),
            srt_passphrase: copy_opt(&self.srt_passphrase),
            srt_stream_id: copy_opt(&self.srt_stream_id),
            srt_available_sources: copy_strings(&self.srt_available_sources),
            screensaver_mode: self.screensaver_mode.clone(),
            color_space: self.color_space.clone(),
            ndi_audio_enabled: self.ndi_audio_enabled,
            tally_mode: self.tally_mode.clone(),
        }
    }
}

/// The System panel.
#[derive(Clone, Debug, PartialEq, Eq)]
pub struct SystemSettings {
    /// Read-only in practice: the device shows it on its Dashboard only.
    pub firmware_version: String,
    /// Access Manager lists. The device accepts them only as uploaded text
    /// files and never shows them back, so reads report them empty and a
    /// write replaces them.
    pub remote_ip_list: Vec<String>,
    pub ndi_group_list: Vec<String>,
}

pub struct SystemSettingsView {
    pub firmware_version: Seq<char>,
    pub remote_ip_list: Seq<Seq<char>>,
    pub ndi_group_list: Seq<Seq<char>>,
}

impl View for SystemSettings {
    type V = SystemSettingsView;

    open spec fn view(&self) -> SystemSettingsView {
        SystemSettingsView {
            firmware_version: self.firmware_version@,
            remote_ip_list: views(self.remote_ip_list@),
            ndi_group_list: views(self.ndi_group_list@),
        }
    }
}

impl SystemSettings {
    /// A copy of these settings.
    pub fn duplicate(&self) -> (r: Self)
        ensures
            r@ == self@,
    {
        SystemSettings {
            firmware_version: self.firmware_version.clone(),
            remote_ip_list: copy_strings(&self.remote_ip_list),
            ndi_group_list: copy_strings(&self.ndi_group_list),
        }
    }
}

} // verus!
