use flock::preview::{ffmpeg_args, preview_content_type, srt_preview_url, unavailable_reason};
use flock::settings::DecodeSettings;

fn base_settings() -> DecodeSettings {
    DecodeSettings {
        source_type: "SRT".to_string(),
        selected_source: None,
        available_sources: vec![],
        failover_source: None,
        srt_connection_type: "caller".to_string(),
        srt_stream_name: None,
        srt_ip_address: Some("10.0.0.5".to_string()),
        srt_port: Some(9000),
        srt_latency_ms: 200,
        srt_encryption_enabled: false,
        srt_encryption_key_length: None,
        srt_passphrase: None,
        srt_stream_id: None,
        srt_available_sources: vec![],
        screensaver_mode: "BlackSS".to_string(),
        color_space: "YUV".to_string(),
        ndi_audio_enabled: false,
        tally_mode: "TallyOff".to_string(),
    }
}

#[test]
fn builds_caller_url_with_streamid() {
    let mut s = base_settings();
    s.srt_stream_id = Some("mystream".to_string());
    assert_eq!(
        srt_preview_url(&s).as_deref(),
        Some("srt://10.0.0.5:9000?mode=caller&latency=200&streamid=mystream")
    );
}

#[test]
fn builds_encrypted_url_with_passphrase_and_keylen() {
    let mut s = base_settings();
    s.srt_encryption_enabled = true;
    s.srt_encryption_key_length = Some("32".to_string());
    s.srt_passphrase = Some("hunter2hunter2".to_string());
    assert_eq!(
        srt_preview_url(&s).as_deref(),
        Some("srt://10.0.0.5:9000?mode=caller&latency=200&pbkeylen=32&passphrase=hunter2hunter2")
    );
}

#[test]
fn none_for_ndi_source_type() {
    let mut s = base_settings();
    s.source_type = "NDI".to_string();
    assert_eq!(srt_preview_url(&s), None);
}

#[test]
fn none_for_listener_mode() {
    let mut s = base_settings();
    s.srt_connection_type = "listener".to_string();
    assert_eq!(srt_preview_url(&s), None);
}

#[test]
fn none_without_ip_configured() {
    let mut s = base_settings();
    s.srt_ip_address = None;
    assert_eq!(srt_preview_url(&s), None);
}

#[test]
fn none_with_empty_ip_or_no_port() {
    let mut s = base_settings();
    s.srt_ip_address = Some(String::new());
    assert_eq!(srt_preview_url(&s), None);
    let mut s = base_settings();
    s.srt_port = None;
    assert_eq!(srt_preview_url(&s), None);
}

#[test]
fn encryption_without_keylen_defaults_to_zero_and_rendezvous_has_no_streamid() {
    let mut s = base_settings();
    s.srt_connection_type = "rendezvous".to_string();
    s.srt_encryption_enabled = true;
    s.srt_stream_id = Some("ignored".to_string());
    assert_eq!(
        srt_preview_url(&s).as_deref(),
        Some("srt://10.0.0.5:9000?mode=rendezvous&latency=200&pbkeylen=0")
    );
}

#[test]
fn unavailable_reasons_name_the_cause() {
    let mut s = base_settings();
    s.source_type = "NDI".to_string();
    assert!(unavailable_reason(&s).starts_with("Live preview is only available for SRT"));
    let mut s = base_settings();
    s.srt_connection_type = "listener".to_string();
    assert!(unavailable_reason(&s).starts_with("Live preview isn't available in SRT listener mode"));
    let mut s = base_settings();
    s.srt_ip_address = None;
    assert_eq!(
        unavailable_reason(&s),
        "No SRT source configured yet - set an IP address and port on the Decode tab first."
    );
}

#[test]
fn ffmpeg_is_asked_for_multipart_jpeg() {
    let args = ffmpeg_args("srt://x:1");
    assert_eq!(
        args,
        vec!["-loglevel", "error", "-i", "srt://x:1", "-an", "-r", "10", "-q:v", "5", "-f", "mpjpeg", "-"]
    );
    assert_eq!(
        preview_content_type(),
        "multipart/x-mixed-replace; boundary=ffmpeg"
    );
}
