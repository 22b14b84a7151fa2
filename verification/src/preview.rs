//! Live SRT preview: the `srt://` address a preview connects to, taken from
//! a device's Decode settings exactly as BirdUI's own page builds it, and
//! what the preview answers where there is nothing it can connect to.

use vstd::prelude::*;

use crate::settings::{DecodeSettings, DecodeSettingsView};
use crate::text::{decimal, decimal_string, owned, push_str, str_eq};

verus! {

/// `&pbkeylen=<length>` (`0` where none is set), then `&passphrase=<p>`
/// where a passphrase is set; nothing without encryption.
pub open spec fn encryption_params(s: DecodeSettingsView) -> Seq<char> {
    if s.srt_encryption_enabled {
        let keylen = match s.srt_encryption_key_length {
            Some(k) => k,
            None => "0"@,
        };
        "&pbkeylen="@ + keylen + match s.srt_passphrase {
            Some(p) => "&passphrase="@ + p,
            None => Seq::empty(),
        }
    } else {
        Seq::empty()
    }
}

/// `&streamid=<id>` for a caller with a stream id; nothing otherwise.
pub open spec fn stream_id_param(s: DecodeSettingsView) -> Seq<char> {
    if s.srt_connection_type == "caller"@ {
        match s.srt_stream_id {
            Some(id) => "&streamid="@ + id,
            None => Seq::empty(),
        }
    } else {
        Seq::empty()
    }
}

/// The `srt://` address of the source the device is set to pull from, or
/// `None` where there is no source a preview could also dial: the source is
/// not SRT, the device listens rather than calls, or no address (non-empty
/// IP and a port) is set.
pub open spec fn preview_url(s: DecodeSettingsView) -> Option<Seq<char>> {
    if s.source_type != "SRT"@ || s.srt_connection_type == "listener"@ {
        None
    } else {
        match (s.srt_ip_address, s.srt_port) {
            (Some(ip), Some(port)) => if ip.len() == 0 {
                None
            } else {
                Some(
                    "srt://"@ + ip + ":"@ + decimal(port as nat) + "?mode="@
                        + s.srt_connection_type + "&latency="@ + decimal(
                        s.srt_latency_ms as nat,
                    ) + encryption_params(s) + stream_id_param(s),
                )
            },
            _ => None,
        }
    }
}

/// There is a preview address exactly for an SRT source the device calls
/// or meets (not listens for) at a non-empty IP and a port. It is
/// `srt://ip:port?mode=..&latency=..`, then, only with encryption on, the
/// key length (`0` where none is set) and the passphrase where one is set,
/// then a caller's stream id where one is set. Without encryption neither
/// key length nor passphrase is sent.
pub proof fn lemma_preview_url_parts(s: DecodeSettingsView)
    ensures
        preview_url(s) is Some <==> (s.source_type == "SRT"@ && s.srt_connection_type != "listener"@
            && s.srt_ip_address is Some && s.srt_ip_address->0.len() > 0 && s.srt_port is Some),
        preview_url(s) is Some ==> ({
            let base = "srt://"@ + s.srt_ip_address->0 + ":"@ + decimal(s.srt_port->0 as nat)
                + "?mode="@ + s.srt_connection_type + "&latency="@ + decimal(
                s.srt_latency_ms as nat,
            );
            let sid = if s.srt_connection_type == "caller"@ && s.srt_stream_id is Some {
                "&streamid="@ + s.srt_stream_id->0
            } else {
                Seq::<char>::empty()
            };
            let key = if s.srt_encryption_key_length is Some {
                s.srt_encryption_key_length->0
            } else {
                "0"@
            };
            let pass = if s.srt_passphrase is Some {
                "&passphrase="@ + s.srt_passphrase->0
            } else {
                Seq::<char>::empty()
            };
            &&& !s.srt_encryption_enabled ==> preview_url(s) == Some(base + sid)
            &&& s.srt_encryption_enabled ==> preview_url(s) == Some(
                base + "&pbkeylen="@ + key + pass + sid,
            )
        }),
{
    if preview_url(s) is Some {
        let base = "srt://"@ + s.srt_ip_address->0 + ":"@ + decimal(s.srt_port->0 as nat)
            + "?mode="@ + s.srt_connection_type + "&latency="@ + decimal(s.srt_latency_ms as nat);
        if s.srt_encryption_enabled {
            let key = if s.srt_encryption_key_length is Some {
                s.srt_encryption_key_length->0
            } else {
                "0"@
            };
            let pass = if s.srt_passphrase is Some {
                "&passphrase="@ + s.srt_passphrase->0
            } else {
                Seq::<char>::empty()
            };
            assert(encryption_params(s) =~= "&pbkeylen="@ + key + pass);
            assert(base + encryption_params(s) + stream_id_param(s) =~= base + "&pbkeylen="@ + key
                + pass + stream_id_param(s));
        } else {
            assert(base + encryption_params(s) =~= base);
        }
    }
}

/// The address a live preview connects to, if there is one.
pub fn srt_preview_url(settings: &DecodeSettings) -> (r: Option<String>)
    ensures
        match r {
            Some(u) => preview_url(settings@) == Some(u@),
            None => preview_url(settings@) is None,
        },
{
    if !str_eq(settings.source_type.as_str(), "SRT") || str_eq(
        settings.srt_connection_type.as_str(),
        "listener",
    ) {
        return None;
    }
    let ip = match &settings.srt_ip_address {
        Some(ip) => {
            if ip.as_str().is_empty() {
                return None;
            }
            ip
        },
        None => {
            return None;
        },
    };
    let port = match settings.srt_port {
        Some(p) => p,
        None => {
            return None;
        },
    };
    let mut url = owned("srt://");
    push_str(&mut url, ip.as_str());
    push_str(&mut url, ":");
    let p = decimal_string(port as u64);
    push_str(&mut url, p.as_str());
    push_str(&mut url, "?mode=");
    push_str(&mut url, settings.srt_connection_type.as_str());
    push_str(&mut url, "&latency=");
    let l = decimal_string(settings.srt_latency_ms as u64);
    push_str(&mut url, l.as_str());
    let ghost base = url@;
    if settings.srt_encryption_enabled {
        push_str(&mut url, "&pbkeylen=");
        match &settings.srt_encryption_key_length {
            Some(k) => push_str(&mut url, k.as_str()),
            None => push_str(&mut url, "0"),
        }
        if let Some(passphrase) = &settings.srt_passphrase {
            push_str(&mut url, "&passphrase=");
            push_str(&mut url, passphrase.as_str());
        }
    }
    assert(url@ =~= base + encryption_params(settings@));
    let ghost with_enc = url@;
    if str_eq(settings.srt_connection_type.as_str(), "caller") {
        if let Some(stream_id) = &settings.srt_stream_id {
            push_str(&mut url, "&streamid=");
            push_str(&mut url, stream_id.as_str());
        }
    }
    assert(url@ =~= with_enc + stream_id_param(settings@));
    Some(url)
}

/// What a preview request is answered where there is nothing to preview:
/// why, for each of the three reasons.
pub open spec fn unavailable_message(s: DecodeSettingsView) -> Seq<char> {
    if s.source_type != "SRT"@ {
        "Live preview is only available for SRT decode sources - NDI would need the proprietary NDI SDK, which flock deliberately doesn't bundle (see docs/architecture.md's \"NDI source routing model\" section)."@
    } else if s.srt_connection_type == "listener"@ {
        "Live preview isn't available in SRT listener mode - the upstream source connects to the Play, so there's no independent endpoint flock can also connect to."@
    } else {
        "No SRT source configured yet - set an IP address and port on the Decode tab first."@
    }
}

/// The explanation sent (with status 501) where there is nothing to preview.
pub fn unavailable_reason(settings: &DecodeSettings) -> (m: String)
    ensures
        m@ == unavailable_message(settings@),
{
    if !str_eq(settings.source_type.as_str(), "SRT") {
        owned(
            "Live preview is only available for SRT decode sources - NDI would need the proprietary NDI SDK, which flock deliberately doesn't bundle (see docs/architecture.md's \"NDI source routing model\" section).",
        )
    } else if str_eq(settings.srt_connection_type.as_str(), "listener") {
        owned(
            "Live preview isn't available in SRT listener mode - the upstream source connects to the Play, so there's no independent endpoint flock can also connect to.",
        )
    } else {
        owned(
            "No SRT source configured yet - set an IP address and port on the Decode tab first.",
        )
    }
}

/// The `ffmpeg` arguments that turn the source at `url` into a stream of
/// JPEG frames: no audio, ten frames a second, multipart JPEG on stdout.
pub fn ffmpeg_args(url: &str) -> (args: Vec<String>)
    ensures
        args@.len() == 12,
        args@[3]@ == url@,
        args@[0]@ == "-loglevel"@ && args@[1]@ == "error"@ && args@[2]@ == "-i"@,
        args@[4]@ == "-an"@ && args@[5]@ == "-r"@ && args@[6]@ == "10"@,
        args@[7]@ == "-q:v"@ && args@[8]@ == "5"@ && args@[9]@ == "-f"@,
        args@[10]@ == "mpjpeg"@ && args@[11]@ == "-"@,
{
    vec![
        owned("-loglevel"),
        owned("error"),
        owned("-i"),
        owned(url),
        owned("-an"),
        owned("-r"),
        owned("10"),
        owned("-q:v"),
        owned("5"),
        owned("-f"),
        owned("mpjpeg"),
        owned("-"),
    ]
}

/// ffmpeg's `mpjpeg` muxer's own default boundary string, and so the
/// content type of a preview response.
pub fn preview_content_type() -> (t: String)
    ensures
        t@ == "multipart/x-mixed-replace; boundary=ffmpeg"@,
{
    owned("multipart/x-mixed-replace; boundary=ffmpeg")
}

} // verus!
