//! A registered BirdDog Play unit: pure metadata and how to reach it.

use vstd::prelude::*;

use crate::text::{copy_opt, copy_strings, owned, views};

verus! {

/// Version nibble and variant bits of a version-4 UUID.
pub open spec fn is_v4_uuid(x: u128) -> bool {
    (x >> 76u128) & 0xf == 4 && (x >> 62u128) & 0x3 == 2
}

/// `Uuid::new_v4().as_u128()` from `uuid`: a fresh random version-4 UUID.
/// Claims only its version and variant bits.
#[verifier::external_body]
pub(crate) fn random_uuid() -> (x: u128)
    ensures
        is_v4_uuid(x),
{
    uuid::Uuid::new_v4().as_u128()
}

/// The UUID that `Uuid::parse_str` reads from a text, if any.
pub uninterp spec fn uuid_parse(text: Seq<char>) -> Option<u128>;

/// `Uuid::parse_str(text)` from `uuid`, as a 128-bit number. Claims only
/// that the result is the named parse of the text.
#[verifier::external_body]
fn parse_uuid(text: &str) -> (r: Option<u128>)
    ensures
        r == uuid_parse(text@),
{
    uuid::Uuid::parse_str(text).ok().map(|u| u.as_u128())
}

/// A device's identity: a UUID, held as its 128-bit value (big-endian, so
/// numeric order is the UUID's byte order).
#[derive(Clone, Copy, Debug, PartialEq, Eq, Hash)]
pub struct DeviceId(pub u128);

impl DeviceId {
    /// A fresh random (version-4) id.
    pub fn new() -> (id: Self)
        ensures
            is_v4_uuid(id.0),
    {
        DeviceId(random_uuid())
    }

    /// Reads an id from its UUID text.
    pub fn parse(text: &str) -> (r: Option<Self>)
        ensures
            match uuid_parse(text@) {
                Some(x) => r == Some(DeviceId(x)),
                None => r is None,
            },
    {
        match parse_uuid(text) {
            Some(x) => Some(DeviceId(x)),
            None => None,
        }
    }
}

/// Encode/decode role. A Play only decodes, so devices carry no mode; the
/// type remains for callers that name the roles.
#[derive(Clone, Copy, Debug, PartialEq, Eq)]
pub enum DeviceMode {
    Encode,
    Decode,
}

/// A device's BirdUI login.
#[derive(Clone, Debug, Default, PartialEq, Eq)]
pub struct DeviceCredentials {
    /// BirdUI password for this device; never sent back to the frontend in
    /// full (see `Device::redacted`).
    pub password: Option<String>,
}

/// A registered BirdDog Play unit.
#[derive(Clone, Debug, PartialEq, Eq)]
pub struct Device {
    pub id: DeviceId,
    pub name: String,
    pub host: String,
    pub tags: Vec<String>,
    pub credentials: DeviceCredentials,
    /// Found by discovery rather than typed in by hand; shown as a badge.
    pub discovered: bool,
}

/// The mathematical content of a `Device`.
pub struct DeviceView {
    pub id: u128,
    pub name: Seq<char>,
    pub host: Seq<char>,
    pub tags: Seq<Seq<char>>,
    pub password: Option<Seq<char>>,
    pub discovered: bool,
}

pub open spec fn opt_view(o: Option<String>) -> Option<Seq<char>> {
    match o {
        Some(s) => Some(s@),
        None => None,
    }
}

impl View for Device {
    type V = DeviceView;

    open spec fn view(&self) -> DeviceView {
        DeviceView {
            id: self.id.0,
            name: self.name@,
            host: self.host@,
            tags: views(self.tags@),
            password: opt_view(self.credentials.password),
            discovered: self.discovered,
        }
    }
}

/// The mask that stands for a stored password in API responses.
pub open spec fn password_mask() -> Seq<char> {
    seq!['*', '*', '*', '*', '*', '*', '*', '*']
}

fn mask_string() -> (s: String)
    ensures
        s@ == password_mask(),
{
    let m = "********";
    proof {
        reveal_strlit("********");
        assert(m@ =~= password_mask());
    }
    owned(m)
}

/// The device as an API response shows it: a stored password becomes the
/// mask, everything else is unchanged.
pub open spec fn redacted_view(d: DeviceView) -> DeviceView {
    DeviceView {
        password: match d.password {
            Some(_) => Some(password_mask()),
            None => None,
        },
        ..d
    }
}

impl Device {
    /// A copy of this device.
    pub fn duplicate(&self) -> (d: Device)
        ensures
            d@ == self@,
    {
        Device {
            id: self.id,
            name: self.name.clone(),
            host: self.host.clone(),
            tags: copy_strings(&self.tags),
            credentials: DeviceCredentials { password: copy_opt(&self.credentials.password) },
            discovered: self.discovered,
        }
    }

    /// The device with its password, if any, replaced by `********`.
    pub fn redacted(self) -> (d: Device)
        ensures
            d@ == redacted_view(self@),
    {
        let mut d = self;
        if d.credentials.password.is_some() {
            d.credentials.password = Some(mask_string());
        }
        d
    }
}

/// Redaction never reveals a password: whatever the device held, its
/// redacted form holds no password or only the mask.
pub proof fn lemma_redaction_hides_password(d: DeviceView)
    ensures
        redacted_view(d).password is None || redacted_view(d).password == Some(password_mask()),
        redacted_view(d).password is Some <==> d.password is Some,
{
}

/// Redacting twice is the same as redacting once.
pub proof fn lemma_redaction_idempotent(d: DeviceView)
    ensures
        redacted_view(redacted_view(d)) == redacted_view(d),
{
}

} // verus!
