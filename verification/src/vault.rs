//! What the registry file holds: every device as the registry knows it,
//! except that a stored password is written encrypted, and read back
//! decrypted (or, written before encryption existed, as it stands).

use vstd::prelude::*;
use vstd::utf8::*;

use crate::crypto::{decrypt_panics, decrypted, enc_prefix, seal_max, CredentialCipher, CryptoError};
use crate::device::{Device, DeviceCredentials, DeviceView};
use crate::text::starts_with;

verus! {

/// The devices of a list, as values.
pub open spec fn device_views(s: Seq<Device>) -> Seq<DeviceView> {
    s.map_values(|d: Device| d@)
}

/// A device with another password.
pub open spec fn with_password(d: DeviceView, p: Option<Seq<char>>) -> DeviceView {
    DeviceView { password: p, ..d }
}

/// A password the cipher can encrypt.
pub open spec fn password_fits(d: DeviceView) -> bool {
    match d.password {
        None => true,
        Some(p) => encode_utf8(p).len() <= seal_max(),
    }
}

/// `s` is `d` as written to disk under `key`: the same device, and a
/// password only where `d` has one, encrypted so that it decrypts back.
pub open spec fn sealed_device(key: Seq<u8>, d: DeviceView, s: DeviceView) -> bool {
    &&& s == with_password(d, s.password)
    &&& match d.password {
        None => s.password is None,
        Some(p) => match s.password {
            Some(c) => starts_with(c, enc_prefix()) && !decrypt_panics(c) && decrypted(key, c)
                == Ok::<Seq<char>, CryptoError>(p),
            None => false,
        },
    }
}

/// `sealed` is `orig`, device by device, as written to disk under `key`.
pub open spec fn sealed_from(key: Seq<u8>, orig: Seq<DeviceView>, sealed: Seq<DeviceView>) -> bool {
    &&& orig.len() == sealed.len()
    &&& forall|i: int| 0 <= i < orig.len() ==> #[trigger] sealed_device(key, orig[i], sealed[i])
}

/// A device as read back from disk under `key`.
pub open spec fn opened_device(key: Seq<u8>, d: DeviceView) -> Result<DeviceView, CryptoError> {
    match d.password {
        None => Ok(d),
        Some(c) => match decrypted(key, c) {
            Ok(p) => Ok(with_password(d, Some(p))),
            Err(e) => Err(e),
        },
    }
}

/// The devices read back from disk under `key`, or the first error met.
pub open spec fn opened_devices(key: Seq<u8>, ds: Seq<DeviceView>) -> Result<
    Seq<DeviceView>,
    CryptoError,
>
    decreases ds.len(),
{
    if ds.len() == 0 {
        Ok(Seq::empty())
    } else {
        match opened_devices(key, ds.drop_last()) {
            Err(e) => Err(e),
            Ok(v) => match opened_device(key, ds.last()) {
                Err(e) => Err(e),
                Ok(d) => Ok(v.push(d)),
            },
        }
    }
}

/// Reading a stored password would cut a hex character apart.
pub open spec fn open_panics(d: DeviceView) -> bool {
    match d.password {
        Some(c) => decrypt_panics(c),
        None => false,
    }
}

fn with_password_exec(d: Device, p: Option<String>) -> (r: Device)
    ensures
        r@ == with_password(d@, crate::device::opt_view(p)),
{
    Device { credentials: DeviceCredentials { password: p }, ..d }
}

/// The devices as written to disk: every stored password encrypted. Fails
/// (with `Encrypt`) exactly when some password is too long to encrypt.
pub fn seal_passwords(cipher: &CredentialCipher, devices: &Vec<Device>) -> (r: Result<
    Vec<Device>,
    CryptoError,
>)
    ensures
        r is Ok <==> forall|i: int|
            0 <= i < devices@.len() ==> password_fits(#[trigger] devices@[i]@),
        r matches Ok(v) ==> sealed_from(cipher.key(), device_views(devices@), device_views(v@)),
        r matches Err(e) ==> e == CryptoError::Encrypt,
{
    let mut out: Vec<Device> = Vec::new();
    let mut i: usize = 0;
    while i < devices.len()
        invariant
            i <= devices@.len(),
            out@.len() == i,
            forall|k: int| 0 <= k < i ==> password_fits(#[trigger] devices@[k]@),
            forall|k: int|
                0 <= k < i ==> sealed_device(cipher.key(), devices@[k]@, #[trigger] out@[k]@),
        decreases devices.len() - i,
    {
        let d = devices[i].duplicate();
        let sealed = match &devices[i].credentials.password {
            None => d,
            Some(p) => match cipher.encrypt(p.as_str()) {
                Ok(c) => with_password_exec(d, Some(c)),
                Err(e) => {
                    assert(!password_fits(devices@[i as int]@));
                    return Err(e);
                },
            },
        };
        out.push(sealed);
        i = i + 1;
    }
    proof {
        assert forall|k: int| 0 <= k < devices@.len() implies #[trigger] sealed_device(
            cipher.key(),
            device_views(devices@)[k],
            device_views(out@)[k],
        ) by {
            assert(sealed_device(cipher.key(), devices@[k]@, out@[k]@));
        }
    }
    Ok(out)
}

/// The devices as read back from disk: every stored password decrypted, a
/// password written before encryption existed kept as it is; the first
/// password that does not decrypt fails the read.
pub fn open_passwords(cipher: &CredentialCipher, devices: &Vec<Device>) -> (r: Result<
    Vec<Device>,
    CryptoError,
>)
    requires
        forall|i: int| 0 <= i < devices@.len() ==> !open_panics(#[trigger] devices@[i]@),
    ensures
        match opened_devices(cipher.key(), device_views(devices@)) {
            Ok(v) => r matches Ok(w) && device_views(w@) == v,
            Err(e) => r == Err::<Vec<Device>, CryptoError>(e),
        },
{
    let ghost all = device_views(devices@);
    let mut out: Vec<Device> = Vec::new();
    let mut i: usize = 0;
    assert(all.take(0) =~= Seq::<DeviceView>::empty());
    assert(device_views(out@) =~= Seq::<DeviceView>::empty());
    while i < devices.len()
        invariant
            i <= devices@.len(),
            all == device_views(devices@),
            forall|k: int| 0 <= k < devices@.len() ==> !open_panics(#[trigger] devices@[k]@),
            opened_devices(cipher.key(), all.take(i as int)) == Ok::<
                Seq<DeviceView>,
                CryptoError,
            >(device_views(out@)),
        decreases devices.len() - i,
    {
        proof {
            assert(all.take(i + 1).drop_last() =~= all.take(i as int));
            assert(all.take(i + 1).last() == devices@[i as int]@);
            assert(!open_panics(devices@[i as int]@));
        }
        let d = devices[i].duplicate();
        let opened = match &devices[i].credentials.password {
            None => d,
            Some(c) => match cipher.decrypt_or_pass_through(c.as_str()) {
                Ok(p) => with_password_exec(d, Some(p)),
                Err(e) => {
                    proof {
                        lemma_opened_error_stays(cipher.key(), all, i as int + 1);
                    }
                    return Err(e);
                },
            },
        };
        let ghost before = out@;
        out.push(opened);
        proof {
            assert(device_views(out@) =~= device_views(before).push(opened@));
        }
        i = i + 1;
    }
    assert(all.take(devices@.len() as int) =~= all);
    Ok(out)
}

/// Once reading a prefix fails, reading the whole list fails the same way.
proof fn lemma_opened_error_stays(key: Seq<u8>, ds: Seq<DeviceView>, n: int)
    requires
        0 <= n <= ds.len(),
        opened_devices(key, ds.take(n)) is Err,
    ensures
        opened_devices(key, ds) == opened_devices(key, ds.take(n)),
    decreases ds.len() - n,
{
    if n < ds.len() {
        assert(ds.take(n + 1).drop_last() =~= ds.take(n));
        lemma_opened_error_stays(key, ds, n + 1);
    } else {
        assert(ds.take(n) =~= ds);
    }
}

/// Writing the registry and reading it back under the same key gives every
/// device back as it was, password included.
pub proof fn lemma_seal_then_open(key: Seq<u8>, orig: Seq<DeviceView>, sealed: Seq<DeviceView>)
    requires
        sealed_from(key, orig, sealed),
    ensures
        opened_devices(key, sealed) == Ok::<Seq<DeviceView>, CryptoError>(orig),
        forall|i: int| 0 <= i < sealed.len() ==> !open_panics(#[trigger] sealed[i]),
    decreases orig.len(),
{
    if orig.len() > 0 {
        let n = (orig.len() - 1) as int;
        assert forall|i: int| 0 <= i < n implies #[trigger] sealed_device(
            key,
            orig.drop_last()[i],
            sealed.drop_last()[i],
        ) by {
            assert(sealed_device(key, orig[i], sealed[i]));
        }
        lemma_seal_then_open(key, orig.drop_last(), sealed.drop_last());
        assert(sealed_device(key, orig[n], sealed[n]));
        assert(opened_device(key, sealed[n]) == Ok::<DeviceView, CryptoError>(orig[n]));
        assert(orig.drop_last().push(orig.last()) =~= orig);
    } else {
        assert(orig =~= Seq::<DeviceView>::empty());
    }
    assert forall|i: int| 0 <= i < sealed.len() implies !open_panics(#[trigger] sealed[i]) by {
        assert(sealed_device(key, orig[i], sealed[i]));
    }
}

} // verus!
