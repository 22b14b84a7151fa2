//! Encrypts device credentials before they are written to disk, with
//! AES-256-GCM under a key that lives in its own file. An encrypted value is
//! stored as `flock-enc-v1:<nonce hex>:<ciphertext hex>`; a stored value
//! without that prefix is a password written before encryption existed and
//! is passed through unchanged.

use vstd::prelude::*;
use vstd::utf8::*;

use aes_gcm::aead::{Aead, AeadCore, KeyInit, OsRng};

use crate::hex::{decode_hex, encode_hex, hex_chars, hex_decoded, hex_panics, hex_would_panic, lemma_hex_chars_ascii, lemma_hex_round_trip, HexError};
use crate::text::{first_index, owned, push_char, push_str, split_once_char, starts_with, strip_prefix, trim, trim_str};

verus! {

// ---------------------------------------------------------------------------
// AES-256-GCM (outside crate `aes-gcm`) and UTF-8 decoding (std)
// ---------------------------------------------------------------------------

/// The ciphertext (with its 16-byte tag) that AES-256-GCM produces for a
/// key, a nonce and a plaintext, with no associated data; `None` where the
/// cipher refuses the plaintext.
pub uninterp spec fn aes256gcm_seal(key: Seq<u8>, nonce: Seq<u8>, plaintext: Seq<u8>) -> Option<
    Seq<u8>,
>;

/// The plaintext that AES-256-GCM recovers from a key, a nonce and a
/// ciphertext; `None` where authentication fails.
pub uninterp spec fn aes256gcm_open(key: Seq<u8>, nonce: Seq<u8>, ciphertext: Seq<u8>) -> Option<
    Seq<u8>,
>;

/// Largest plaintext that `aes-gcm` encrypts (its `P_MAX`, 2^36 bytes).
pub open spec fn seal_max() -> nat {
    0x10_0000_0000
}

/// `Aes256Gcm::new(key).encrypt(nonce, plaintext)` from `aes-gcm`. Claims:
/// the result is the named AES-256-GCM ciphertext of these three inputs; it
/// fails only for a plaintext longer than `P_MAX`; the ciphertext is the
/// plaintext length plus the 16-byte tag; and decrypting it under the same
/// key and nonce gives the plaintext back.
#[verifier::external_body]
fn aes_seal(key: &[u8], nonce: &[u8], plaintext: &[u8]) -> (r: Option<Vec<u8>>)
    requires
        key@.len() == 32,
        nonce@.len() == 12,
    ensures
        match r {
            Some(c) => aes256gcm_seal(key@, nonce@, plaintext@) == Some(c@),
            None => aes256gcm_seal(key@, nonce@, plaintext@) is None,
        },
        r is Some <==> plaintext@.len() <= seal_max(),
        r matches Some(c) ==> c@.len() == plaintext@.len() + 16,
        r matches Some(c) ==> aes256gcm_open(key@, nonce@, c@) == Some(plaintext@),
{
    let cipher = aes_gcm::Aes256Gcm::new(aes_gcm::Key::<aes_gcm::Aes256Gcm>::from_slice(key));
    cipher.encrypt(aes_gcm::Nonce::from_slice(nonce), plaintext).ok()
}

/// `Aes256Gcm::new(key).decrypt(nonce, ciphertext)` from `aes-gcm`. Claims
/// only that the result is the named AES-256-GCM opening of these inputs.
#[verifier::external_body]
fn aes_open(key: &[u8], nonce: &[u8], ciphertext: &[u8]) -> (r: Option<Vec<u8>>)
    requires
        key@.len() == 32,
        nonce@.len() == 12,
    ensures
        match r {
            Some(p) => aes256gcm_open(key@, nonce@, ciphertext@) == Some(p@),
            None => aes256gcm_open(key@, nonce@, ciphertext@) is None,
        },
{
    let cipher = aes_gcm::Aes256Gcm::new(aes_gcm::Key::<aes_gcm::Aes256Gcm>::from_slice(key));
    cipher.decrypt(aes_gcm::Nonce::from_slice(nonce), ciphertext).ok()
}

/// `Aes256Gcm::generate_key(OsRng)` from `aes-gcm`: a fresh random key.
/// Claims only its length.
#[verifier::external_body]
fn aes_generate_key() -> (k: Vec<u8>)
    ensures
        k@.len() == 32,
{
    aes_gcm::Aes256Gcm::generate_key(OsRng).to_vec()
}

/// `Aes256Gcm::generate_nonce(OsRng)` from `aes-gcm`: a fresh random nonce.
/// Claims only its length.
#[verifier::external_body]
fn aes_generate_nonce() -> (n: Vec<u8>)
    ensures
        n@.len() == 12,
{
    aes_gcm::Aes256Gcm::generate_nonce(OsRng).to_vec()
}

/// `String::from_utf8` (std): the string a byte vector spells, if it is
/// valid UTF-8.
#[verifier::external_body]
fn utf8_string(bytes: Vec<u8>) -> (r: Option<String>)
    ensures
        r is Some <==> valid_utf8(bytes@),
        r matches Some(s) ==> s@ == decode_utf8(bytes@),
{
    String::from_utf8(bytes).ok()
}

// ---------------------------------------------------------------------------
// The stored format
// ---------------------------------------------------------------------------

/// The prefix every encrypted value carries, `flock-enc-v1:`.
pub open spec fn enc_prefix() -> Seq<char> {
    seq!['f', 'l', 'o', 'c', 'k', '-', 'e', 'n', 'c', '-', 'v', '1', ':']
}

fn prefix_str() -> (s: &'static str)
    ensures
        s@ == enc_prefix(),
{
    let s = "flock-enc-v1:";
    proof {
        reveal_strlit("flock-enc-v1:");
        assert(s@ =~= enc_prefix());
    }
    s
}

/// How a nonce and a ciphertext are written down.
pub open spec fn encrypted_form(nonce: Seq<u8>, ciphertext: Seq<u8>) -> Seq<char> {
    enc_prefix() + hex_chars(nonce) + seq![':'] + hex_chars(ciphertext)
}

/// Why a key could not be loaded or a credential not be encrypted or
/// decrypted.
#[derive(Clone, Copy, Debug, PartialEq, Eq)]
pub enum CryptoError {
    /// A key must be 32 bytes; the number of bytes found.
    KeyLength(usize),
    /// A hex field could not be decoded.
    Hex(HexError),
    /// An encrypted value without the `:` between nonce and ciphertext.
    Malformed,
    /// A nonce that is not 12 bytes.
    NonceLength,
    /// The cipher refused to encrypt.
    Encrypt,
    /// The ciphertext did not authenticate under this key.
    Decrypt,
    /// The decrypted bytes are not UTF-8.
    NotUtf8,
}

/// The part of an encrypted value after the prefix.
pub open spec fn after_prefix(stored: Seq<char>) -> Seq<char> {
    stored.subrange(enc_prefix().len() as int, stored.len() as int)
}

/// The nonce's hex text of an encrypted value whose `:` is at `i`.
pub open spec fn nonce_text(stored: Seq<char>) -> Seq<char> {
    let rest = after_prefix(stored);
    rest.subrange(0, first_index(rest, ':')->0)
}

/// The ciphertext's hex text of an encrypted value.
pub open spec fn ciphertext_text(stored: Seq<char>) -> Seq<char> {
    let rest = after_prefix(stored);
    rest.subrange(first_index(rest, ':')->0 + 1, rest.len() as int)
}

/// Decrypting `stored` would slice a hex field's character apart, where the
/// slicing decoder this follows panics.
pub open spec fn decrypt_panics(stored: Seq<char>) -> bool {
    &&& starts_with(stored, enc_prefix())
    &&& first_index(after_prefix(stored), ':') is Some
    &&& {
        ||| hex_panics(nonce_text(stored))
        ||| ({
            &&& hex_decoded(nonce_text(stored)) matches Ok(n)
            &&& n.len() == 12
            &&& hex_panics(ciphertext_text(stored))
        })
    }
}

/// What decrypting a stored value under `key` gives.
pub open spec fn decrypted(key: Seq<u8>, stored: Seq<char>) -> Result<Seq<char>, CryptoError> {
    if !starts_with(stored, enc_prefix()) {
        Ok(stored)
    } else if first_index(after_prefix(stored), ':') is None {
        Err(CryptoError::Malformed)
    } else {
        match hex_decoded(nonce_text(stored)) {
            Err(e) => Err(CryptoError::Hex(e)),
            Ok(n) => if n.len() != 12 {
                Err(CryptoError::NonceLength)
            } else {
                match hex_decoded(ciphertext_text(stored)) {
                    Err(e) => Err(CryptoError::Hex(e)),
                    Ok(c) => match aes256gcm_open(key, n, c) {
                        None => Err(CryptoError::Decrypt),
                        Some(p) => if valid_utf8(p) {
                            Ok(decode_utf8(p))
                        } else {
                            Err(CryptoError::NotUtf8)
                        },
                    },
                }
            },
        }
    }
}

// ---------------------------------------------------------------------------
// The cipher
// ---------------------------------------------------------------------------

/// Encrypts and decrypts credentials under one 32-byte key.
pub struct CredentialCipher {
    key: Vec<u8>,
}

impl CredentialCipher {
    #[verifier::type_invariant]
    closed spec fn inv(&self) -> bool {
        self.key@.len() == 32
    }

    /// The key.
    pub closed spec fn key(&self) -> Seq<u8> {
        self.key@
    }

    /// A cipher under the given key, which must be 32 bytes.
    pub fn from_key(key: Vec<u8>) -> (r: Result<Self, CryptoError>)
        ensures
            r matches Ok(c) ==> c.key() == key@,
            r matches Err(e) ==> e == CryptoError::KeyLength(key@.len() as usize),
            r is Ok <==> key@.len() == 32,
    {
        if key.len() == 32 {
            Ok(CredentialCipher { key })
        } else {
            Err(CryptoError::KeyLength(key.len()))
        }
    }

    /// A cipher under the key written as hex in a key file's text; the text
    /// is trimmed first.
    pub fn from_key_text(text: &str) -> (r: Result<Self, CryptoError>)
        requires
            !hex_panics(trim(text@)),
        ensures
            match hex_decoded(trim(text@)) {
                Err(e) => r == Err::<Self, CryptoError>(CryptoError::Hex(e)),
                Ok(k) => if k.len() == 32 {
                    r matches Ok(c) && c.key() == k
                } else {
                    r == Err::<Self, CryptoError>(CryptoError::KeyLength(k.len() as usize))
                },
            },
    {
        let trimmed = trim_str(text);
        match decode_hex(trimmed.as_str()) {
            Err(e) => Err(CryptoError::Hex(e)),
            Ok(bytes) => Self::from_key(bytes),
        }
    }

    /// A cipher under a fresh random key.
    pub fn generate() -> (c: Self)
        ensures
            c.key().len() == 32,
    {
        CredentialCipher { key: aes_generate_key() }
    }

    /// The key as lower-case hex, as it is written to the key file.
    pub fn key_hex(&self) -> (s: String)
        ensures
            s@ == hex_chars(self.key()),
    {
        encode_hex(self.key.as_slice())
    }

    /// Encrypts `plaintext` under the given 12-byte nonce.
    pub fn encrypt_with_nonce(&self, plaintext: &str, nonce: &[u8]) -> (r: Result<
        String,
        CryptoError,
    >)
        requires
            nonce@.len() == 12,
        ensures
            match aes256gcm_seal(self.key(), nonce@, encode_utf8(plaintext@)) {
                Some(c) => r matches Ok(s) && s@ == encrypted_form(nonce@, c),
                None => r == Err::<String, CryptoError>(CryptoError::Encrypt),
            },
            r is Ok <==> encode_utf8(plaintext@).len() <= seal_max(),
            r matches Ok(s) ==> self.decrypted_spec(s@) == Ok::<Seq<char>, CryptoError>(
                plaintext@,
            ),
            r matches Ok(s) ==> !decrypt_panics(s@),
    {
        proof {
            use_type_invariant(self);
        }
        let bytes = plaintext.as_bytes();
        match aes_seal(self.key.as_slice(), nonce, bytes) {
            None => Err(CryptoError::Encrypt),
            Some(ct) => {
                let mut out = String::new();
                push_str(&mut out, prefix_str());
                let nh = encode_hex(nonce);
                push_str(&mut out, nh.as_str());
                push_char(&mut out, ':');
                let ch = encode_hex(ct.as_slice());
                push_str(&mut out, ch.as_str());
                proof {
                    assert(out@ =~= encrypted_form(nonce@, ct@));
                    lemma_decrypt_encrypted_form(self.key(), nonce@, ct@, plaintext@);
                }
                Ok(out)
            },
        }
    }

    /// Encrypts `plaintext` under a fresh random nonce, into a value that
    /// starts with `flock-enc-v1:` and that `decrypt_or_pass_through` turns
    /// back into `plaintext`.
    pub fn encrypt(&self, plaintext: &str) -> (r: Result<String, CryptoError>)
        ensures
            r is Ok <==> encode_utf8(plaintext@).len() <= seal_max(),
            r matches Ok(s) ==> exists|n: Seq<u8>, c: Seq<u8>|
                #![trigger encrypted_form(n, c)]
                n.len() == 12 && aes256gcm_seal(self.key(), n, encode_utf8(plaintext@)) == Some(c)
                    && s@ == encrypted_form(n, c),
            r matches Ok(s) ==> starts_with(s@, enc_prefix()),
            r matches Ok(s) ==> self.decrypted_spec(s@) == Ok::<Seq<char>, CryptoError>(
                plaintext@,
            ),
            r matches Ok(s) ==> !decrypt_panics(s@),
            r matches Err(e) ==> e == CryptoError::Encrypt,
    {
        let nonce = aes_generate_nonce();
        let r = self.encrypt_with_nonce(plaintext, nonce.as_slice());
        proof {
            if let Ok(s) = &r {
                let c = aes256gcm_seal(self.key(), nonce@, encode_utf8(plaintext@))->0;
                assert(s@ == encrypted_form(nonce@, c));
                assert(encrypted_form(nonce@, c).subrange(0, 13) =~= enc_prefix());
            }
        }
        r
    }

    /// What decrypting `stored` under this cipher's key gives.
    pub open spec fn decrypted_spec(&self, stored: Seq<char>) -> Result<Seq<char>, CryptoError> {
        decrypted(self.key(), stored)
    }

    /// Decrypts a value produced by `encrypt`; a value without the
    /// `flock-enc-v1:` prefix is a password stored before encryption existed
    /// and comes back unchanged.
    pub fn decrypt_or_pass_through(&self, stored: &str) -> (r: Result<String, CryptoError>)
        requires
            !decrypt_panics(stored@),
        ensures
            match self.decrypted_spec(stored@) {
                Ok(p) => r matches Ok(s) && s@ == p,
                Err(e) => r == Err::<String, CryptoError>(e),
            },
    {
        proof {
            use_type_invariant(self);
        }
        let rest = match strip_prefix(stored, prefix_str()) {
            None => {
                return Ok(owned(stored));
            },
            Some(rest) => rest,
        };
        let (nonce_hex, ct_hex) = match split_once_char(rest.as_str(), ':') {
            None => {
                return Err(CryptoError::Malformed);
            },
            Some(parts) => parts,
        };
        proof {
            assert(rest@ == after_prefix(stored@));
            assert(nonce_hex@ == nonce_text(stored@));
            assert(ct_hex@ == ciphertext_text(stored@));
        }
        let nonce = match decode_hex(nonce_hex.as_str()) {
            Err(e) => {
                return Err(CryptoError::Hex(e));
            },
            Ok(n) => n,
        };
        if nonce.len() != 12 {
            return Err(CryptoError::NonceLength);
        }
        let ct = match decode_hex(ct_hex.as_str()) {
            Err(e) => {
                return Err(CryptoError::Hex(e));
            },
            Ok(c) => c,
        };
        match aes_open(self.key.as_slice(), nonce.as_slice(), ct.as_slice()) {
            None => Err(CryptoError::Decrypt),
            Some(p) => match utf8_string(p) {
                None => Err(CryptoError::NotUtf8),
                Some(s) => Ok(s),
            },
        }
    }
}

/// Whether decrypting `stored` would cut a character of a hex field apart
/// (what a caller checks before `decrypt_or_pass_through`).
pub fn decrypt_would_panic(stored: &str) -> (r: bool)
    ensures
        r == decrypt_panics(stored@),
{
    let rest = match strip_prefix(stored, prefix_str()) {
        None => {
            return false;
        },
        Some(rest) => rest,
    };
    let (nonce_hex, ct_hex) = match split_once_char(rest.as_str(), ':') {
        None => {
            return false;
        },
        Some(parts) => parts,
    };
    proof {
        assert(rest@ == after_prefix(stored@));
        assert(nonce_hex@ == nonce_text(stored@));
        assert(ct_hex@ == ciphertext_text(stored@));
    }
    if hex_would_panic(nonce_hex.as_str()) {
        return true;
    }
    match decode_hex(nonce_hex.as_str()) {
        Ok(n) => n.len() == 12 && hex_would_panic(ct_hex.as_str()),
        Err(_) => false,
    }
}

/// Decrypting the written form of a nonce and a ciphertext gives back the
/// plaintext that the ciphertext opens to, and never slices a character
/// apart.
pub proof fn lemma_decrypt_encrypted_form(
    key: Seq<u8>,
    nonce: Seq<u8>,
    ciphertext: Seq<u8>,
    plaintext: Seq<char>,
)
    requires
        nonce.len() == 12,
        aes256gcm_open(key, nonce, ciphertext) == Some(encode_utf8(plaintext)),
    ensures
        decrypted(key, encrypted_form(nonce, ciphertext)) == Ok::<Seq<char>, CryptoError>(
            plaintext,
        ),
        !decrypt_panics(encrypted_form(nonce, ciphertext)),
{
    let s = encrypted_form(nonce, ciphertext);
    let nh = hex_chars(nonce);
    let ch = hex_chars(ciphertext);
    assert(s.subrange(0, 13) =~= enc_prefix());
    assert(starts_with(s, enc_prefix()));
    let rest = after_prefix(s);
    assert(rest =~= nh + seq![':'] + ch);
    lemma_hex_chars_ascii(nonce);
    lemma_first_colon(nh, ch);
    assert(nonce_text(s) =~= nh);
    assert(ciphertext_text(s) =~= ch);
    lemma_hex_round_trip(nonce);
    lemma_hex_round_trip(ciphertext);
    encode_utf8_valid_utf8(plaintext);
    encode_utf8_decode_utf8(plaintext);
}

proof fn lemma_first_colon(a: Seq<char>, b: Seq<char>)
    requires
        forall|i: int| 0 <= i < a.len() ==> #[trigger] a[i] != ':',
    ensures
        first_index(a + seq![':'] + b, ':') == Some(a.len() as int),
    decreases a.len(),
{
    let s = a + seq![':'] + b;
    if a.len() == 0 {
        assert(s[0] == ':');
    } else {
        let t = a.drop_first();
        assert forall|i: int| 0 <= i < t.len() implies #[trigger] t[i] != ':' by {
            assert(t[i] == a[i + 1]);
        }
        lemma_first_colon(t, b);
        assert(s.drop_first() =~= t + seq![':'] + b);
        assert(s[0] == a[0]);
    }
}

} // verus!
