//! Keys, signatures, key agreement, key derivation, authenticated
//! encryption and fingerprints.
//!
//! Keys and signatures are held as byte arrays: an Ed25519 signing key as its
//! 32-byte secret, a verifying key as its 32-byte compressed point, a
//! signature as its 64 bytes, an X25519 secret or public key as its 32 bytes.
use vstd::prelude::*;
use aes_gcm::aead::{Aead, KeyInit};
use ed25519_dalek::{Signer, Verifier};
use rand::RngCore;
use sha2::Digest;
use crate::core_errors::SnapError;
use crate::text::push_char;

verus! {

/// The Ed25519 verifying key (compressed point) of a 32-byte secret key.
pub uninterp spec fn ed25519_public_key(secret: Seq<u8>) -> Seq<u8>;

/// The Ed25519 signature (RFC 8032) of a message under a 32-byte secret key.
pub uninterp spec fn ed25519_signature(secret: Seq<u8>, message: Seq<u8>) -> Seq<u8>;

/// Whether a signature checks out for a message under a verifying key.
pub uninterp spec fn ed25519_verifies(public: Seq<u8>, message: Seq<u8>, signature: Seq<u8>) -> bool;

/// The X25519 public key of a 32-byte secret.
pub uninterp spec fn x25519_public_key(secret: Seq<u8>) -> Seq<u8>;

/// The X25519 shared secret of a secret and the other side's public key.
pub uninterp spec fn x25519_shared_secret(secret: Seq<u8>, their_public: Seq<u8>) -> Seq<u8>;

/// The 32 bytes that HKDF-SHA256 (no salt) expands from input keying
/// material and an info string.
pub uninterp spec fn hkdf_sha256_okm(ikm: Seq<u8>, info: Seq<u8>) -> Seq<u8>;

/// The AES-256-GCM ciphertext (tag appended, no associated data) of a
/// plaintext under a key and nonce.
pub uninterp spec fn aes256gcm_seal(key: Seq<u8>, nonce: Seq<u8>, plaintext: Seq<u8>) -> Seq<u8>;

/// The AES-256-GCM plaintext of a ciphertext under a key and nonce, if the
/// ciphertext authenticates.
pub uninterp spec fn aes256gcm_open(key: Seq<u8>, nonce: Seq<u8>, ciphertext: Seq<u8>) -> Option<Seq<u8>>;

/// The SHA-256 digest of the data.
pub uninterp spec fn sha256(data: Seq<u8>) -> Seq<u8>;

/// The longest plaintext that AES-GCM encrypts (2^36 bytes).
pub const AES_GCM_P_MAX: u64 = 68719476736;

/// The info string from which session keys are derived ("snaplan-session").
pub open spec fn session_key_info() -> Seq<u8> {
    seq![115u8, 110, 97, 112, 108, 97, 110, 45, 115, 101, 115, 115, 105, 111, 110]
}

/// `aead::Error`, carried opaquely.
#[verifier::external_type_specification]
#[verifier::external_body]
pub struct ExAeadError(aes_gcm::aead::Error);

/// `ed25519_dalek::SigningKey::generate` from the operating system's random
/// source, as its 32-byte secret.  The key is random; nothing is claimed of
/// it.
#[verifier::external_body]
fn random_ed25519_secret() -> [u8; 32] {
    ed25519_dalek::SigningKey::generate(&mut rand::rngs::OsRng).to_bytes()
}

/// `ed25519_dalek::SigningKey::verifying_key`, from and to bytes: the
/// verifying key of the secret.
#[verifier::external_body]
fn ed25519_public(secret: &[u8; 32]) -> (p: [u8; 32])
    ensures
        p@ == ed25519_public_key(secret@),
{
    ed25519_dalek::SigningKey::from_bytes(secret).verifying_key().to_bytes()
}

/// `ed25519_dalek::SigningKey::sign` (deterministic Ed25519), from and to
/// bytes.
#[verifier::external_body]
fn ed25519_sign(secret: &[u8; 32], message: &[u8]) -> (s: [u8; 64])
    ensures
        s@ == ed25519_signature(secret@, message@),
{
    ed25519_dalek::SigningKey::from_bytes(secret).sign(message).to_bytes()
}

/// `ed25519_dalek::VerifyingKey::verify` on the key and signature read from
/// bytes (`false` where the bytes are no valid point).  The contract also
/// claims the scheme's correctness: a signature made by a secret key checks
/// out under that key's verifying key.
#[verifier::external_body]
fn ed25519_check(public: &[u8; 32], message: &[u8], signature: &[u8; 64]) -> (b: bool)
    ensures
        b == ed25519_verifies(public@, message@, signature@),
        forall|sk: Seq<u8>|
            sk.len() == 32 && public@ == #[trigger] ed25519_public_key(sk) && signature@
                == #[trigger] ed25519_signature(sk, message@) ==> b,
{
    match ed25519_dalek::VerifyingKey::from_bytes(public) {
        Ok(key) => key.verify(message, &ed25519_dalek::Signature::from_bytes(signature)).is_ok(),
        Err(_) => false,
    }
}

/// `x25519_dalek::StaticSecret::random_from_rng` from the operating system's
/// random source, as bytes.  Random; nothing is claimed of it.
#[verifier::external_body]
fn random_x25519_secret() -> [u8; 32] {
    x25519_dalek::StaticSecret::random_from_rng(rand::rngs::OsRng).to_bytes()
}

/// `x25519_dalek::PublicKey::from(&StaticSecret)`, from and to bytes.
#[verifier::external_body]
fn x25519_public(secret: &[u8; 32]) -> (p: [u8; 32])
    ensures
        p@ == x25519_public_key(secret@),
{
    x25519_dalek::PublicKey::from(&x25519_dalek::StaticSecret::from(*secret)).to_bytes()
}

/// `x25519_dalek::StaticSecret::diffie_hellman`, from and to bytes.  The
/// contract also claims key agreement, as the crate documents it: the secret
/// of `a` with the public key of `b` equals the secret of `b` with the
/// public key of `a`.
#[verifier::external_body]
fn x25519_agree(secret: &[u8; 32], their_public: &[u8; 32]) -> (s: [u8; 32])
    ensures
        s@ == x25519_shared_secret(secret@, their_public@),
        forall|other: Seq<u8>|
            other.len() == 32 && their_public@ == #[trigger] x25519_public_key(other) ==> s@
                == x25519_shared_secret(other, x25519_public_key(secret@)),
{
    x25519_dalek::StaticSecret::from(*secret).diffie_hellman(&x25519_dalek::PublicKey::from(*their_public)).to_bytes()
}

/// `hkdf::Hkdf::<Sha256>::new(None, ikm)` then `expand(info)` into 32 bytes
/// (which cannot fail: HKDF-SHA256 expands up to 8160 bytes).
#[verifier::external_body]
fn hkdf_sha256_expand(ikm: &[u8], info: &[u8]) -> (okm: [u8; 32])
    ensures
        okm@ == hkdf_sha256_okm(ikm@, info@),
{
    let hk = hkdf::Hkdf::<sha2::Sha256>::new(None, ikm);
    let mut okm = [0u8; 32];
    hk.expand(info, &mut okm).expect("HKDF failed");
    okm
}

/// `aes_gcm::Aes256Gcm::encrypt` with no associated data.  It fails exactly
/// when the plaintext is longer than 2^36 bytes; the ciphertext is the
/// plaintext's length plus the 16-byte tag.
#[verifier::external_body]
fn aes256gcm_encrypt(key: &[u8; 32], nonce: &[u8; 12], plaintext: &[u8]) -> (r: Result<Vec<u8>, aes_gcm::aead::Error>)
    ensures
        r is Ok <==> plaintext@.len() <= AES_GCM_P_MAX,
        r matches Ok(c) ==> c@ == aes256gcm_seal(key@, nonce@, plaintext@),
        r matches Ok(c) ==> c@.len() == plaintext@.len() + 16,
{
    let cipher = aes_gcm::Aes256Gcm::new(key.into());
    cipher.encrypt(aes_gcm::Nonce::from_slice(nonce), plaintext)
}

/// `aes_gcm::Aes256Gcm::decrypt` with no associated data.  A ciphertext
/// shorter than the 16-byte tag is refused, and a plaintext is the
/// ciphertext less the tag.  The contract also
/// claims that decryption undoes encryption: a ciphertext that encryption
/// made from a plaintext under this key and nonce decrypts to it.
#[verifier::external_body]
fn aes256gcm_decrypt(key: &[u8; 32], nonce: &[u8; 12], ciphertext: &[u8]) -> (r: Result<Vec<u8>, aes_gcm::aead::Error>)
    ensures
        r is Ok <==> aes256gcm_open(key@, nonce@, ciphertext@) is Some,
        r matches Ok(pt) ==> aes256gcm_open(key@, nonce@, ciphertext@) == Some(pt@),
        ciphertext@.len() < 16 ==> r is Err,
        r matches Ok(pt) ==> pt@.len() == ciphertext@.len() - 16,
        forall|p: Seq<u8>|
            p.len() <= AES_GCM_P_MAX && ciphertext@ == #[trigger] aes256gcm_seal(key@, nonce@, p) ==> r is Ok && r->Ok_0@ == p,
{
    let cipher = aes_gcm::Aes256Gcm::new(key.into());
    cipher.decrypt(aes_gcm::Nonce::from_slice(nonce), ciphertext)
}

/// The text of an `aead::Error` (its `Display` writes "aead::Error").
#[verifier::external_body]
fn aead_error_text(e: &aes_gcm::aead::Error) -> (s: String)
    ensures
        s@ == "aead::Error"@,
{
    e.to_string()
}

/// `rand::rngs::OsRng::fill_bytes` on 12 bytes.  Random; nothing is claimed.
#[verifier::external_body]
fn random_bytes_12() -> [u8; 12] {
    let mut nonce = [0u8; 12];
    rand::rngs::OsRng.fill_bytes(&mut nonce);
    nonce
}

/// `sha2::Sha256::digest`.
#[verifier::external_body]
fn sha256_digest(data: &[u8]) -> (d: [u8; 32])
    ensures
        d@ == sha256(data@),
{
    sha2::Sha256::digest(data).into()
}

/// A fresh random Ed25519 identity key pair: the signing key's secret and
/// its verifying key.
pub fn generate_identity_keypair() -> (r: ([u8; 32], [u8; 32]))
    ensures
        r.1@ == ed25519_public_key(r.0@),
{
    let signing = random_ed25519_secret();
    let verifying = ed25519_public(&signing);
    (signing, verifying)
}

/// The Ed25519 signature of `data` under the signing key.
pub fn sign(key: &[u8; 32], data: &[u8]) -> (s: [u8; 64])
    ensures
        s@ == ed25519_signature(key@, data@),
{
    ed25519_sign(key, data)
}

/// Whether the signature of `data` checks out under the verifying key.  A
/// signature that `sign` made with the matching signing key always does.
pub fn verify(key: &[u8; 32], data: &[u8], signature: &[u8; 64]) -> (b: bool)
    ensures
        b == ed25519_verifies(key@, data@, signature@),
        forall|sk: Seq<u8>|
            sk.len() == 32 && key@ == #[trigger] ed25519_public_key(sk) && signature@
                == #[trigger] ed25519_signature(sk, data@) ==> b,
{
    ed25519_check(key, data, signature)
}

/// A fresh random X25519 key pair: the secret and its public key.
pub fn generate_session_keypair() -> (r: ([u8; 32], [u8; 32]))
    ensures
        r.1@ == x25519_public_key(r.0@),
{
    let private = random_x25519_secret();
    let public = x25519_public(&private);
    (private, public)
}

/// The X25519 shared secret of our secret and their public key; both sides
/// compute the same one.
pub fn derive_shared_secret(private: &[u8; 32], remote_public: &[u8; 32]) -> (s: [u8; 32])
    ensures
        s@ == x25519_shared_secret(private@, remote_public@),
        forall|other: Seq<u8>|
            other.len() == 32 && remote_public@ == #[trigger] x25519_public_key(other) ==> s@
                == x25519_shared_secret(other, x25519_public_key(private@)),
{
    x25519_agree(private, remote_public)
}

/// The session key derived from a shared secret: HKDF-SHA256 with no salt
/// and the info string "snaplan-session".
pub fn derive_session_key(shared_secret: &[u8]) -> (k: [u8; 32])
    ensures
        k@ == hkdf_sha256_okm(shared_secret@, session_key_info()),
{
    let info: [u8; 15] = [115, 110, 97, 112, 108, 97, 110, 45, 115, 101, 115, 115, 105, 111, 110];
    assert(info@ =~= session_key_info());
    hkdf_sha256_expand(shared_secret, &info)
}

/// Encrypts with AES-256-GCM.  Fails, with the cipher's error text, exactly
/// when the plaintext is longer than 2^36 bytes; the ciphertext carries the
/// 16-byte tag after the encrypted plaintext.
pub fn encrypt(key: &[u8; 32], nonce: &[u8; 12], plaintext: &[u8]) -> (r: Result<Vec<u8>, SnapError>)
    ensures
        plaintext@.len() <= AES_GCM_P_MAX ==> (r matches Ok(c) && c@ == aes256gcm_seal(key@, nonce@, plaintext@)
            && c@.len() == plaintext@.len() + 16),
        plaintext@.len() > AES_GCM_P_MAX ==> (r matches Err(SnapError::Crypto(m)) && m@ == "aead::Error"@),
{
    match aes256gcm_encrypt(key, nonce, plaintext) {
        Ok(c) => Ok(c),
        Err(e) => Err(SnapError::Crypto(aead_error_text(&e))),
    }
}

/// Decrypts with AES-256-GCM.  Fails, with the cipher's error text, exactly
/// when the ciphertext does not authenticate (always when it is shorter than
/// the 16-byte tag).  What `encrypt` made under the same key and nonce
/// decrypts to the plaintext.
pub fn decrypt(key: &[u8; 32], nonce: &[u8; 12], ciphertext: &[u8]) -> (r: Result<Vec<u8>, SnapError>)
    ensures
        aes256gcm_open(key@, nonce@, ciphertext@) matches Some(p) ==> (r matches Ok(q) && q@ == p && q@.len()
            == ciphertext@.len() - 16),
        ciphertext@.len() < 16 ==> (r matches Err(SnapError::Crypto(m)) && m@ == "aead::Error"@),
        aes256gcm_open(key@, nonce@, ciphertext@) is None ==> (r matches Err(SnapError::Crypto(m)) && m@
            == "aead::Error"@),
        forall|p: Seq<u8>|
            p.len() <= AES_GCM_P_MAX && ciphertext@ == #[trigger] aes256gcm_seal(key@, nonce@, p) ==> (r matches Ok(q)
                && q@ == p),
{
    match aes256gcm_decrypt(key, nonce, ciphertext) {
        Ok(p) => Ok(p),
        Err(e) => Err(SnapError::Crypto(aead_error_text(&e))),
    }
}

/// A fresh random 12-byte nonce.
pub fn random_nonce() -> (n: [u8; 12]) {
    random_bytes_12()
}

/// The lowercase hexadecimal digit of a number below 16.
pub open spec fn hex_digit(n: u8) -> char {
    if n < 10 {
        (n + 48) as char
    } else {
        (n + 87) as char
    }
}

/// Bytes written as lowercase hexadecimal, two digits per byte, high digit
/// first.
pub open spec fn hex_lower(data: Seq<u8>) -> Seq<char>
    decreases data.len(),
{
    if data.len() == 0 {
        Seq::empty()
    } else {
        hex_lower(data.drop_last()) + seq![hex_digit(data.last() / 16), hex_digit(data.last() % 16)]
    }
}

/// A character among `0`-`9` and `a`-`f`.
pub open spec fn is_lower_hex_digit(c: char) -> bool {
    ('0' <= c && c <= '9') || ('a' <= c && c <= 'f')
}

/// Lowercase hexadecimal takes two digits per byte, each among `0`-`9` and
/// `a`-`f`.
pub proof fn lemma_hex_lower(data: Seq<u8>)
    ensures
        hex_lower(data).len() == 2 * data.len(),
        forall|i: int| 0 <= i < hex_lower(data).len() ==> is_lower_hex_digit(#[trigger] hex_lower(data)[i]),
    decreases data.len(),
{
    if data.len() > 0 {
        let t = data.drop_last();
        lemma_hex_lower(t);
        let b = data.last();
        let tail = seq![hex_digit(b / 16), hex_digit(b % 16)];
        assert(is_lower_hex_digit(hex_digit(b / 16)));
        assert(is_lower_hex_digit(hex_digit(b % 16)));
        assert forall|i: int| 0 <= i < hex_lower(data).len() implies is_lower_hex_digit(#[trigger] hex_lower(data)[i]) by {
            if i < hex_lower(t).len() {
                assert(hex_lower(data)[i] == hex_lower(t)[i]);
            } else {
                assert(hex_lower(data)[i] == tail[i - hex_lower(t).len()]);
            }
        }
    }
}

fn hex_char(n: u8) -> (c: char)
    requires
        n < 16,
    ensures
        c == hex_digit(n),
{
    if n < 10 {
        (n + 48) as char
    } else {
        (n + 87) as char
    }
}

/// Bytes written as lowercase hexadecimal.
pub fn hex_encode(data: &[u8]) -> (s: String)
    ensures
        s@ == hex_lower(data@),
{
    let mut s = String::new();
    let n = data.len();
    let mut i: usize = 0;
    while i < n
        invariant
            n == data@.len(),
            0 <= i <= n,
            s@ == hex_lower(data@.take(i as int)),
        decreases n - i,
    {
        let b = data[i];
        push_char(&mut s, hex_char(b / 16));
        push_char(&mut s, hex_char(b % 16));
        assert(data@.take(i + 1).drop_last() =~= data@.take(i as int));
        assert(s@ =~= hex_lower(data@.take(i + 1)));
        i = i + 1;
    }
    assert(data@.take(n as int) =~= data@);
    s
}

/// The fingerprint of a verifying key: its SHA-256 digest in lowercase
/// hexadecimal.
pub fn fingerprint(key: &[u8; 32]) -> (s: String)
    ensures
        s@ == hex_lower(sha256(key@)),
        s@.len() == 64,
        forall|i: int| 0 <= i < s@.len() ==> is_lower_hex_digit(#[trigger] s@[i]),
{
    let digest = sha256_digest(key);
    let s = hex_encode(&digest);
    proof {
        lemma_hex_lower(digest@);
    }
    s
}

} // verus!
