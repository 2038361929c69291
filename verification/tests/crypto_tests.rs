use snaplan::crypto::{
    decrypt, derive_session_key, derive_shared_secret, encrypt, fingerprint, generate_identity_keypair,
    generate_session_keypair, hex_encode, random_nonce, sign, verify,
};
use snaplan::core_errors::SnapError;
use snaplan::handshake::Handshake;

fn bytes_of(hex: &str) -> Vec<u8> {
    (0..hex.len() / 2).map(|i| u8::from_str_radix(&hex[2 * i..2 * i + 2], 16).unwrap()).collect()
}

fn array32(hex: &str) -> [u8; 32] {
    let v = bytes_of(hex);
    let mut a = [0u8; 32];
    a.copy_from_slice(&v);
    a
}

#[test]
fn hex_encode_writes_lowercase_pairs() {
    assert_eq!(hex_encode(&[0x00, 0x0f, 0xa5, 0xff]), "000fa5ff");
    assert_eq!(hex_encode(&[]), "");
}

#[test]
fn fingerprint_is_sha256_in_hex() {
    assert_eq!(
        fingerprint(&[0u8; 32]),
        "66687aadf862bd776c8fc18b8e9f8e20089714856ee233b3902a591d0d5f2925"
    );
    assert_eq!(fingerprint(&[7u8; 32]).len(), 64);
}

#[test]
fn ed25519_signature_matches_rfc8032_vector() {
    let secret = array32("9d61b19deffd5a60ba844af492ec2cc44449c5697b326919703bac031cae7f60");
    let public = array32("d75a980182b10ab7d54bfed3c964073a0ee172f3daa62325af021a68f707511a");
    let sig = sign(&secret, &[]);
    assert_eq!(
        sig.to_vec(),
        bytes_of("e5564300c360ac729086e2cc806e828a84877f1eb8e5d974d873e065224901555fb8821590a33bacc61e39701cf9b46bd25bf5f0595bbe24655141438e7a100b")
    );
    assert!(verify(&public, &[], &sig));
    let sig2 = sign(&secret, b"snaplan");
    assert_eq!(
        sig2.to_vec(),
        bytes_of("e54355eaf1652f78ea3054ebb68fb20e2b0fc18f0056ba6c6229a27520bab2bf2d22d8edf18cffb400a81f9265254b77e876c6c09ccefea27b9a29a9ea6bf706")
    );
}

#[test]
fn verify_rejects_other_message_and_bad_key() {
    let (secret, public) = generate_identity_keypair();
    let sig = sign(&secret, b"hello");
    assert!(verify(&public, b"hello", &sig));
    assert!(!verify(&public, b"hellO", &sig));
    let (_, other_public) = generate_identity_keypair();
    assert!(!verify(&other_public, b"hello", &sig));
}

#[test]
fn x25519_shared_secret_matches_rfc7748_vector() {
    let alice = array32("77076d0a7318a57d3c16c17251b26645df4c2f87ebc0992ab177fba51db92c2a");
    let bob = array32("5dab087e624a8a4b79e17f8b83800ee66f3bb1292618b6fd1c2f8b27ff88e0eb");
    let bob_public = array32("de9edb7d7b7dc1b4d35b61c2ece435373f8343c85b78674dadfc7e146f882b4f");
    let alice_public = array32("8520f0098930a754748b7ddcb43ef75a0dbf3a0d26381af4eba4a98eaa9b4e6a");
    let expected = bytes_of("4a5d9d5ba4ce2de1728e3bf480350f25e07e21c947d19e3376f09b3c1e161742");
    assert_eq!(derive_shared_secret(&alice, &bob_public).to_vec(), expected);
    assert_eq!(derive_shared_secret(&bob, &alice_public).to_vec(), expected);
}

#[test]
fn session_keypairs_agree() {
    let (a_secret, a_public) = generate_session_keypair();
    let (b_secret, b_public) = generate_session_keypair();
    assert_eq!(derive_shared_secret(&a_secret, &b_public), derive_shared_secret(&b_secret, &a_public));
}

#[test]
fn session_key_is_hkdf_of_shared_secret() {
    let ikm: Vec<u8> = (0u8..32).collect();
    assert_eq!(
        derive_session_key(&ikm).to_vec(),
        bytes_of("81beef3310d26cc3297faac6eb1bd994b7650a4042eee8ea48078503625e44ca")
    );
}

#[test]
fn handshakes_derive_the_same_key() {
    let a = Handshake::new();
    let b = Handshake::new();
    let ka = a.create_shared_key(&b.public_key());
    let kb = b.create_shared_key(&a.public_key());
    assert_eq!(ka, kb);
    let c = Handshake::new();
    assert_ne!(ka, a.create_shared_key(&c.public_key()));
}

#[test]
fn encrypt_matches_aes256gcm_vector() {
    let key: [u8; 32] = core::array::from_fn(|i| i as u8);
    let nonce: [u8; 12] = core::array::from_fn(|i| i as u8);
    let c = encrypt(&key, &nonce, b"hello snaplan").unwrap();
    assert_eq!(c, bytes_of("2f67ba77aac5b175ec31fbeadf85d856d612cfeccb838aee5d0f1c6645"));
}

#[test]
fn decrypt_undoes_encrypt() {
    let key = [9u8; 32];
    let nonce = random_nonce();
    let plaintext = b"a file chunk".to_vec();
    let c = encrypt(&key, &nonce, &plaintext).unwrap();
    assert_eq!(c.len(), plaintext.len() + 16);
    assert_eq!(decrypt(&key, &nonce, &c).unwrap(), plaintext);
}

#[test]
fn decrypt_rejects_tampered_ciphertext() {
    let key = [3u8; 32];
    let nonce = [1u8; 12];
    let mut c = encrypt(&key, &nonce, b"secret").unwrap();
    c[0] ^= 1;
    match decrypt(&key, &nonce, &c) {
        Err(SnapError::Crypto(m)) => assert_eq!(m, "aead::Error"),
        _ => panic!("tampered ciphertext accepted"),
    }
    let c2 = encrypt(&key, &nonce, b"secret").unwrap();
    assert!(decrypt(&[4u8; 32], &nonce, &c2).is_err());
}

#[test]
fn decrypt_refuses_text_shorter_than_tag() {
    match decrypt(&[1u8; 32], &[2u8; 12], &[0u8; 5]) {
        Err(SnapError::Crypto(m)) => assert_eq!(m, "aead::Error"),
        _ => panic!("short ciphertext accepted"),
    }
}

#[test]
fn fingerprint_is_lowercase_hex() {
    let f = fingerprint(&[0xabu8; 32]);
    assert_eq!(f.len(), 64);
    assert!(f.chars().all(|c| c.is_ascii_digit() || ('a'..='f').contains(&c)));
}
