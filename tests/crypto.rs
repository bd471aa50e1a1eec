use ed25519_dalek::Signer;
use perun::crypto::{L2Account, L2Signature};
use perun::error::Error;

#[test]
fn digest_is_sha512() {
    let h = perun::crypto::Hash::digest(b"abc");
    assert_eq!(
        hex::encode(h.0),
        "ddaf35a193617abacc417349ae20413112e6fa4e89a97ea20a9eeee64b55d39a2192992a274fc1a836ba3c23a3feebbd454d4423643ce80e2a9ac94fa54ca49f"
    );
}

#[test]
fn hash_display_shows_first_four_bytes() {
    let h = perun::crypto::Hash::digest(b"abc");
    assert_eq!(h.to_string(), "0xddaf35a1\u{2026}");
    let mut raw = [0u8; 64];
    raw[0] = 0x0a;
    raw[3] = 0xf0;
    raw[4] = 0xff;
    assert_eq!(perun::crypto::Hash(raw).to_string(), "0x0a0000f0\u{2026}");
}

#[test]
fn hash_from_bytes_checks_length() {
    let bytes = vec![5u8; 64];
    assert_eq!(perun::crypto::Hash::from_bytes(&bytes).unwrap(), perun::crypto::Hash([5u8; 64]));
    assert_eq!(perun::crypto::Hash::from_bytes(&bytes[..63]), Err(Error::InvalidLength));
    assert_eq!(perun::crypto::Hash::from_bytes(&[5u8; 65]), Err(Error::InvalidLength));
    assert_eq!(perun::crypto::Hash::from_bytes(&[]), Err(Error::InvalidLength));
}

#[test]
fn hash_equals_is_bytewise() {
    let a = perun::crypto::Hash([1u8; 64]);
    let mut raw = [1u8; 64];
    assert!(a.equals(&perun::crypto::Hash(raw)));
    raw[63] = 2;
    assert!(!a.equals(&perun::crypto::Hash(raw)));
}

#[test]
fn account_from_bytes_rejects_bad_keys() {
    let secret = ed25519_dalek::SecretKey::from_bytes(&[3u8; 32]).unwrap();
    let public: ed25519_dalek::PublicKey = (&secret).into();
    let acc = L2Account::from_bytes(&public.to_bytes()).unwrap();
    assert_eq!(acc.0, public.to_bytes());
    assert_eq!(L2Account::from_bytes(&public.to_bytes()[..31]), Err(Error::InvalidKey));
    assert_eq!(L2Account::from_bytes(&[0u8; 33]), Err(Error::InvalidKey));
}

#[test]
fn signature_from_bytes_checks_structure() {
    let ok = [0u8; 64];
    assert_eq!(L2Signature::from_bytes(&ok), Ok(L2Signature(ok)));
    let mut high = [0u8; 64];
    high[63] = 0x20;
    assert_eq!(L2Signature::from_bytes(&high), Err(Error::InvalidSignature));
    high[63] = 0x1f;
    assert!(L2Signature::from_bytes(&high).is_ok());
    assert_eq!(L2Signature::from_bytes(&ok[..63]), Err(Error::InvalidSignature));
}

#[test]
fn verify_rejects_wrong_message() {
    let secret = ed25519_dalek::SecretKey::from_bytes(&[4u8; 32]).unwrap();
    let public: ed25519_dalek::PublicKey = (&secret).into();
    let kp = ed25519_dalek::Keypair { secret, public };
    let acc = L2Account::from_bytes(&public.to_bytes()).unwrap();
    let sig = L2Signature::from_bytes(&kp.sign(b"hello").to_bytes()).unwrap();
    assert!(acc.verify(b"hello", &sig));
    assert!(!acc.verify(b"hellp", &sig));
}
