//! Digests, public keys and signatures, each held as its fixed-length bytes,
//! with the hashing and Ed25519 verification that they rely on.
use vstd::prelude::*;
use vstd::string::StringExecFns;

use crate::error::Error;

verus! {

/// The SHA-512 digest of a message.
pub uninterp spec fn sha512_of(msg: Seq<u8>) -> Seq<u8>;

/// Relies on `ed25519_dalek::Sha512` (SHA-512 of sha2) through
/// `digest::Digest::digest`: 64 bytes that depend on the message alone.
#[verifier::external_body]
fn sha512(msg: &[u8]) -> (r: [u8; 64])
    ensures
        r@ == sha512_of(msg@),
{
    let out = <ed25519_dalek::Sha512 as digest::Digest>::digest(msg);
    let mut r = [0u8; 64];
    r.copy_from_slice(&out);
    r
}

/// The lowercase hexadecimal digits.
pub open spec fn hex_digits() -> Seq<char> {
    seq!['0', '1', '2', '3', '4', '5', '6', '7', '8', '9', 'a', 'b', 'c', 'd', 'e', 'f']
}

/// Two lowercase hex digits per byte, high nibble first.
pub open spec fn hex_of(b: Seq<u8>) -> Seq<char>
    decreases b.len(),
{
    if b.len() == 0 {
        seq![]
    } else {
        hex_of(b.drop_last()) + seq![
            hex_digits()[(b.last() / 16) as int],
            hex_digits()[(b.last() % 16) as int],
        ]
    }
}

/// Relies on `hex::encode`: two lowercase digits per byte, high nibble first.
#[verifier::external_body]
fn encode_hex(b: &[u8]) -> (r: String)
    ensures
        r@ == hex_of(b@),
{
    hex::encode(b)
}

/// Whether 32 bytes are the compressed form of a point on Curve25519.
pub uninterp spec fn is_curve_point(b: Seq<u8>) -> bool;

/// Relies on `ed25519_dalek::PublicKey::from_bytes`: it accepts exactly the
/// 32-byte strings that decompress to a curve point.
#[verifier::external_body]
fn decodes_as_public_key(b: &[u8]) -> (r: bool)
    ensures
        r == (b@.len() == 32 && is_curve_point(b@)),
{
    ed25519_dalek::PublicKey::from_bytes(b).is_ok()
}

/// Relies on `TryFrom<&[u8]>` of `ed25519_dalek::Signature`: it accepts
/// exactly 64 bytes whose last byte has its three high bits clear.
#[verifier::external_body]
fn decodes_as_signature(b: &[u8]) -> (r: bool)
    ensures
        r == (b@.len() == 64 && b@[63] < 32),
{
    <ed25519_dalek::Signature as core::convert::TryFrom<&[u8]>>::try_from(b).is_ok()
}

/// Whether `sig` is a valid strict Ed25519 signature of `msg` under `key`.
pub uninterp spec fn verifies_strictly(key: Seq<u8>, msg: Seq<u8>, sig: Seq<u8>) -> bool;

/// Relies on `ed25519_dalek::PublicKey::verify_strict`, after decoding the key
/// with `PublicKey::from_bytes` and the signature with `Signature::try_from`;
/// bytes that do not decode verify nothing. The verdict depends on the key,
/// the message and the signature alone.
#[verifier::external_body]
fn verify_strict(key: &[u8; 32], msg: &[u8], sig: &[u8; 64]) -> (r: bool)
    ensures
        r == verifies_strictly(key@, msg@, sig@),
{
    let pk = ed25519_dalek::PublicKey::from_bytes(key);
    let s = <ed25519_dalek::Signature as core::convert::TryFrom<&[u8]>>::try_from(&sig[..]);
    match (pk, s) {
        (Ok(pk), Ok(s)) => pk.verify_strict(msg, &s).is_ok(),
        _ => false,
    }
}

/// Number of bytes of a digest.
pub const HASH_LEN: usize = 64;

/// A SHA-512 digest, also used as channel identifier and nonce.
#[derive(Debug, Clone, Copy, PartialEq, Eq, Hash)]
pub struct Hash(pub [u8; 64]);

impl View for Hash {
    type V = Seq<u8>;

    open spec fn view(&self) -> Seq<u8> {
        self.0@
    }
}

impl Hash {
    /// Byte-wise equality.
    pub fn equals(&self, other: &Hash) -> (r: bool)
        ensures
            r == (self@ == other@),
    {
        let mut i: usize = 0;
        while i < HASH_LEN
            invariant
                i <= HASH_LEN,
                forall|j: int| 0 <= j < i ==> self@[j] == other@[j],
            decreases HASH_LEN - i,
        {
            if self.0[i] != other.0[i] {
                return false;
            }
            i = i + 1;
        }
        assert(self@ =~= other@);
        true
    }

    /// The SHA-512 digest of `msg`.
    pub fn digest(msg: &[u8]) -> (r: Hash)
        ensures
            r@ == sha512_of(msg@),
    {
        Hash(sha512(msg))
    }

    /// Renders the first four bytes as lowercase hex behind `0x`, followed by
    /// an ellipsis; meant for logs, never for comparisons.
    pub fn to_string(&self) -> (r: String)
        ensures
            r@ == seq!['0', 'x'] + hex_of(self@.take(4)) + seq!['\u{2026}'],
    {
        let mut head: Vec<u8> = Vec::new();
        let mut i: usize = 0;
        while i < 4
            invariant
                i <= 4,
                head@ =~= self@.take(i as int),
            decreases 4 - i,
        {
            head.push(self.0[i]);
            i = i + 1;
        }
        let digits = encode_hex(head.as_slice());
        let mut out = String::from_str("0x");
        out.append(digits.as_str());
        out.append("\u{2026}");
        proof {
            reveal_strlit("0x");
            reveal_strlit("\u{2026}");
            assert(out@ =~= seq!['0', 'x'] + hex_of(self@.take(4)) + seq!['\u{2026}']);
        }
        out
    }

    /// Decodes a digest from exactly 64 bytes.
    pub fn from_bytes(b: &[u8]) -> (r: Result<Hash, Error>)
        ensures
            b@.len() == 64 <==> r is Ok,
            r matches Ok(h) ==> h@ == b@,
            r matches Err(e) ==> e == Error::InvalidLength,
    {
        if b.len() != HASH_LEN {
            return Err(Error::InvalidLength);
        }
        let mut a = [0u8; 64];
        let mut i: usize = 0;
        while i < HASH_LEN
            invariant
                i <= HASH_LEN,
                b@.len() == 64,
                forall|j: int| 0 <= j < i ==> a@[j] == b@[j],
            decreases HASH_LEN - i,
        {
            a[i] = b[i];
            i = i + 1;
        }
        assert(a@ =~= b@);
        Ok(Hash(a))
    }
}

/// An Ed25519 public key in its 32-byte compressed form: a layer-2 identity.
#[derive(Debug, Clone, Copy, PartialEq, Eq, Hash)]
pub struct L2Account(pub [u8; 32]);

impl View for L2Account {
    type V = Seq<u8>;

    open spec fn view(&self) -> Seq<u8> {
        self.0@
    }
}

impl L2Account {
    /// Decodes a public key; fails unless the bytes are a valid curve point.
    pub fn from_bytes(b: &[u8]) -> (r: Result<L2Account, Error>)
        ensures
            r is Ok <==> (b@.len() == 32 && is_curve_point(b@)),
            r matches Ok(a) ==> a@ == b@,
            r matches Err(e) ==> e == Error::InvalidKey,
    {
        if !decodes_as_public_key(b) {
            return Err(Error::InvalidKey);
        }
        let mut a = [0u8; 32];
        let mut i: usize = 0;
        while i < 32
            invariant
                i <= 32,
                b@.len() == 32,
                forall|j: int| 0 <= j < i ==> a@[j] == b@[j],
            decreases 32 - i,
        {
            a[i] = b[i];
            i = i + 1;
        }
        assert(a@ =~= b@);
        Ok(L2Account(a))
    }

    /// Whether `sig` is a strict signature of `msg` by this account.
    pub fn verify(&self, msg: &[u8], sig: &L2Signature) -> (r: bool)
        ensures
            r == verifies_strictly(self@, msg@, sig@),
    {
        verify_strict(&self.0, msg, &sig.0)
    }
}

/// An Ed25519 signature in its 64-byte form.
#[derive(Debug, Clone, Copy, PartialEq, Eq)]
pub struct L2Signature(pub [u8; 64]);

impl View for L2Signature {
    type V = Seq<u8>;

    open spec fn view(&self) -> Seq<u8> {
        self.0@
    }
}

impl L2Signature {
    /// Decodes a signature; fails unless it has 64 bytes and its scalar part
    /// passes the partial reduction check.
    pub fn from_bytes(b: &[u8]) -> (r: Result<L2Signature, Error>)
        ensures
            r is Ok <==> (b@.len() == 64 && b@[63] < 32),
            r matches Ok(s) ==> s@ == b@,
            r matches Err(e) ==> e == Error::InvalidSignature,
    {
        if !decodes_as_signature(b) {
            return Err(Error::InvalidSignature);
        }
        let mut a = [0u8; 64];
        let mut i: usize = 0;
        while i < 64
            invariant
                i <= 64,
                b@.len() == 64,
                forall|j: int| 0 <= j < i ==> a@[j] == b@[j],
            decreases 64 - i,
        {
            a[i] = b[i];
            i = i + 1;
        }
        assert(a@ =~= b@);
        Ok(L2Signature(a))
    }
}

} // verus!
