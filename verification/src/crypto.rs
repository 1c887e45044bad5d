//! Keys in their text forms: public keys as standard base64 with padding,
//! key pairs as PKCS#8 in PEM.

use vstd::prelude::*;
use crate::types::PublicKeyBytes;
use base64::Engine;
use ed25519::pkcs8::{DecodePrivateKey, EncodePrivateKey, KeypairBytes};
use ed25519_dalek::{Keypair, PublicKey, SecretKey};

verus! {

/// `base64::DecodeError`: why the `base64` crate refuses a text.
#[verifier::external_type_specification]
#[verifier::external_body]
pub struct ExDecodeError(base64::DecodeError);

/// The standard base64 text of a byte string, as the `base64` crate writes it.
pub uninterp spec fn spec_base64_encode(bytes: Seq<u8>) -> Seq<char>;

/// The bytes that a standard base64 text stands for, as the `base64` crate
/// reads it; nothing for a text that it refuses.
pub uninterp spec fn spec_base64_decode(text: Seq<char>) -> Option<Seq<u8>>;

/// `base64::engine::general_purpose::STANDARD.encode`: the base64 text of
/// `bytes`. The text depends on the bytes alone.
#[verifier::external_body]
fn base64_encode(bytes: &[u8; 32]) -> (text: String)
    ensures
        text@ == spec_base64_encode(bytes@),
{
    base64::engine::general_purpose::STANDARD.encode(bytes)
}

/// `base64::engine::general_purpose::STANDARD.decode`: the bytes that `text`
/// stands for, or the crate's error for a text that it refuses. Which of the
/// two, and which bytes, depends on the text alone.
#[verifier::external_body]
fn base64_decode(text: &str) -> (bytes: Result<Vec<u8>, base64::DecodeError>)
    ensures
        match bytes {
            Ok(b) => spec_base64_decode(text@) == Some(b@),
            Err(_) => spec_base64_decode(text@) is None,
        },
{
    base64::engine::general_purpose::STANDARD.decode(text)
}

/// Why a text or a byte string is not a key.
#[derive(Debug, Clone, Copy, PartialEq, Eq, Structural)]
pub enum KeyError {
    /// The text is not base64.
    Encoding,
    /// The text stands for this many bytes, not for 32.
    Length(usize),
    /// The text is not a PKCS#8 key pair in PEM, or the key pair cannot be
    /// written as one.
    Pem,
    /// The bytes are no Ed25519 key.
    Key,
}

/// The public key that decoded bytes are, if they are 32.
pub open spec fn spec_key_from_bytes(bytes: Seq<u8>) -> Result<Seq<u8>, KeyError> {
    if bytes.len() == 32 {
        Ok(bytes)
    } else {
        Err(KeyError::Length(bytes.len() as usize))
    }
}

/// The public key that a text stands for.
pub open spec fn spec_publickey_from_base64(text: Seq<char>) -> Result<Seq<u8>, KeyError> {
    match spec_base64_decode(text) {
        None => Err(KeyError::Encoding),
        Some(bytes) => spec_key_from_bytes(bytes),
    }
}

/// The text form of a public key.
pub fn publickey_to_base64(pubkey: PublicKeyBytes) -> (text: String)
    ensures
        text@ == spec_base64_encode(pubkey@),
{
    base64_encode(&pubkey)
}

/// The public key that decoded bytes are: they must be 32.
pub fn publickey_from_bytes(bytes: &Vec<u8>) -> (key: Result<PublicKeyBytes, KeyError>)
    ensures
        match key {
            Ok(k) => spec_key_from_bytes(bytes@) == Ok::<Seq<u8>, KeyError>(k@),
            Err(e) => spec_key_from_bytes(bytes@) == Err::<Seq<u8>, KeyError>(e),
        },
{
    if bytes.len() != 32 {
        return Err(KeyError::Length(bytes.len()));
    }
    let mut key = [0u8;32];
    let mut i: usize = 0;
    while i < 32
        invariant
            i <= 32,
            bytes.len() == 32,
            forall|j: int| 0 <= j < i ==> key[j] == bytes[j],
        decreases 32 - i,
    {
        key[i] = bytes[i];
        i += 1;
    }
    assert(key@ =~= bytes@);
    Ok(key)
}

/// Reads a public key from its text form. The text must be base64 and stand
/// for 32 bytes.
pub fn publickey_from_base64(b64: &str) -> (key: Result<PublicKeyBytes, KeyError>)
    ensures
        match key {
            Ok(k) => spec_publickey_from_base64(b64@) == Ok::<Seq<u8>, KeyError>(k@),
            Err(e) => spec_publickey_from_base64(b64@) == Err::<Seq<u8>, KeyError>(e),
        },
{
    match base64_decode(b64) {
        Err(_) => Err(KeyError::Encoding),
        Ok(bytes) => publickey_from_bytes(&bytes),
    }
}

/// `ed25519_dalek::Keypair`: a secret key with its public key.
#[verifier::external_type_specification]
#[verifier::external_body]
pub struct ExKeypair(ed25519_dalek::Keypair);

/// `ed25519::pkcs8::KeypairBytes`: the bytes of a secret key and, where it is
/// there, of its public key.
#[verifier::external_type_specification]
#[verifier::external_body]
pub struct ExKeypairBytes(ed25519::pkcs8::KeypairBytes);

/// `ed25519_dalek::SignatureError`: why bytes are no Ed25519 key.
#[verifier::external_type_specification]
#[verifier::external_body]
pub struct ExSignatureError(ed25519_dalek::SignatureError);

/// `pkcs8::Error`: why a text is no PKCS#8 key or a key cannot be written as
/// one.
#[verifier::external_type_specification]
#[verifier::external_body]
pub struct ExPkcs8Error(pkcs8::Error);

/// What a key pair holds: the bytes of its secret key and those of its
/// public key.
pub uninterp spec fn spec_keypair_halves(keypair: Keypair) -> (Seq<u8>, Seq<u8>);

/// What the bytes of a key pair hold: the secret key, and the public key
/// where they carry it.
pub uninterp spec fn spec_keypair_bytes(kpb: KeypairBytes) -> (Seq<u8>, Option<Seq<u8>>);

/// The public key that `ed25519_dalek` derives from a secret key.
pub uninterp spec fn spec_public_of_secret(secret: Seq<u8>) -> Seq<u8>;

/// Whether `ed25519_dalek` takes the bytes for a public key: whether they are
/// a point of the curve in its compressed form.
pub uninterp spec fn spec_is_public_key(public: Seq<u8>) -> bool;

/// The PKCS#8 text in PEM, with line feeds, of a secret key and the public
/// key that goes with it, as the `pkcs8` crate writes it; nothing where it
/// cannot be written.
pub uninterp spec fn spec_pem_encode(secret: Seq<u8>, public: Option<Seq<u8>>) -> Option<Seq<char>>;

/// The secret key, and the public key where there is one, that a PKCS#8 text
/// in PEM holds, as the `pkcs8` crate reads it; nothing for a text that it
/// refuses.
pub uninterp spec fn spec_pem_decode(text: Seq<char>) -> Option<(Seq<u8>, Option<Seq<u8>>)>;

/// The bytes of a public key that may be missing.
pub open spec fn spec_key_view(key: Option<[u8; 32]>) -> Option<Seq<u8>> {
    match key {
        Some(k) => Some(k@),
        None => None,
    }
}

/// The halves of the key pair that a secret key and, where there is one, a
/// public key make: a missing public key is derived from the secret one, and
/// one that is given must be a public key.
pub open spec fn spec_keypair_from_parts(secret: Seq<u8>, public: Option<Seq<u8>>) -> Result<
    (Seq<u8>, Seq<u8>),
    KeyError,
> {
    match public {
        None => Ok((secret, spec_public_of_secret(secret))),
        Some(p) => if spec_is_public_key(p) {
            Ok((secret, p))
        } else {
            Err(KeyError::Key)
        },
    }
}

/// The halves of the key pair that a PKCS#8 text in PEM holds.
pub open spec fn spec_keypair_from_pem(text: Seq<char>) -> Result<(Seq<u8>, Seq<u8>), KeyError> {
    match spec_pem_decode(text) {
        None => Err(KeyError::Pem),
        Some(parts) => spec_keypair_from_parts(parts.0, parts.1),
    }
}

/// `ed25519_dalek::Keypair::generate` with `rand::rngs::OsRng`: a fresh key
/// pair from the system's random source. Nothing is known of its secret key;
/// its public key is the one derived from the secret key.
#[verifier::external_body]
pub fn generate_keypair() -> (keypair: Keypair)
    ensures
        spec_keypair_halves(keypair).1 == spec_public_of_secret(spec_keypair_halves(keypair).0),
{
    let mut rng = rand::rngs::OsRng {  };
    Keypair::generate(&mut rng)
}

/// `ed25519_dalek::SecretKey::to_bytes` and `PublicKey::to_bytes`: the two
/// halves of a key pair as bytes, the public half always present.
#[verifier::external_body]
pub fn keypair_to_bytes(keypair: Keypair) -> (kpb: KeypairBytes)
    ensures
        spec_keypair_bytes(kpb).0 == spec_keypair_halves(keypair).0,
        spec_keypair_bytes(kpb).1 == Some(spec_keypair_halves(keypair).1),
{
    KeypairBytes {
        secret_key: keypair.secret.to_bytes(),
        public_key: Some(keypair.public.to_bytes()),
    }
}

/// The fields of `ed25519::pkcs8::KeypairBytes`: the secret key, and the
/// public key where the bytes carry it.
#[verifier::external_body]
fn keypair_bytes_parts(kpb: &KeypairBytes) -> (parts: ([u8; 32], Option<[u8; 32]>))
    ensures
        parts.0@ == spec_keypair_bytes(*kpb).0,
        spec_key_view(parts.1) == spec_keypair_bytes(*kpb).1,
{
    (kpb.secret_key, kpb.public_key)
}

/// `ed25519_dalek::SecretKey::from_bytes` and `PublicKey::from`: the key pair
/// of a secret key, its public half derived from the secret one. Every 32
/// bytes are taken for a secret key, and the pair holds them as they are.
#[verifier::external_body]
fn keypair_from_secret(secret: &[u8; 32]) -> (made: Result<Keypair, ed25519_dalek::SignatureError>)
    ensures
        made is Ok,
        made matches Ok(k) ==> spec_keypair_halves(k).0 == secret@ && spec_keypair_halves(k).1
            == spec_public_of_secret(secret@),
{
    let secret = SecretKey::from_bytes(secret)?;
    let public = PublicKey::from(&secret);
    Ok(Keypair { secret, public })
}

/// `ed25519_dalek::SecretKey::from_bytes` and `PublicKey::from_bytes`: the
/// key pair of a secret and a public key, which holds both as they are, or
/// the crate's error where the public key is none.
#[verifier::external_body]
fn keypair_from_halves(secret: &[u8; 32], public: &[u8; 32]) -> (made: Result<
    Keypair,
    ed25519_dalek::SignatureError,
>)
    ensures
        match made {
            Ok(k) => spec_is_public_key(public@) && spec_keypair_halves(k).0 == secret@
                && spec_keypair_halves(k).1 == public@,
            Err(_) => !spec_is_public_key(public@),
        },
{
    let secret = SecretKey::from_bytes(secret)?;
    let public = PublicKey::from_bytes(public)?;
    Ok(Keypair { secret, public })
}

/// `pkcs8::EncodePrivateKey::to_pkcs8_pem` with line feeds as line endings:
/// the key pair as PKCS#8 in PEM, or the crate's error. Which of the two, and
/// which text, depends on the two keys alone.
#[verifier::external_body]
fn keypair_bytes_to_pem(kpb: &KeypairBytes) -> (pem: Result<String, pkcs8::Error>)
    ensures
        match pem {
            Ok(text) => spec_pem_encode(spec_keypair_bytes(*kpb).0, spec_keypair_bytes(*kpb).1)
                == Some(text@),
            Err(_) => spec_pem_encode(spec_keypair_bytes(*kpb).0, spec_keypair_bytes(*kpb).1)
                is None,
        },
{
    kpb.to_pkcs8_pem(pkcs8::LineEnding::LF).map(|pem| pem.to_string())
}

/// `pkcs8::DecodePrivateKey::from_pkcs8_pem`: the key pair that a PEM text
/// holds, or the crate's error. Which of the two, and which keys, depends on
/// the text alone.
#[verifier::external_body]
fn keypair_bytes_from_pem(pem: &str) -> (kpb: Result<KeypairBytes, pkcs8::Error>)
    ensures
        match kpb {
            Ok(k) => spec_pem_decode(pem@) == Some(spec_keypair_bytes(k)),
            Err(_) => spec_pem_decode(pem@) is None,
        },
{
    KeypairBytes::from_pkcs8_pem(pem)
}

/// The key pair that the bytes of its halves stand for. Where the bytes carry
/// no public key, it is derived from the secret one; where they carry one, it
/// must be a public key, and the pair holds it as it is.
pub fn keypair_from_bytes(kpb: KeypairBytes) -> (keypair: Result<Keypair, KeyError>)
    ensures
        match keypair {
            Ok(k) => spec_keypair_from_parts(spec_keypair_bytes(kpb).0, spec_keypair_bytes(kpb).1)
                == Ok::<(Seq<u8>, Seq<u8>), KeyError>(spec_keypair_halves(k)),
            Err(e) => spec_keypair_from_parts(
                spec_keypair_bytes(kpb).0,
                spec_keypair_bytes(kpb).1,
            ) == Err::<(Seq<u8>, Seq<u8>), KeyError>(e),
        },
{
    let (secret, public) = keypair_bytes_parts(&kpb);
    let made = match public {
        Some(public) => keypair_from_halves(&secret, &public),
        None => keypair_from_secret(&secret),
    };
    match made {
        Ok(keypair) => Ok(keypair),
        Err(_) => Err(KeyError::Key),
    }
}

/// A key pair as PKCS#8 in PEM: the text that holds its secret key and its
/// public key.
pub fn keypair_to_pem(keypair: Keypair) -> (pem: Result<String, KeyError>)
    ensures
        match pem {
            Ok(text) => spec_pem_encode(
                spec_keypair_halves(keypair).0,
                Some(spec_keypair_halves(keypair).1),
            ) == Some(text@),
            Err(e) => e == KeyError::Pem && spec_pem_encode(
                spec_keypair_halves(keypair).0,
                Some(spec_keypair_halves(keypair).1),
            ) is None,
        },
{
    let kpb = keypair_to_bytes(keypair);
    match keypair_bytes_to_pem(&kpb) {
        Ok(pem) => Ok(pem),
        Err(_) => Err(KeyError::Pem),
    }
}

/// The key pair that a PKCS#8 text in PEM holds: the text must hold a secret
/// key, and a public key that it holds must be one.
pub fn keypair_from_pem(pem: &str) -> (keypair: Result<Keypair, KeyError>)
    ensures
        match keypair {
            Ok(k) => spec_keypair_from_pem(pem@) == Ok::<(Seq<u8>, Seq<u8>), KeyError>(
                spec_keypair_halves(k),
            ),
            Err(e) => spec_keypair_from_pem(pem@) == Err::<(Seq<u8>, Seq<u8>), KeyError>(e),
        },
{
    match keypair_bytes_from_pem(pem) {
        Ok(kpb) => keypair_from_bytes(kpb),
        Err(_) => Err(KeyError::Pem),
    }
}

} // verus!
