//! Keys and signatures: Ed25519 key pairs, their Base58Check text with a
//! version byte that tells private keys (0) from public keys (1), and the
//! check of a signed challenge.

use crate::error::AppError;
use ed25519_dalek::Signer;
use ed25519_dalek::Verifier;
use rand::RngCore;
use vstd::prelude::*;
use vstd::slice::slice_subrange;
use vstd::slice::slice_to_vec;
use vstd::string::StringExecFns;

verus! {

/// The version byte of a private key text.
pub const PRIVATE_KEY_VERSION: u8 = 0;

/// The version byte of a public key text.
pub const PUBLIC_KEY_VERSION: u8 = 1;

/// The number of bytes of a key, private or public.
pub const KEY_LEN: usize = 32;

/// The number of bytes of a signature.
pub const SIGNATURE_LEN: usize = 64;

/// The Base58 text of a byte string (`bs58::encode(..).into_string()`).
pub uninterp spec fn base58_text(bytes: Seq<u8>) -> Seq<char>;

/// The bytes that a Base58 text stands for (`bs58::decode(..).into_vec()`),
/// if it is one.
pub uninterp spec fn base58_decoded(text: Seq<char>) -> Option<Seq<u8>>;

/// The Base58Check text of a payload under a version byte
/// (`bs58::encode(..).with_check_version(..).into_string()`).
pub uninterp spec fn base58check_text(payload: Seq<u8>, version: u8) -> Seq<char>;

/// What checked decoding gives (`bs58::decode(..).with_check(expected)
/// .into_vec()`): the version byte followed by the payload, if the text is
/// Base58, its checksum holds and, where a version is expected, the first
/// decoded byte is that version.
pub uninterp spec fn base58check_decoded(text: Seq<char>, expected: Option<u8>) -> Option<Seq<u8>>;

/// The public key of a secret key
/// (`SigningKey::from_bytes(..).verifying_key().to_bytes()`).
pub uninterp spec fn ed25519_public_key(secret: Seq<u8>) -> Seq<u8>;

/// The signature of a message under a secret key
/// (`SigningKey::from_bytes(..).sign(..).to_bytes()`).
pub uninterp spec fn ed25519_signature(secret: Seq<u8>, message: Seq<u8>) -> Seq<u8>;

/// Whether 32 bytes are a public key (`VerifyingKey::from_bytes` accepts
/// them).
pub uninterp spec fn ed25519_key_valid(public_key: Seq<u8>) -> bool;

/// Whether a signature verifies for a message under a valid public key
/// (`VerifyingKey::verify` accepts it).
pub uninterp spec fn ed25519_accepts(public_key: Seq<u8>, message: Seq<u8>, signature: Seq<u8>)
    -> bool;

/// Calls `bs58::encode(bytes).into_string()`.
#[verifier::external_body]
fn bs58_encode(bytes: &[u8]) -> (text: String)
    ensures
        text@ == base58_text(bytes@),
{
    bs58::encode(bytes).into_string()
}

/// Calls `bs58::decode(text).into_vec()`.
#[verifier::external_body]
fn bs58_decode(text: &str) -> (r: Result<Vec<u8>, String>)
    ensures
        match r {
            Ok(bytes) => base58_decoded(text@) == Some(bytes@),
            Err(_) => base58_decoded(text@) is None,
        },
{
    match bs58::decode(text).into_vec() {
        Ok(bytes) => Ok(bytes),
        Err(e) => Err(e.to_string()),
    }
}

/// Calls `bs58::encode(payload).with_check_version(version).into_string()`.
/// Checked decoding reads the text back as the version byte followed by the
/// payload, whether it expects that version or none, and refuses it where it
/// expects another version.
#[verifier::external_body]
fn bs58_encode_check(payload: &[u8], version: u8) -> (text: String)
    ensures
        text@ == base58check_text(payload@, version),
        base58check_decoded(text@, None) == Some(seq![version] + payload@),
        forall|v: u8|
            #[trigger] base58check_decoded(text@, Some(v)) == if v == version {
                Some(seq![version] + payload@)
            } else {
                None
            },
{
    bs58::encode(payload).with_check_version(version).into_string()
}

/// Calls `bs58::decode(text).with_check(expected).into_vec()`. On failure
/// the error's own description comes back.
#[verifier::external_body]
fn bs58_decode_check(text: &str, expected: Option<u8>) -> (r: Result<Vec<u8>, String>)
    ensures
        match r {
            Ok(bytes) => base58check_decoded(text@, expected) == Some(bytes@),
            Err(_) => base58check_decoded(text@, expected) is None,
        },
{
    match bs58::decode(text).with_check(expected).into_vec() {
        Ok(bytes) => Ok(bytes),
        Err(e) => Err(e.to_string()),
    }
}

/// Calls `<[u8; 32]>::try_from` on a slice, which succeeds for exactly 32
/// bytes and copies them.
#[verifier::external_body]
fn key_bytes(bytes: &[u8]) -> (r: Option<[u8; 32]>)
    ensures
        r is Some <==> bytes@.len() == 32,
        r matches Some(a) ==> a@ == bytes@,
{
    <[u8; 32]>::try_from(bytes).ok()
}

/// Calls `<[u8; 64]>::try_from` on a slice, which succeeds for exactly 64
/// bytes and copies them.
#[verifier::external_body]
fn signature_bytes(bytes: &[u8]) -> (r: Option<[u8; 64]>)
    ensures
        r is Some <==> bytes@.len() == 64,
        r matches Some(a) ==> a@ == bytes@,
{
    <[u8; 64]>::try_from(bytes).ok()
}

/// Calls `ed25519_dalek::SigningKey::generate` with the operating system's
/// random source. Nothing is promised of the key.
#[verifier::external_body]
fn ed25519_generate() -> (secret: [u8; 32]) {
    ed25519_dalek::SigningKey::generate(&mut rand::rngs::OsRng).to_bytes()
}

/// Calls `SigningKey::from_bytes(secret).verifying_key().to_bytes()`.
#[verifier::external_body]
fn ed25519_derive_public(secret: &[u8; 32]) -> (public_key: [u8; 32])
    ensures
        public_key@ == ed25519_public_key(secret@),
{
    ed25519_dalek::SigningKey::from_bytes(secret).verifying_key().to_bytes()
}

/// Calls `SigningKey::from_bytes(secret).sign(message).to_bytes()`.
#[verifier::external_body]
fn ed25519_sign(secret: &[u8; 32], message: &[u8]) -> (signature: [u8; 64])
    ensures
        signature@ == ed25519_signature(secret@, message@),
{
    ed25519_dalek::SigningKey::from_bytes(secret).sign(message).to_bytes()
}

/// What checking a signature gave.
pub enum SignatureCheck {
    /// The 32 bytes are no public key.
    InvalidKey,
    /// The key is one, and the signature does not verify.
    Rejected,
    /// The signature verifies.
    Accepted,
}

/// Calls `VerifyingKey::from_bytes(public_key)` and, on the key it gives,
/// `verify(message, &Signature::from_bytes(signature))`.
#[verifier::external_body]
fn ed25519_check(
    public_key: &[u8; 32],
    message: &[u8],
    signature: &[u8; 64],
) -> (r: SignatureCheck)
    ensures
        match r {
            SignatureCheck::InvalidKey => !ed25519_key_valid(public_key@),
            SignatureCheck::Rejected => ed25519_key_valid(public_key@) && !ed25519_accepts(
                public_key@,
                message@,
                signature@,
            ),
            SignatureCheck::Accepted => ed25519_key_valid(public_key@) && ed25519_accepts(
                public_key@,
                message@,
                signature@,
            ),
        },
{
    match ed25519_dalek::VerifyingKey::from_bytes(public_key) {
        Ok(key) => match key.verify(message, &ed25519_dalek::Signature::from_bytes(signature)) {
            Ok(_) => SignatureCheck::Accepted,
            Err(_) => SignatureCheck::Rejected,
        },
        Err(_) => SignatureCheck::InvalidKey,
    }
}

/// Calls `rand::thread_rng().fill_bytes` on 32 bytes. Nothing is promised of
/// them.
#[verifier::external_body]
fn random_bytes() -> (bytes: [u8; 32]) {
    let mut bytes = [0u8; 32];
    rand::thread_rng().fill_bytes(&mut bytes);
    bytes
}

/// The key and version that a key text stands for when `expected` is the
/// version asked for: the text must decode with a valid checksum to that
/// version byte followed by the key.
pub open spec fn decoded_key(text: Seq<char>, expected: u8) -> Option<(Seq<u8>, u8)> {
    match base58check_decoded(text, Some(expected)) {
        Some(bytes) => if bytes.len() >= 1 {
            Some((bytes.skip(1), bytes[0]))
        } else {
            None
        },
        None => None,
    }
}

/// Encodes a key as Base58Check text under a version byte. The text decodes
/// to the same key and version when that version is asked for, and to nothing
/// when another is.
pub fn encode_bs58check(key: &[u8], version: u8) -> (text: String)
    ensures
        text@ == base58check_text(key@, version),
        decoded_key(text@, version) == Some((key@, version)),
        forall|other: u8| other != version ==> decoded_key(text@, other) is None,
        base58check_decoded(text@, None) == Some(seq![version] + key@),
{
    let text = bs58_encode_check(key, version);
    proof {
        assert(base58check_decoded(text@, Some(version)) == Some(seq![version] + key@));
        assert((seq![version] + key@).skip(1) =~= key@);
        assert forall|other: u8| other != version implies decoded_key(text@, other) is None by {
            assert(base58check_decoded(text@, Some(other)) is None);
        }
    }
    text
}

/// Decodes a Base58Check key text, asking for a version byte. Fails with an
/// `AuthError` where the text is not Base58, its checksum is wrong, its
/// version byte is another one, or nothing was encoded.
pub fn decode_bs58check(text: &str, expected_version: u8) -> (r: Result<(Vec<u8>, u8), AppError>)
    ensures
        match r {
            Ok((key, version)) => decoded_key(text@, expected_version) == Some((key@, version)),
            Err(e) => decoded_key(text@, expected_version) is None && e is AuthError,
        },
{
    match bs58_decode_check(text, Some(expected_version)) {
        Ok(bytes) => {
            if bytes.len() < 1 {
                return Err(AppError::AuthError(String::from_str("Key text holds no version byte")));
            }
            let version: u8 = bytes[0];
            let key = slice_to_vec(slice_subrange(bytes.as_slice(), 1, bytes.len()));
            assert(bytes@.subrange(1, bytes.len() as int) =~= bytes@.skip(1));
            Ok((key, version))
        },
        Err(reason) => Err(
            AppError::AuthError(
                String::from_str("Invalid key format or checksum: ").concat(reason.as_str()),
            ),
        ),
    }
}

/// Whether `signature` is accepted for `message` under the public key that
/// `public_key_text` encodes: the text decodes under version 1 to 32 bytes
/// that are a public key, the signature has 64 bytes, and it verifies.
pub open spec fn signature_valid(
    public_key_text: Seq<char>,
    message: Seq<u8>,
    signature: Seq<u8>,
) -> bool {
    match decoded_key(public_key_text, PUBLIC_KEY_VERSION) {
        Some((key, _)) => {
            &&& key.len() == 32
            &&& signature.len() == 64
            &&& ed25519_key_valid(key)
            &&& ed25519_accepts(key, message, signature)
        },
        None => false,
    }
}

/// Checks a signature against a public key text. Every failure is an
/// `AuthError`: a bad checksum, a wrong version byte, a wrong key length,
/// bytes that are no key, a malformed signature, a signature that does not
/// verify.
pub fn verify_signature(
    public_key_bs58: &str,
    message: &[u8],
    signature: &[u8],
) -> (r: Result<(), AppError>)
    ensures
        r is Ok <==> signature_valid(public_key_bs58@, message@, signature@),
        r matches Err(e) ==> e is AuthError,
{
    let (key, _) = match decode_bs58check(public_key_bs58, PUBLIC_KEY_VERSION) {
        Ok(pair) => pair,
        Err(e) => {
            return Err(e);
        },
    };
    let key = match key_bytes(key.as_slice()) {
        Some(k) => k,
        None => {
            return Err(
                AppError::AuthError(
                    String::from_str("Invalid public key length. Expected 32 bytes."),
                ),
            );
        },
    };
    let signature = match signature_bytes(signature) {
        Some(s) => s,
        None => {
            return Err(AppError::AuthError(String::from_str("Invalid signature format")));
        },
    };
    match ed25519_check(&key, message, &signature) {
        SignatureCheck::Accepted => Ok(()),
        SignatureCheck::Rejected => Err(
            AppError::AuthError(String::from_str("Signature verification failed")),
        ),
        SignatureCheck::InvalidKey => Err(
            AppError::AuthError(String::from_str("Invalid public key bytes")),
        ),
    }
}

/// An Ed25519 key pair, held as its 32 secret bytes.
pub struct KeyPair {
    pub signing_key: [u8; 32],
}

/// The private key that a key text stands for: it must decode with a valid
/// checksum, start with version byte 0 and hold 32 key bytes.
pub open spec fn decoded_private_key(text: Seq<char>) -> Option<Seq<u8>> {
    match base58check_decoded(text, None) {
        Some(bytes) => if bytes.len() == 33 && bytes[0] == PRIVATE_KEY_VERSION {
            Some(bytes.skip(1))
        } else {
            None
        },
        None => None,
    }
}

impl KeyPair {
    /// A fresh random key pair.
    pub fn new() -> (pair: KeyPair) {
        KeyPair { signing_key: ed25519_generate() }
    }

    /// Reads a private key text. Fails with an `AuthError` where the checksum
    /// is wrong, the version byte is not 0, or the key is not 32 bytes long.
    pub fn from_private_bs58(text: &str) -> (r: Result<KeyPair, AppError>)
        ensures
            match r {
                Ok(pair) => decoded_private_key(text@) == Some(pair.signing_key@),
                Err(e) => decoded_private_key(text@) is None && e is AuthError,
            },
    {
        let bytes = match bs58_decode_check(text, None) {
            Ok(bytes) => bytes,
            Err(reason) => {
                return Err(
                    AppError::AuthError(
                        String::from_str("Invalid private key format or checksum: ").concat(
                            reason.as_str(),
                        ),
                    ),
                );
            },
        };
        if bytes.len() == 0 || bytes[0] != PRIVATE_KEY_VERSION {
            return Err(
                AppError::AuthError(
                    String::from_str("Private key has incorrect version byte. Expected 0."),
                ),
            );
        }
        let rest = slice_subrange(bytes.as_slice(), 1, bytes.len());
        assert(bytes@.subrange(1, bytes.len() as int) =~= bytes@.skip(1));
        match key_bytes(rest) {
            Some(signing_key) => Ok(KeyPair { signing_key }),
            None => Err(
                AppError::AuthError(
                    String::from_str("Private key has incorrect length. Expected 32."),
                ),
            ),
        }
    }

    /// The private key as Base58Check text under version byte 0.
    pub fn private_key_to_bs58(&self) -> (text: String)
        ensures
            text@ == base58check_text(self.signing_key@, PRIVATE_KEY_VERSION),
            decoded_private_key(text@) == Some(self.signing_key@),
            decoded_key(text@, PUBLIC_KEY_VERSION) is None,
    {
        let text = encode_bs58check(self.signing_key.as_slice(), PRIVATE_KEY_VERSION);
        proof {
            let bytes = seq![PRIVATE_KEY_VERSION] + self.signing_key@;
            assert(self.signing_key@.len() == 32);
            assert(bytes.skip(1) =~= self.signing_key@);
        }
        text
    }

    /// The public key as Base58Check text under version byte 1.
    pub fn public_key_to_bs58(&self) -> (text: String)
        ensures
            text@ == base58check_text(ed25519_public_key(self.signing_key@), PUBLIC_KEY_VERSION),
            decoded_key(text@, PUBLIC_KEY_VERSION) == Some(
                (ed25519_public_key(self.signing_key@), PUBLIC_KEY_VERSION),
            ),
            decoded_private_key(text@) is None,
    {
        let public_key = ed25519_derive_public(&self.signing_key);
        let text = encode_bs58check(public_key.as_slice(), PUBLIC_KEY_VERSION);
        proof {
            let bytes = seq![PUBLIC_KEY_VERSION] + public_key@;
            assert(bytes[0] == PUBLIC_KEY_VERSION);
        }
        text
    }

    /// Signs a message.
    pub fn sign(&self, message: &[u8]) -> (signature: Vec<u8>)
        ensures
            signature@ == ed25519_signature(self.signing_key@, message@),
            signature@.len() == 64,
    {
        let signature = ed25519_sign(&self.signing_key, message);
        slice_to_vec(signature.as_slice())
    }
}

/// Thirty-two fresh random bytes for one handshake.
pub fn new_challenge() -> (challenge: Vec<u8>)
    ensures
        challenge@.len() == 32,
{
    let bytes = random_bytes();
    slice_to_vec(bytes.as_slice())
}

/// The Base58 text of a byte string, without checksum.
pub fn encode_bs58(bytes: &[u8]) -> (text: String)
    ensures
        text@ == base58_text(bytes@),
{
    bs58_encode(bytes)
}

/// The bytes of a Base58 text; a `Bs58Error` where the text is not one.
pub fn decode_bs58(text: &str) -> (r: Result<Vec<u8>, AppError>)
    ensures
        match r {
            Ok(bytes) => base58_decoded(text@) == Some(bytes@),
            Err(e) => base58_decoded(text@) is None && e is Bs58Error,
        },
{
    match bs58_decode(text) {
        Ok(bytes) => Ok(bytes),
        Err(reason) => Err(AppError::Bs58Error(reason)),
    }
}

} // verus!
