//! Password-based authenticated encryption of byte payloads.
//!
//! A payload is sealed as `salt[16] || nonce[12] || ciphertext`, where
//! the ciphertext is the AES-256-GCM sealing of the plaintext (16-byte
//! tag included) under a key derived from the password and the salt by
//! PBKDF2-HMAC-SHA-256. Salt and nonce are fresh per encryption, so a
//! key and nonce are never reused. The caller reads the source file,
//! seals or opens the bytes here, writes the output file, and only then
//! deletes the source — a crash can leave an extra copy, never fewer.

use vstd::prelude::*;
use aes_gcm::aead::{Aead, KeyInit};
use rand::RngCore;
use crate::errors::{ErrorKind, FsError};

verus! {

/// PBKDF2 iteration count: deliberately expensive, to resist offline
/// brute force.
pub const PBKDF2_ITERATIONS: u32 = 100000;

/// What PBKDF2-HMAC-SHA-256 derives (32 bytes) from a password, salt
/// and iteration count.
pub uninterp spec fn pbkdf2_key(password: Seq<char>, salt: Seq<u8>, rounds: u32) -> Seq<u8>;

/// What AES-256-GCM sealing produces from a 32-byte key, 12-byte nonce
/// and a plaintext: the ciphertext with its 16-byte tag.
pub uninterp spec fn aead_seal(key: Seq<u8>, nonce: Seq<u8>, plaintext: Seq<u8>) -> Seq<u8>;

/// Relies on rand's `thread_rng` and `RngCore::fill_bytes` for fresh
/// cryptographically random bytes; nothing is assumed of the values
/// beyond their number.
#[verifier::external_body]
fn random_bytes(n: usize) -> (r: Vec<u8>)
    ensures
        r@.len() == n,
{
    let mut buf = vec![0u8; n];
    rand::thread_rng().fill_bytes(&mut buf);
    buf
}

/// Relies on pbkdf2's `pbkdf2_hmac` with SHA-256: it fills the 32-byte
/// buffer with a function of the password bytes, the salt and the
/// iteration count alone, here named `pbkdf2_key`.
#[verifier::external_body]
fn pbkdf2_sha256(password: &str, salt: &Vec<u8>, rounds: u32) -> (r: Vec<u8>)
    ensures
        r@ == pbkdf2_key(password@, salt@, rounds),
        r@.len() == 32,
{
    let mut key = [0u8; 32];
    pbkdf2::pbkdf2_hmac::<sha2::Sha256>(password.as_bytes(), salt.as_slice(), rounds, &mut key);
    key.to_vec()
}

/// Relies on aes_gcm's `Aes256Gcm` (`new_from_slice`, `Aead::encrypt`):
/// for a 32-byte key and 12-byte nonce the ciphertext is a function of
/// key, nonce and plaintext alone, here named `aead_seal`, and is the
/// plaintext length plus the 16-byte tag. The one failure is a
/// plaintext beyond the cipher's 2^36-byte limit, so success is owed
/// below it.
#[verifier::external_body]
fn aes256_gcm_encrypt(key: &Vec<u8>, nonce: &Vec<u8>, plaintext: &Vec<u8>) -> (r: Option<Vec<u8>>)
    requires
        key@.len() == 32,
        nonce@.len() == 12,
    ensures
        r is Some ==> r->Some_0@ == aead_seal(key@, nonce@, plaintext@) && r->Some_0@.len()
            == plaintext@.len() + 16,
        plaintext@.len() <= 0x10_0000_0000 ==> r is Some,
{
    let cipher = match aes_gcm::Aes256Gcm::new_from_slice(key.as_slice()) {
        Ok(c) => c,
        Err(_) => {
            return None;
        },
    };
    let nonce = aes_gcm::Nonce::from_slice(nonce.as_slice());
    cipher.encrypt(nonce, plaintext.as_slice()).ok()
}

/// Relies on aes_gcm's `Aes256Gcm` (`new_from_slice`, `Aead::decrypt`):
/// decryption returns the unique plaintext whose sealing under the same
/// key and nonce gives the ciphertext, and fails — tag verification —
/// exactly when no plaintext does.
#[verifier::external_body]
fn aes256_gcm_decrypt(key: &Vec<u8>, nonce: &Vec<u8>, ciphertext: &Vec<u8>) -> (r: Option<
    Vec<u8>,
>)
    requires
        key@.len() == 32,
        nonce@.len() == 12,
    ensures
        r is Some ==> ciphertext@ == aead_seal(key@, nonce@, r->Some_0@),
        forall|p: Seq<u8>| ciphertext@ == aead_seal(key@, nonce@, p) ==> r is Some
            && r->Some_0@ == p,
{
    let cipher = match aes_gcm::Aes256Gcm::new_from_slice(key.as_slice()) {
        Ok(c) => c,
        Err(_) => {
            return None;
        },
    };
    let nonce = aes_gcm::Nonce::from_slice(nonce.as_slice());
    cipher.decrypt(nonce, ciphertext.as_slice()).ok()
}

fn sub_vec(data: &Vec<u8>, from: usize, to: usize) -> (r: Vec<u8>)
    requires
        from <= to <= data@.len(),
    ensures
        r@ == data@.subrange(from as int, to as int),
{
    let mut r: Vec<u8> = Vec::new();
    let mut i: usize = from;
    while i < to
        invariant
            from <= i <= to <= data@.len(),
            r@ =~= data@.subrange(from as int, i as int),
        decreases to - i,
    {
        r.push(data[i]);
        proof {
            assert(r@ =~= data@.subrange(from as int, i as int + 1));
        }
        i += 1;
    }
    proof {
        assert(r@ =~= data@.subrange(from as int, to as int));
    }
    r
}

/// The sealed payload for a plaintext, password, salt and nonce:
/// `salt || nonce || ciphertext`.
pub open spec fn sealed_payload(
    plaintext: Seq<u8>,
    password: Seq<char>,
    salt: Seq<u8>,
    nonce: Seq<u8>,
) -> Seq<u8> {
    salt + nonce + aead_seal(pbkdf2_key(password, salt, PBKDF2_ITERATIONS), nonce, plaintext)
}

/// `data` is a well-formed encrypted payload that `password` opens to
/// plaintext `pt`: long enough for its salt and nonce, with a
/// ciphertext that is exactly the sealing of `pt` under the re-derived
/// key.
pub open spec fn opens_to(data: Seq<u8>, password: Seq<char>, pt: Seq<u8>) -> bool {
    data.len() >= 28 && aead_seal(
        pbkdf2_key(password, data.subrange(0, 16), PBKDF2_ITERATIONS),
        data.subrange(16, 28),
        pt,
    ) == data.skip(28)
}

/// Seals `plaintext` under `password` with the given fresh 16-byte salt
/// and 12-byte nonce. On success the payload is exactly
/// `salt || nonce || ciphertext`. Success is owed up to the cipher's
/// 2^36-byte plaintext limit; beyond it the sealing is refused as `Io`.
pub fn encrypt_core(plaintext: &Vec<u8>, password: &str, salt: &Vec<u8>, nonce: &Vec<u8>) -> (r:
    Result<Vec<u8>, FsError>)
    requires
        salt@.len() == 16,
        nonce@.len() == 12,
    ensures
        r is Ok ==> r->Ok_0@ == sealed_payload(plaintext@, password@, salt@, nonce@),
        r is Ok ==> r->Ok_0@.len() == 28 + plaintext@.len() + 16,
        plaintext@.len() <= 0x10_0000_0000 ==> r is Ok,
        r is Err ==> r->Err_0.kind == ErrorKind::Io,
{
    let key = pbkdf2_sha256(password, salt, PBKDF2_ITERATIONS);
    match aes256_gcm_encrypt(&key, nonce, plaintext) {
        None => Err(FsError::new(ErrorKind::Io, "Encryption failed")),
        Some(ct) => {
            let mut out: Vec<u8> = Vec::new();
            out.extend_from_slice(salt.as_slice());
            out.extend_from_slice(nonce.as_slice());
            out.extend_from_slice(ct.as_slice());
            proof {
                assert(out@ =~= salt@ + nonce@ + ct@);
            }
            Ok(out)
        },
    }
}

/// Seals `plaintext` under `password` with a fresh random 16-byte salt
/// and 12-byte nonce. Success is owed up to the cipher's 2^36-byte
/// plaintext limit.
pub fn encrypt_payload(plaintext: &Vec<u8>, password: &str) -> (r: Result<Vec<u8>, FsError>)
    ensures
        r is Ok ==> exists|salt: Seq<u8>, nonce: Seq<u8>|
            salt.len() == 16 && nonce.len() == 12 && r->Ok_0@ == #[trigger] sealed_payload(
                plaintext@,
                password@,
                salt,
                nonce,
            ),
        r is Ok ==> r->Ok_0@.len() == 28 + plaintext@.len() + 16,
        plaintext@.len() <= 0x10_0000_0000 ==> r is Ok,
        r is Err ==> r->Err_0.kind == ErrorKind::Io,
{
    let salt = random_bytes(16);
    let nonce = random_bytes(12);
    let r = encrypt_core(plaintext, password, &salt, &nonce);
    proof {
        if r is Ok {
            assert(r->Ok_0@ == sealed_payload(plaintext@, password@, salt@, nonce@));
        }
    }
    r
}

/// Opens an encrypted payload. Exactly the payloads shorter than the
/// 28-byte header are refused as `InvalidFormat`; of the rest, exactly
/// those that no plaintext seals to — under the key derived from
/// `password` and the payload's own salt — are refused as
/// `AuthenticationFailed`; otherwise the unique plaintext is returned.
/// The input is only read, never changed, and no partial plaintext is
/// ever returned.
pub fn decrypt_core(data: &Vec<u8>, password: &str) -> (r: Result<Vec<u8>, FsError>)
    ensures
        r is Ok ==> opens_to(data@, password@, r->Ok_0@),
        forall|pt: Seq<u8>| opens_to(data@, password@, pt) ==> r is Ok && r->Ok_0@ == pt,
        (r is Err && r->Err_0.kind == ErrorKind::InvalidFormat) <==> data@.len() < 28,
        (r is Err && r->Err_0.kind == ErrorKind::AuthenticationFailed) <==> (data@.len() >= 28
            && !(exists|pt: Seq<u8>| opens_to(data@, password@, pt))),
        r is Err ==> (r->Err_0.kind == ErrorKind::InvalidFormat || r->Err_0.kind
            == ErrorKind::AuthenticationFailed),
{
    let n = data.len();
    if n < 28 {
        return Err(FsError::new(ErrorKind::InvalidFormat, "Invalid encrypted file"));
    }
    let salt = sub_vec(data, 0, 16);
    let nonce = sub_vec(data, 16, 28);
    let ct = sub_vec(data, 28, n);
    let key = pbkdf2_sha256(password, &salt, PBKDF2_ITERATIONS);
    proof {
        assert(ct@ =~= data@.skip(28));
    }
    match aes256_gcm_decrypt(&key, &nonce, &ct) {
        Some(pt) => {
            proof {
                assert(opens_to(data@, password@, pt@));
                assert forall|q: Seq<u8>| opens_to(data@, password@, q) implies q == pt@ by {
                    assert(ct@ == aead_seal(key@, nonce@, q));
                }
            }
            Ok(pt)
        },
        None => {
            proof {
                assert forall|q: Seq<u8>| !opens_to(data@, password@, q) by {
                    if opens_to(data@, password@, q) {
                        assert(ct@ == aead_seal(key@, nonce@, q));
                    }
                }
            }
            Err(FsError::new(ErrorKind::AuthenticationFailed, "Wrong password or corrupted data"))
        },
    }
}

/// Round trip: a payload sealed from plaintext `pt` under password `pw`
/// with any 16-byte salt and 12-byte nonce opens, under the same
/// password, to exactly `pt` — so by `decrypt_core`'s contract,
/// decrypting the output of `encrypt_core` with the same password
/// returns the original plaintext.
pub proof fn lemma_vault_round_trip(pt: Seq<u8>, pw: Seq<char>, salt: Seq<u8>, nonce: Seq<u8>)
    requires
        salt.len() == 16,
        nonce.len() == 12,
    ensures
        opens_to(sealed_payload(pt, pw, salt, nonce), pw, pt),
{
    let data = sealed_payload(pt, pw, salt, nonce);
    assert(data.subrange(0, 16) =~= salt);
    assert(data.subrange(16, 28) =~= nonce);
    assert(data.skip(28) =~= aead_seal(pbkdf2_key(pw, salt, PBKDF2_ITERATIONS), nonce, pt));
}

/// Wrong password: a payload sealed under `pw` does not open under
/// another password `pw2` — so by `decrypt_core`'s contract the attempt
/// fails with `AuthenticationFailed`, and the payload, which
/// `decrypt_core` only reads, is left as it was. The premise excludes
/// the inputs where the ciphertext also authenticates under `pw2`'s
/// derived key, which AES-GCM does not rule out absolutely.
pub proof fn lemma_vault_wrong_password(
    pt: Seq<u8>,
    pw: Seq<char>,
    pw2: Seq<char>,
    salt: Seq<u8>,
    nonce: Seq<u8>,
)
    requires
        salt.len() == 16,
        nonce.len() == 12,
    ensures
        (forall|q: Seq<u8>|
            aead_seal(pbkdf2_key(pw2, salt, PBKDF2_ITERATIONS), nonce, q) != aead_seal(
                pbkdf2_key(pw, salt, PBKDF2_ITERATIONS),
                nonce,
                pt,
            )) ==> (forall|q: Seq<u8>| !opens_to(sealed_payload(pt, pw, salt, nonce), pw2, q)),
{
    let data = sealed_payload(pt, pw, salt, nonce);
    assert(data.subrange(0, 16) =~= salt);
    assert(data.subrange(16, 28) =~= nonce);
    assert(data.skip(28) =~= aead_seal(pbkdf2_key(pw, salt, PBKDF2_ITERATIONS), nonce, pt));
}

} // verus!
