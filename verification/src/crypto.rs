use vstd::prelude::*;
use vstd::string::StringSliceAdditionalSpecFns;
use vstd::string::StrSliceExecFns;
use vstd::utf8::{encode_utf8, encode_utf8_decode_utf8, encode_utf8_valid_utf8, valid_utf8};

use crate::errors::VaultError;
use crate::hexcodec::{
    canonical_hex, hex_decode, hex_decode_spec, hex_encode, hex_encode_spec,
    lemma_hex_encode_canonical, valid_hex,
};
use crate::types::UploadFile;

verus! {

/// The byte length of an AES-GCM nonce.
pub const NONCE_LEN: usize = 12;

/// The byte length of an AES-GCM authentication tag.
pub const TAG_LEN: usize = 16;

/// The largest plaintext, in bytes, that this vault will seal. It lies well
/// under the AES-GCM limit of 2^36 bytes, beyond which encryption fails.
pub const MAX_PLAINTEXT_LEN: usize = 0x4000_0000;

/// The 32-byte key that PBKDF2-HMAC-SHA-512 at 600_000 iterations derives
/// from a password and a salt. The result is a function of the two arguments
/// alone; stating the algorithm itself is neither needed nor checkable here.
pub uninterp spec fn derived_key(password: Seq<u8>, salt: Seq<u8>) -> Seq<u8>;

/// The ciphertext-with-tag that AES-256-GCM produces for a key, nonce and
/// plaintext. Deterministic in its three arguments.
pub uninterp spec fn aead_enc(key: Seq<u8>, nonce: Seq<u8>, plaintext: Seq<u8>) -> Seq<u8>;

/// What AES-256-GCM decryption returns for a key, nonce and
/// ciphertext-with-tag: the plaintext, or nothing when the authentication
/// check fails. Deterministic in its three arguments.
pub uninterp spec fn aead_dec(key: Seq<u8>, nonce: Seq<u8>, ciphertext: Seq<u8>) -> Option<
    Seq<u8>,
>;

/// Relies on ring::pbkdf2::derive with PBKDF2_HMAC_SHA512, 600_000
/// iterations and a 32-byte output buffer: it fills the buffer with a key
/// that depends on the password and salt alone.
#[verifier::external_body]
fn pbkdf2_derive(password: &[u8], salt: &[u8]) -> (k: Vec<u8>)
    ensures
        k@ == derived_key(password@, salt@),
        k@.len() == 32,
{
    let mut out: [u8; 32] = [0; 32];
    ring::pbkdf2::derive(
        ring::pbkdf2::PBKDF2_HMAC_SHA512,
        std::num::NonZeroU32::new(600_000).unwrap(),
        salt,
        password,
        &mut out,
    );
    out.to_vec()
}

/// Derives the 32-byte symmetric key for a password and salt.
/// The same password and salt always yield the same key, which is what makes
/// decrypt-after-encrypt round trips possible.
pub fn derive(password: &str, salt: &str) -> (k: Vec<u8>)
    ensures
        k@ == derived_key(password.spec_bytes(), salt.spec_bytes()),
        k@.len() == 32,
{
    pbkdf2_derive(password.as_bytes(), salt.as_bytes())
}

/// Relies on Aes256Gcm::generate_nonce with the operating-system randomness
/// source: 12 fresh random bytes. Nothing is promised of their values.
#[verifier::external_body]
fn gcm_generate_nonce() -> (n: Vec<u8>)
    ensures
        n@.len() == NONCE_LEN,
{
    let nonce = <aes_gcm::Aes256Gcm as aes_gcm::AeadCore>::generate_nonce(aes_gcm::aead::OsRng);
    nonce.to_vec()
}

/// Relies on Aes256Gcm::encrypt: deterministic in key, nonce and plaintext,
/// it appends the 16-byte tag, succeeds for any plaintext under the AES-GCM
/// length limit, and its output decrypts back to the plaintext under the
/// same key and nonce.
#[verifier::external_body]
fn gcm_encrypt(key: &[u8], nonce: &[u8], plaintext: &[u8]) -> (ct: Vec<u8>)
    requires
        key@.len() == 32,
        nonce@.len() == NONCE_LEN,
        plaintext@.len() <= MAX_PLAINTEXT_LEN,
    ensures
        ct@ == aead_enc(key@, nonce@, plaintext@),
        ct@.len() == plaintext@.len() + TAG_LEN,
        aead_dec(key@, nonce@, ct@) == Some(plaintext@),
{
    let cipher = <aes_gcm::Aes256Gcm as aes_gcm::KeyInit>::new(
        aes_gcm::Key::<aes_gcm::Aes256Gcm>::from_slice(key),
    );
    aes_gcm::aead::Aead::encrypt(&cipher, aes_gcm::Nonce::from_slice(nonce), plaintext).unwrap()
}

/// Relies on Aes256Gcm::decrypt: deterministic in key, nonce and
/// ciphertext, it returns the plaintext exactly when the authentication
/// check passes and fails otherwise, never panicking.
#[verifier::external_body]
fn gcm_decrypt(key: &[u8], nonce: &[u8], ciphertext: &[u8]) -> (r: Option<Vec<u8>>)
    requires
        key@.len() == 32,
        nonce@.len() == NONCE_LEN,
    ensures
        r matches Some(p) ==> aead_dec(key@, nonce@, ciphertext@) == Some(p@),
        r is None ==> aead_dec(key@, nonce@, ciphertext@) is None,
{
    let cipher = <aes_gcm::Aes256Gcm as aes_gcm::KeyInit>::new(
        aes_gcm::Key::<aes_gcm::Aes256Gcm>::from_slice(key),
    );
    aes_gcm::aead::Aead::decrypt(&cipher, aes_gcm::Nonce::from_slice(nonce), ciphertext).ok()
}

/// Relies on String::from_utf8: it succeeds exactly on valid UTF-8 and the
/// returned string encodes back to the given bytes.
#[verifier::external_body]
fn bytes_to_string(bytes: Vec<u8>) -> (r: Option<String>)
    ensures
        r is Some <==> valid_utf8(bytes@),
        r matches Some(s) ==> encode_utf8(s@) == bytes@,
{
    String::from_utf8(bytes).ok()
}

/// UTF-8 spends at least one and at most four bytes on each character.
pub proof fn lemma_encode_utf8_len(chars: Seq<char>)
    ensures
        encode_utf8(chars).len() <= 4 * chars.len(),
        encode_utf8(chars).len() >= chars.len(),
    decreases chars.len(),
{
    if chars.len() > 0 {
        lemma_encode_utf8_len(chars.drop_first());
    }
}

/// Whether a text is small enough to seal: a guard callers can run before
/// an upload to discharge its length bound. It accepts exactly the texts of
/// at most a quarter of the byte limit in characters, which by the
/// four-bytes-per-character bound keeps the encoding under the limit.
pub fn fits_plaintext_limit(text: &str) -> (r: bool)
    ensures
        r == (text@.len() <= MAX_PLAINTEXT_LEN / 4),
        r ==> encode_utf8(text@).len() <= MAX_PLAINTEXT_LEN,
{
    let chars = text.unicode_len();
    if chars <= MAX_PLAINTEXT_LEN / 4 {
        proof {
            lemma_encode_utf8_len(text@);
        }
        true
    } else {
        false
    }
}

/// A sealed payload is a 12-byte nonce followed by the AES-256-GCM
/// ciphertext-with-tag of the plaintext under the key and that nonce, such
/// that decryption under the same key and nonce recovers the plaintext.
pub open spec fn is_sealed_payload(payload: Seq<u8>, key: Seq<u8>, plaintext: Seq<u8>) -> bool {
    &&& payload.len() >= NONCE_LEN
    &&& payload.subrange(NONCE_LEN as int, payload.len() as int) == aead_enc(
        key,
        payload.subrange(0, NONCE_LEN as int),
        plaintext,
    )
    &&& aead_dec(
        key,
        payload.subrange(0, NONCE_LEN as int),
        payload.subrange(NONCE_LEN as int, payload.len() as int),
    ) == Some(plaintext)
}

/// Encrypts a byte payload under a derived key with a fresh random nonce and
/// returns the nonce followed by the ciphertext-with-tag.
pub fn seal(key: &[u8], plaintext: &[u8]) -> (payload: Vec<u8>)
    requires
        key@.len() == 32,
        plaintext@.len() <= MAX_PLAINTEXT_LEN,
    ensures
        payload@.len() == plaintext@.len() + NONCE_LEN + TAG_LEN,
        is_sealed_payload(payload@, key@, plaintext@),
{
    let nonce = gcm_generate_nonce();
    let mut ct = gcm_encrypt(key, nonce.as_slice(), plaintext);
    let mut payload = nonce;
    let ghost nonce_view = payload@;
    let ghost ct_view = ct@;
    payload.append(&mut ct);
    proof {
        assert(payload@.subrange(0, NONCE_LEN as int) =~= nonce_view);
        assert(payload@.subrange(NONCE_LEN as int, payload@.len() as int) =~= ct_view);
    }
    payload
}

/// Decrypts a sealed payload: splits off the 12-byte nonce and runs
/// authenticated decryption. Fails closed: a wrong key, a wrong nonce or any
/// corruption yields nothing, never partial plaintext.
pub fn unseal(key: &[u8], payload: &[u8]) -> (r: Option<Vec<u8>>)
    requires
        key@.len() == 32,
    ensures
        payload@.len() < NONCE_LEN ==> r is None,
        payload@.len() >= NONCE_LEN ==> {
            let dec = aead_dec(
                key@,
                payload@.subrange(0, NONCE_LEN as int),
                payload@.subrange(NONCE_LEN as int, payload@.len() as int),
            );
            match r {
                Some(p) => dec == Some(p@),
                None => dec is None,
            }
        },
        forall|plaintext: Seq<u8>|
            is_sealed_payload(payload@, key@, plaintext) ==> (r matches Some(p) && p@
                == plaintext),
{
    if payload.len() < NONCE_LEN {
        return None;
    }
    let nonce = vstd::slice::slice_subrange(payload, 0, NONCE_LEN);
    let ct = vstd::slice::slice_subrange(payload, NONCE_LEN, payload.len());
    gcm_decrypt(key, nonce, ct)
}

/// A stored blob is exactly the lowercase hex form of a sealed payload for
/// the key and the UTF-8 bytes of the content: `canonical_hex` pins the
/// letter case, so `blob == hex_encode_spec(nonce || ciphertext-with-tag)`.
pub open spec fn is_sealed_blob(blob: Seq<char>, key: Seq<u8>, content: Seq<char>) -> bool {
    &&& canonical_hex(blob)
    &&& is_sealed_payload(hex_decode_spec(blob), key, encode_utf8(content))
}

/// Derives the key for the request's password and salt, seals the contents
/// under it with a fresh nonce, and returns the request with its contents
/// replaced by the sealed payload in lowercase hex: `is_sealed_blob` in the
/// contract makes the result the canonical encoding of that payload.
pub fn encrypt_contents(request: UploadFile) -> (r: UploadFile)
    requires
        encode_utf8(request.file_contents@).len() <= MAX_PLAINTEXT_LEN,
    ensures
        r.file_name@ == request.file_name@,
        r.password@ == request.password@,
        r.salt@ == request.salt@,
        is_sealed_blob(
            r.file_contents@,
            derived_key(encode_utf8(request.password@), encode_utf8(request.salt@)),
            request.file_contents@,
        ),
        hex_decode_spec(r.file_contents@).len() == encode_utf8(request.file_contents@).len()
            + NONCE_LEN + TAG_LEN,
{
    let key = derive(request.password.as_str(), request.salt.as_str());
    let contents_bytes = request.file_contents.as_str().as_bytes_vec();
    let payload = seal(key.as_slice(), contents_bytes.as_slice());
    let blob = hex_encode(payload.as_slice());
    proof {
        lemma_hex_encode_canonical(payload@);
    }
    UploadFile {
        file_name: request.file_name,
        file_contents: blob,
        password: request.password,
        salt: request.salt,
    }
}

/// Decodes a stored blob, derives the key for the supplied password and the
/// stored salt, decrypts, and checks that the plaintext is valid text.
///
/// The round trip is part of the contract: whenever the blob is a sealed
/// form of some content under the derived key, exactly that content comes
/// back. A blob that fails hex decoding or authentication is reported as
/// `Unauthorized` — a wrong password and corrupted data are indistinguishable
/// by design — and an authentic payload that is not valid text as `Corrupt`.
pub fn decrypt_blob(blob: &str, password: &str, salt: &str) -> (r: Result<String, VaultError>)
    ensures
        ({
            let key = derived_key(password.spec_bytes(), salt.spec_bytes());
            let payload = hex_decode_spec(blob@);
            &&& (!valid_hex(blob@) ==> r == Err::<String, VaultError>(VaultError::Unauthorized))
            &&& (valid_hex(blob@) && payload.len() < NONCE_LEN ==> r == Err::<String, VaultError>(
                VaultError::Unauthorized,
            ))
            &&& (valid_hex(blob@) && payload.len() >= NONCE_LEN ==> {
                let dec = aead_dec(
                    key,
                    payload.subrange(0, NONCE_LEN as int),
                    payload.subrange(NONCE_LEN as int, payload.len() as int),
                );
                match r {
                    Ok(s) => dec matches Some(p) && encode_utf8(s@) == p,
                    Err(e) => (dec is None && e == VaultError::Unauthorized) || (dec matches Some(
                        p,
                    ) && !valid_utf8(p) && e == VaultError::Corrupt),
                }
            })
            &&& (forall|content: Seq<char>|
                is_sealed_blob(blob@, key, content) ==> (r matches Ok(s) && s@ == content))
        }),
{
    let decoded = hex_decode(blob);
    let payload = match decoded {
        Some(p) => p,
        None => {
            return Err(VaultError::Unauthorized);
        },
    };
    if payload.len() < NONCE_LEN {
        return Err(VaultError::Unauthorized);
    }
    let key = derive(password, salt);
    let opened = unseal(key.as_slice(), payload.as_slice());
    let plaintext = match opened {
        Some(p) => p,
        None => {
            return Err(VaultError::Unauthorized);
        },
    };
    let ghost plaintext_view = plaintext@;
    let text = bytes_to_string(plaintext);
    match text {
        Some(s) => {
            proof {
                assert forall|content: Seq<char>|
                    is_sealed_blob(
                        blob@,
                        derived_key(password.spec_bytes(), salt.spec_bytes()),
                        content,
                    ) implies s@ == content by {
                    assert(plaintext_view == encode_utf8(content));
                    encode_utf8_decode_utf8(content);
                    encode_utf8_decode_utf8(s@);
                }
            }
            Ok(s)
        },
        None => {
            proof {
                assert forall|content: Seq<char>|
                    !is_sealed_blob(
                        blob@,
                        derived_key(password.spec_bytes(), salt.spec_bytes()),
                        content,
                    ) by {
                    if is_sealed_blob(
                        blob@,
                        derived_key(password.spec_bytes(), salt.spec_bytes()),
                        content,
                    ) {
                        encode_utf8_valid_utf8(content);
                    }
                }
            }
            Err(VaultError::Corrupt)
        },
    }
}

} // verus!
