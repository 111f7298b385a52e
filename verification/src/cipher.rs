//! Channel cipher.
//!
//! Packet bodies are protected by a two-layer scheme under a 32-byte key:
//! a 16-byte initialization vector is encrypted on its own (single block,
//! no padding), and the body is encrypted with a chained block cipher
//! under that vector (padded). The wire payload is the encrypted vector
//! followed by the encrypted body, so the vector never travels in clear.
//!
//! For the handshake there is an authenticated variant: the vector is the
//! first 13 bytes of a keyed digest of 3 random bytes and the plaintext,
//! followed by those 3 random bytes, so the receiver can verify that the
//! sender holds the key before trusting the decrypted body.

use vstd::prelude::*;
use vstd::slice::{slice_index_get, slice_subrange};
use openssl::symm::{Cipher, Crypter, Mode};
use rand::RngCore;

verus! {

/// Failure of a cipher operation.
#[derive(Clone, Copy, Debug, PartialEq, Eq, Structural)]
pub enum CryptoError {
    /// The payload is shorter than the 16-byte encrypted vector.
    Truncated,
    /// The block-cipher backend rejected the input: bad padding or an
    /// invalid key or vector length.
    CipherFailure,
    /// The authenticated vector does not match the decrypted body.
    IntegrityError,
}

/// The longest body a single cipher call accepts, so that the backend's
/// buffer (body plus one block) stays within its 31-bit length limit.
pub const MAX_DATA_LEN: usize = 0x7fff_ffef;

/// What the block cipher makes of one 16-byte block under a 32-byte key.
pub uninterp spec fn aes_ecb_encrypt(key: Seq<u8>, block: Seq<u8>) -> Seq<u8>;

/// The inverse direction of `aes_ecb_encrypt`.
pub uninterp spec fn aes_ecb_decrypt(key: Seq<u8>, block: Seq<u8>) -> Seq<u8>;

/// What the chained block cipher, with padding, makes of a body.
pub uninterp spec fn aes_cbc_encrypt(key: Seq<u8>, iv: Seq<u8>, plain: Seq<u8>) -> Seq<u8>;

/// The inverse direction of `aes_cbc_encrypt`: the unpadded plaintext,
/// or nothing when the ciphertext or its padding is invalid.
pub uninterp spec fn aes_cbc_decrypt(key: Seq<u8>, iv: Seq<u8>, cipher_text: Seq<u8>) -> Option<
    Seq<u8>,
>;

/// The 20-byte keyed digest of `data` under `key`.
pub uninterp spec fn hmac_sha1(key: Seq<u8>, data: Seq<u8>) -> Seq<u8>;

/// The wire payload that encryption with a chosen vector produces.
pub open spec fn encrypt_with_iv_spec(plain: Seq<u8>, key: Seq<u8>, iv: Seq<u8>) -> Seq<u8> {
    aes_ecb_encrypt(key, iv) + aes_cbc_encrypt(key, iv, plain)
}

/// The vector a payload carries: its first 16 bytes, decrypted alone.
pub open spec fn recovered_iv(payload: Seq<u8>, key: Seq<u8>) -> Seq<u8>
    recommends
        payload.len() >= 16,
{
    aes_ecb_decrypt(key, payload.take(16))
}

/// The body a payload decrypts to, or nothing when its padding is invalid.
pub open spec fn plain_decrypt_spec(payload: Seq<u8>, key: Seq<u8>) -> Option<Seq<u8>>
    recommends
        payload.len() >= 16,
{
    aes_cbc_decrypt(key, recovered_iv(payload, key), payload.skip(16))
}

/// Whether a vector authenticates a body: the first 13 vector bytes equal
/// the first 13 bytes of the keyed digest of the last 3 vector bytes
/// followed by the body.
pub open spec fn iv_authenticates(iv: Seq<u8>, key: Seq<u8>, plain: Seq<u8>) -> bool {
    iv.take(13) == hmac_sha1(key.take(16), iv.skip(13) + plain).take(13)
}

/// Whether a payload's recovered vector authenticates a decrypted body.
pub open spec fn auth_iv_ok(payload: Seq<u8>, key: Seq<u8>, plain: Seq<u8>) -> bool
    recommends
        payload.len() >= 16,
{
    iv_authenticates(recovered_iv(payload, key), key, plain)
}

/// Law: a vector derived from a body always authenticates that body.
/// Whatever the 3 random bytes were, the truncated digest of those bytes
/// and the body, followed by the bytes themselves, passes the check that
/// authenticated decryption performs, so an authenticated encryption is
/// always accepted by the receiver that holds the same key.
pub proof fn lemma_derived_iv_authenticates(
    plain: Seq<u8>,
    key: Seq<u8>,
    rnd: Seq<u8>,
    digest: Seq<u8>,
)
    requires
        rnd.len() == 3,
        digest == hmac_sha1(key.take(16), rnd + plain),
        digest.len() >= 13,
    ensures
        iv_authenticates(digest.take(13) + rnd, key, plain),
{
    let iv = digest.take(13) + rnd;
    assert(iv.take(13) =~= digest.take(13));
    assert(iv.skip(13) =~= rnd);
}

/// Whether a payload decrypts to some body that its vector fails to
/// authenticate: the case the authenticated variant must reject.
pub open spec fn auth_check_fails(payload: Seq<u8>, key: Seq<u8>) -> bool
    recommends
        payload.len() >= 16,
{
    plain_decrypt_spec(payload, key) matches Some(p) && !auth_iv_ok(payload, key, p)
}

/// Relies on openssl::symm::Crypter with Cipher::aes_256_ecb, padding
/// disabled, in encrypt mode: turns one 16-byte block into the 16-byte
/// cipher block that aes_256_ecb decryption maps back to the input, and
/// succeeds whenever the key is 32 bytes and the block is whole.
#[verifier::external_body]
fn ecb_encrypt_block(key: &[u8], block: &[u8]) -> (r: Result<Vec<u8>, CryptoError>)
    requires
        key@.len() == 32,
        block@.len() == 16,
    ensures
        r is Ok,
        r matches Ok(v) ==> v@ == aes_ecb_encrypt(key@, block@) && v@.len() == 16 && aes_ecb_decrypt(
            key@,
            v@,
        ) == block@,
{
    let mut c = Crypter::new(Cipher::aes_256_ecb(), Mode::Encrypt, key, None).map_err(|_|
        CryptoError::CipherFailure)?;
    c.pad(false);
    let mut out = vec![0u8; 32];
    let n = c.update(block, &mut out).map_err(|_| CryptoError::CipherFailure)?;
    let m = c.finalize(&mut out[n..]).map_err(|_| CryptoError::CipherFailure)?;
    out.truncate(n + m);
    Ok(out)
}

/// Relies on openssl::symm::Crypter with Cipher::aes_256_ecb, padding
/// disabled, in decrypt mode: the inverse of `ecb_encrypt_block`; it
/// succeeds whenever the key is 32 bytes and the block is whole.
#[verifier::external_body]
fn ecb_decrypt_block(key: &[u8], block: &[u8]) -> (r: Result<Vec<u8>, CryptoError>)
    requires
        key@.len() == 32,
        block@.len() == 16,
    ensures
        r is Ok,
        r matches Ok(v) ==> v@ == aes_ecb_decrypt(key@, block@) && v@.len() == 16,
{
    let mut c = Crypter::new(Cipher::aes_256_ecb(), Mode::Decrypt, key, None).map_err(|_|
        CryptoError::CipherFailure)?;
    c.pad(false);
    let mut out = vec![0u8; 32];
    let n = c.update(block, &mut out).map_err(|_| CryptoError::CipherFailure)?;
    let m = c.finalize(&mut out[n..]).map_err(|_| CryptoError::CipherFailure)?;
    out.truncate(n + m);
    Ok(out)
}

/// Relies on openssl::symm::encrypt with Cipher::aes_256_cbc: encrypts the
/// body under key and vector, padded to the next block, and aes_256_cbc
/// decryption maps the result back to the input; it succeeds whenever the
/// key and vector lengths are right.
#[verifier::external_body]
fn cbc_encrypt(key: &[u8], iv: &[u8], plain: &[u8]) -> (r: Result<Vec<u8>, CryptoError>)
    requires
        key@.len() == 32,
        iv@.len() == 16,
        plain@.len() <= MAX_DATA_LEN,
    ensures
        r is Ok,
        r matches Ok(v) ==> v@ == aes_cbc_encrypt(key@, iv@, plain@) && v@.len() == (plain@.len()
            / 16 + 1) * 16 && aes_cbc_decrypt(key@, iv@, v@) == Some(plain@),
{
    match openssl::symm::encrypt(Cipher::aes_256_cbc(), key, Some(iv), plain) {
        Ok(v) => Ok(v),
        Err(_) => Err(CryptoError::CipherFailure),
    }
}

/// Relies on openssl::symm::decrypt with Cipher::aes_256_cbc: recovers the
/// unpadded body, and fails exactly when the ciphertext is not a whole
/// number of blocks or its padding is invalid.
#[verifier::external_body]
fn cbc_decrypt(key: &[u8], iv: &[u8], cipher_text: &[u8]) -> (r: Result<Vec<u8>, CryptoError>)
    requires
        key@.len() == 32,
        iv@.len() == 16,
        cipher_text@.len() <= MAX_DATA_LEN,
    ensures
        (match r {
            Ok(v) => aes_cbc_decrypt(key@, iv@, cipher_text@) == Some(v@) && v@.len()
                <= cipher_text@.len(),
            Err(e) => e == CryptoError::CipherFailure && aes_cbc_decrypt(
                key@,
                iv@,
                cipher_text@,
            ) is None,
        }),
{
    match openssl::symm::decrypt(Cipher::aes_256_cbc(), key, Some(iv), cipher_text) {
        Ok(v) => Ok(v),
        Err(_) => Err(CryptoError::CipherFailure),
    }
}

/// Relies on openssl::pkey::PKey::hmac and openssl::sign::Signer with
/// MessageDigest::sha1: the 20-byte HMAC-SHA1 digest, a function of the
/// key and the data alone; the computation accepts any data under a
/// 16-byte key.
#[verifier::external_body]
fn hmac_sha1_digest(key: &[u8], data: &[u8]) -> (r: Result<Vec<u8>, CryptoError>)
    requires
        key@.len() == 16,
    ensures
        r is Ok,
        r matches Ok(v) ==> v@ == hmac_sha1(key@, data@) && v@.len() == 20,
{
    let pkey = match openssl::pkey::PKey::hmac(key) {
        Ok(p) => p,
        Err(_) => return Err(CryptoError::CipherFailure),
    };
    let mut signer = match openssl::sign::Signer::new(openssl::hash::MessageDigest::sha1(), &pkey) {
        Ok(s) => s,
        Err(_) => return Err(CryptoError::CipherFailure),
    };
    match signer.sign_oneshot_to_vec(data) {
        Ok(v) => Ok(v),
        Err(_) => Err(CryptoError::CipherFailure),
    }
}

/// Relies on rand::thread_rng and RngCore::fill_bytes: `n` bytes from a
/// cryptographically secure source; nothing is assumed of their values.
#[verifier::external_body]
fn random_bytes(n: usize) -> (r: Vec<u8>)
    ensures
        r@.len() == n,
{
    let mut buf = vec![0u8; n];
    rand::thread_rng().fill_bytes(&mut buf);
    buf
}

/// Appends every byte of `src` to `dst`, in order.
fn push_all(dst: &mut Vec<u8>, src: &[u8])
    requires
        old(dst)@.len() + src@.len() <= usize::MAX,
    ensures
        final(dst)@ == old(dst)@ + src@,
{
    let mut i: usize = 0;
    while i < src.len()
        invariant
            i <= src@.len(),
            old(dst)@.len() + src@.len() <= usize::MAX,
            dst@ == old(dst)@ + src@.take(i as int),
        decreases src@.len() - i,
    {
        let b = *slice_index_get(src, i);
        dst.push(b);
        proof {
            assert(old(dst)@ + src@.take(i + 1) =~= (old(dst)@ + src@.take(i as int)).push(
                src@[i as int],
            ));
        }
        i += 1;
    }
    proof {
        assert(src@.take(src@.len() as int) =~= src@);
    }
}

/// Compares two equal-length byte strings without an early exit, so the
/// time taken does not depend on where they first differ.
fn constant_time_eq(a: &[u8], b: &[u8]) -> (r: bool)
    requires
        a@.len() == b@.len(),
    ensures
        r <==> a@ == b@,
{
    let mut diff: u8 = 0;
    let mut i: usize = 0;
    proof {
        assert(a@.take(0) =~= b@.take(0));
    }
    while i < a.len()
        invariant
            a@.len() == b@.len(),
            i <= a@.len(),
            (diff == 0) <==> a@.take(i as int) == b@.take(i as int),
        decreases a@.len() - i,
    {
        let x = *slice_index_get(a, i);
        let y = *slice_index_get(b, i);
        let next = diff | (x ^ y);
        proof {
            assert((diff | (x ^ y)) == 0 <==> diff == 0 && x == y) by (bit_vector);
            if next == 0 {
                assert(a@.take(i + 1) =~= b@.take(i + 1));
            } else {
                if a@.take(i + 1) == b@.take(i + 1) {
                    assert(a@.take(i as int) =~= a@.take(i + 1).take(i as int));
                    assert(b@.take(i as int) =~= b@.take(i + 1).take(i as int));
                    assert(a@[i as int] == a@.take(i + 1)[i as int]);
                    assert(false);
                }
            }
        }
        diff = next;
        i += 1;
    }
    proof {
        assert(a@.take(a@.len() as int) =~= a@);
        assert(b@.take(b@.len() as int) =~= b@);
    }
    diff == 0
}

/// Encrypts `message` under `key` with the given 16-byte vector: the
/// payload is the vector encrypted alone followed by the body encrypted
/// under the chained cipher. Any payload this returns carries exactly
/// that vector and decrypts back to `message` under the same key.
pub fn symmetric_encrypt_with_iv(message: &[u8], key: &[u8], plain_iv: &[u8]) -> (r: Result<
    Vec<u8>,
    CryptoError,
>)
    requires
        message@.len() <= MAX_DATA_LEN,
    ensures
        key@.len() == 32 && plain_iv@.len() == 16 ==> r is Ok,
        !(key@.len() == 32 && plain_iv@.len() == 16) ==> r == Err::<Vec<u8>, CryptoError>(
            CryptoError::CipherFailure,
        ),
        r matches Ok(v) ==> ({
            &&& v@ == encrypt_with_iv_spec(message@, key@, plain_iv@)
            &&& v@.len() == 16 + (message@.len() / 16 + 1) * 16
            &&& recovered_iv(v@, key@) == plain_iv@
            &&& plain_decrypt_spec(v@, key@) == Some(message@)
        }),
{
    if key.len() != 32 || plain_iv.len() != 16 {
        return Err(CryptoError::CipherFailure);
    }
    let encrypted_iv = match ecb_encrypt_block(key, plain_iv) {
        Ok(v) => v,
        Err(e) => return Err(e),
    };
    let encrypted_body = match cbc_encrypt(key, plain_iv, message) {
        Ok(v) => v,
        Err(e) => return Err(e),
    };
    let mut output = encrypted_iv;
    push_all(&mut output, encrypted_body.as_slice());
    proof {
        assert(output@.take(16) =~= aes_ecb_encrypt(key@, plain_iv@));
        assert(output@.skip(16) =~= aes_cbc_encrypt(key@, plain_iv@, message@));
    }
    Ok(output)
}

/// Encrypts `input` under a fresh random 16-byte vector. Any payload this
/// returns decrypts back to `input` under the same key: the round trip
/// with `symmetric_decrypt` is the identity.
pub fn symmetric_encrypt(input: &[u8], key: &[u8]) -> (r: Result<Vec<u8>, CryptoError>)
    requires
        input@.len() <= MAX_DATA_LEN,
    ensures
        key@.len() == 32 ==> r is Ok,
        key@.len() != 32 ==> r == Err::<Vec<u8>, CryptoError>(CryptoError::CipherFailure),
        r matches Ok(v) ==> plain_decrypt_spec(v@, key@) == Some(input@) && v@.len() == 16 + (
        input@.len() / 16 + 1) * 16,
{
    let iv = random_bytes(16);
    symmetric_encrypt_with_iv(input, key, iv.as_slice())
}

/// Encrypts `input` under an authenticated vector: the first 13 bytes of
/// HMAC-SHA1(key[0..16], r ++ input) followed by the 3 random bytes r.
/// Any payload this returns decrypts back to `input` under the same key,
/// and its vector authenticates that body, so `symmetric_decrypt` with
/// `is_hmac` accepts it: the authenticated round trip is the identity.
pub fn symmetric_encrypt_hmac_iv(input: &[u8], key: &[u8]) -> (r: Result<Vec<u8>, CryptoError>)
    requires
        input@.len() <= MAX_DATA_LEN,
    ensures
        key@.len() == 32 ==> r is Ok,
        key@.len() != 32 ==> r == Err::<Vec<u8>, CryptoError>(CryptoError::CipherFailure),
        r matches Ok(v) ==> ({
            &&& plain_decrypt_spec(v@, key@) == Some(input@)
            &&& auth_iv_ok(v@, key@, input@)
            &&& v@.len() == 16 + (input@.len() / 16 + 1) * 16
        }),
{
    if key.len() != 32 {
        return Err(CryptoError::CipherFailure);
    }
    let random_tail = random_bytes(3);
    let mut hmac_data: Vec<u8> = Vec::new();
    push_all(&mut hmac_data, random_tail.as_slice());
    push_all(&mut hmac_data, input);
    let digest = match hmac_sha1_digest(slice_subrange(key, 0, 16), hmac_data.as_slice()) {
        Ok(d) => d,
        Err(e) => return Err(e),
    };
    let mut iv: Vec<u8> = Vec::new();
    push_all(&mut iv, slice_subrange(digest.as_slice(), 0, 13));
    push_all(&mut iv, random_tail.as_slice());
    match symmetric_encrypt_with_iv(input, key, iv.as_slice()) {
        Ok(v) => {
            proof {
                assert(key@.take(16) =~= key@.subrange(0, 16));
                assert(hmac_data@ =~= random_tail@ + input@);
                assert(iv@ =~= digest@.take(13) + random_tail@);
                lemma_derived_iv_authenticates(input@, key@, random_tail@, digest@);
            }
            Ok(v)
        },
        Err(e) => Err(e),
    }
}

/// Splits a payload into its encrypted vector and encrypted body, reverses
/// both cipher layers, and, with `is_hmac`, verifies the authenticated
/// vector against the decrypted body before trusting it. Fails with
/// `Truncated` exactly on payloads shorter than the 16-byte vector block,
/// with `CipherFailure` on an invalid key length or bad padding, and with
/// `IntegrityError` exactly when the body decrypts but its vector does
/// not authenticate it.
pub fn symmetric_decrypt(input: &[u8], key: &[u8], is_hmac: bool) -> (r: Result<
    Vec<u8>,
    CryptoError,
>)
    requires
        input@.len() <= MAX_DATA_LEN,
    ensures
        input@.len() < 16 ==> r == Err::<Vec<u8>, CryptoError>(CryptoError::Truncated),
        input@.len() >= 16 && key@.len() != 32 ==> r == Err::<Vec<u8>, CryptoError>(
            CryptoError::CipherFailure,
        ),
        input@.len() >= 16 && key@.len() == 32 && !is_hmac ==> (match r {
            Ok(p) => plain_decrypt_spec(input@, key@) == Some(p@),
            Err(e) => e == CryptoError::CipherFailure && plain_decrypt_spec(input@, key@) is None,
        }),
        input@.len() >= 16 && key@.len() == 32 && is_hmac ==> (match r {
            Ok(p) => plain_decrypt_spec(input@, key@) == Some(p@) && auth_iv_ok(input@, key@, p@),
            Err(e) => (e == CryptoError::CipherFailure && plain_decrypt_spec(input@, key@) is None)
                || (e == CryptoError::IntegrityError && auth_check_fails(input@, key@)),
        }),
{
    if input.len() < 16 {
        return Err(CryptoError::Truncated);
    }
    if key.len() != 32 {
        return Err(CryptoError::CipherFailure);
    }
    let encrypted_iv = slice_subrange(input, 0, 16);
    let encrypted_body = slice_subrange(input, 16, input.len());
    let iv = match ecb_decrypt_block(key, encrypted_iv) {
        Ok(v) => v,
        Err(e) => return Err(e),
    };
    let plain = match cbc_decrypt(key, iv.as_slice(), encrypted_body) {
        Ok(p) => p,
        Err(e) => return Err(e),
    };
    if !is_hmac {
        return Ok(plain);
    }
    let mut hmac_data: Vec<u8> = Vec::new();
    push_all(&mut hmac_data, slice_subrange(iv.as_slice(), 13, 16));
    push_all(&mut hmac_data, plain.as_slice());
    let digest = match hmac_sha1_digest(slice_subrange(key, 0, 16), hmac_data.as_slice()) {
        Ok(d) => d,
        Err(e) => return Err(e),
    };
    let authentic = constant_time_eq(
        slice_subrange(digest.as_slice(), 0, 13),
        slice_subrange(iv.as_slice(), 0, 13),
    );
    proof {
        assert(iv@.take(13) =~= iv@.subrange(0, 13));
        assert(digest@.take(13) =~= digest@.subrange(0, 13));
        assert(hmac_data@ =~= iv@.skip(13) + plain@);
        assert(key@.take(16) =~= key@.subrange(0, 16));
    }
    if authentic {
        Ok(plain)
    } else {
        Err(CryptoError::IntegrityError)
    }
}

} // verus!
