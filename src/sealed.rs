use vstd::prelude::*;

use chacha20poly1305::aead::rand_core::RngCore;
use chacha20poly1305::aead::{Aead, KeyInit, OsRng};
use chacha20poly1305::{Key, XChaCha20Poly1305, XNonce};

verus! {

/// The number of bytes of a nonce, which leads every sealed payload.
pub const NONCE_LEN: usize = 24;

/// What XChaCha20-Poly1305 makes of `plain` under `key` and `nonce`: the ciphertext
/// with its tag, or `None` where it refuses the input.
pub uninterp spec fn xchacha_sealed(key: Seq<u8>, nonce: Seq<u8>, plain: Seq<u8>) -> Option<Seq<u8>>;

/// What XChaCha20-Poly1305 makes of `sealed` under `key` and `nonce`: the plaintext,
/// or `None` where the tag does not check out.
pub uninterp spec fn xchacha_opened(key: Seq<u8>, nonce: Seq<u8>, sealed: Seq<u8>) -> Option<Seq<u8>>;

/// Relies on `Aead::encrypt` of chacha20poly1305's `XChaCha20Poly1305`: a function of
/// the key, nonce and plaintext, which fails only on oversized input.
#[verifier::external_body]
fn seal(key: &[u8; 32], nonce: &[u8; 24], plain: &[u8]) -> (r: Option<Vec<u8>>)
    ensures
        r is Some <==> xchacha_sealed(key@, nonce@, plain@) is Some,
        r matches Some(c) ==> xchacha_sealed(key@, nonce@, plain@) == Some(c@),
{
    XChaCha20Poly1305::new(Key::from_slice(key)).encrypt(XNonce::from_slice(nonce), plain).ok()
}

/// Relies on `Aead::decrypt` of chacha20poly1305's `XChaCha20Poly1305`: a function of
/// the key, nonce and sealed bytes, which fails where the tag does not check out.
#[verifier::external_body]
fn open(key: &[u8; 32], nonce: &[u8; 24], sealed: &[u8]) -> (r: Option<Vec<u8>>)
    ensures
        r is Some <==> xchacha_opened(key@, nonce@, sealed@) is Some,
        r matches Some(p) ==> xchacha_opened(key@, nonce@, sealed@) == Some(p@),
{
    XChaCha20Poly1305::new(Key::from_slice(key)).decrypt(XNonce::from_slice(nonce), sealed).ok()
}

/// Relies on `RngCore::try_fill_bytes` of `OsRng` (rand_core, through
/// chacha20poly1305): random bytes from the operating system, or `None` where it
/// gives none.
#[verifier::external_body]
fn fresh_nonce() -> Option<[u8; 24]> {
    let mut nonce = [0u8; 24];
    match OsRng.try_fill_bytes(&mut nonce) {
        Ok(()) => Some(nonce),
        Err(_) => None,
    }
}

/// Why sealing or opening a payload failed.
#[derive(Debug, Clone, Copy, PartialEq, Eq, Structural)]
pub enum SealError {
    /// the cipher refused the input, or the tag did not check out
    Crypto,
    /// the payload is too short to hold a nonce
    InvalidEncoding,
    /// the operating system gave no random bytes for a nonce
    Nonce,
}

/// The nonce followed by the sealed bytes.
pub fn encode_data(nonce: &[u8; 24], data: Vec<u8>) -> (r: Vec<u8>)
    ensures
        r@ == nonce@ + data@,
{
    let mut rtn: Vec<u8> = Vec::new();
    let mut i: usize = 0;
    while i < NONCE_LEN
        invariant
            i <= NONCE_LEN,
            rtn@ == nonce@.take(i as int),
        decreases NONCE_LEN - i,
    {
        rtn.push(nonce[i]);
        i = i + 1;
        assert(rtn@ =~= nonce@.take(i as int));
    }
    let mut j: usize = 0;
    while j < data.len()
        invariant
            j <= data@.len(),
            rtn@ == nonce@ + data@.take(j as int),
        decreases data@.len() - j,
    {
        rtn.push(data[j]);
        j = j + 1;
        assert(rtn@ =~= nonce@ + data@.take(j as int));
    }
    assert(data@.take(data@.len() as int) =~= data@);
    assert(nonce@.take(24) =~= nonce@);
    rtn
}

/// Splits a payload into its leading nonce and the sealed bytes after it;
/// `InvalidEncoding` if it is shorter than a nonce.
pub fn decode_data(data: Vec<u8>) -> (r: Result<([u8; 24], Vec<u8>), SealError>)
    ensures
        data@.len() < NONCE_LEN ==> r == Err::<([u8; 24], Vec<u8>), SealError>(SealError::InvalidEncoding),
        data@.len() >= NONCE_LEN ==> (r matches Ok(parts) && parts.0@ == data@.take(24) && parts.1@ == data@.skip(24)),
{
    if data.len() < NONCE_LEN {
        return Err(SealError::InvalidEncoding);
    }
    let mut nonce = [0u8; 24];
    let mut i: usize = 0;
    while i < NONCE_LEN
        invariant
            i <= NONCE_LEN,
            data@.len() >= NONCE_LEN,
            forall|k: int| 0 <= k < i ==> nonce@[k] == data@[k],
        decreases NONCE_LEN - i,
    {
        nonce[i] = data[i];
        i = i + 1;
    }
    let mut rest = data;
    let sealed = rest.split_off(NONCE_LEN);
    assert(nonce@ =~= data@.take(24));
    assert(sealed@ =~= data@.skip(24));
    Ok((nonce, sealed))
}

/// Seals `data` under `key` with a fresh random nonce, which leads the result;
/// `Nonce` if no random bytes could be had, `Crypto` if the cipher refuses `data`.
pub fn encrypt_data(key: &[u8; 32], data: Vec<u8>) -> (r: Result<Vec<u8>, SealError>)
    ensures
        r matches Err(e) ==> e is Nonce || e is Crypto,
        r matches Err(e) && e is Crypto ==> exists|n: Seq<u8>|
            n.len() == NONCE_LEN && #[trigger] xchacha_sealed(key@, n, data@) is None,
        r matches Ok(out) ==> out@.len() >= NONCE_LEN && xchacha_sealed(key@, out@.take(24), data@) == Some(out@.skip(24)),
{
    let nonce = match fresh_nonce() {
        None => return Err(SealError::Nonce),
        Some(n) => n,
    };
    match seal(key, &nonce, data.as_slice()) {
        None => {
            assert(nonce@.len() == NONCE_LEN && xchacha_sealed(key@, nonce@, data@) is None);
            Err(SealError::Crypto)
        },
        Some(sealed) => {
            let out = encode_data(&nonce, sealed);
            assert(out@.take(24) =~= nonce@);
            assert(out@.skip(24) =~= sealed@);
            Ok(out)
        },
    }
}

/// Opens a payload that [`encrypt_data`] made under `key`: `InvalidEncoding` if it
/// is shorter than a nonce, `Crypto` if the tag does not check out.
pub fn decrypt_data(key: &[u8; 32], data: Vec<u8>) -> (r: Result<Vec<u8>, SealError>)
    ensures
        data@.len() < NONCE_LEN ==> r == Err::<Vec<u8>, SealError>(SealError::InvalidEncoding),
        data@.len() >= NONCE_LEN ==> match xchacha_opened(key@, data@.take(24), data@.skip(24)) {
            None => r == Err::<Vec<u8>, SealError>(SealError::Crypto),
            Some(p) => r matches Ok(v) && v@ == p,
        },
{
    let (nonce, sealed) = match decode_data(data) {
        Err(e) => return Err(e),
        Ok(parts) => parts,
    };
    match open(key, &nonce, sealed.as_slice()) {
        None => Err(SealError::Crypto),
        Some(plain) => Ok(plain),
    }
}

} // verus!
