//! AES-256-GCM framing of file contents: a sealed message is the 12-byte
//! nonce followed by the AES-GCM ciphertext and its 16-byte tag.

use aes_gcm::aead::generic_array::GenericArray;
use aes_gcm::aead::{AeadCore, AeadInPlace, KeyInit, OsRng};
use aes_gcm::Aes256Gcm;
use vstd::prelude::*;

verus! {

/// Length in bytes of an AES-256 key.
pub const KEY_LEN: usize = 32;

/// Length in bytes of an AES-GCM nonce.
pub const NONCE_LEN: usize = 12;

/// Length in bytes of an AES-GCM authentication tag.
pub const TAG_LEN: usize = 16;

/// The longest plaintext that AES-GCM encrypts (`aes_gcm::P_MAX`, 2^36 bytes).
pub open spec fn max_plaintext_len() -> int {
    0x10_0000_0000
}

/// What AES-256-GCM encryption under `key` and `nonce`, with empty associated
/// data, turns `plaintext` into: the ciphertext followed by the tag.
pub uninterp spec fn aes256gcm_seal(key: Seq<u8>, nonce: Seq<u8>, plaintext: Seq<u8>) -> Seq<u8>;

/// What AES-256-GCM decryption under `key` and `nonce`, with empty associated
/// data, gives for `sealed` (ciphertext followed by tag): the plaintext, or
/// `None` where the tag does not authenticate.
pub uninterp spec fn aes256gcm_open(key: Seq<u8>, nonce: Seq<u8>, sealed: Seq<u8>) -> Option<Seq<u8>>;

/// A fresh nonce from the operating system's random source:
/// `Aes256Gcm::generate_nonce(&mut OsRng)`. Claimed: it is 12 bytes long;
/// nothing is said of its bytes, which are random. The call panics only if
/// the operating system cannot supply random bytes.
#[verifier::external_body]
fn random_nonce() -> (nonce: Vec<u8>)
    ensures
        nonce@.len() == NONCE_LEN,
{
    Aes256Gcm::generate_nonce(&mut OsRng).to_vec()
}

/// Keys an `Aes256Gcm` with `Aes256Gcm::new_from_slice(key)` and calls its
/// `encrypt_in_place` (from `aead::AeadInPlace`) on `buffer` with `nonce` and
/// empty associated data. Claimed, as aes-gcm 0.10 shows: encryption succeeds
/// exactly when the plaintext is at most 2^36 bytes; then the buffer holds
/// the ciphertext and the 16-byte tag; otherwise it is left as it was.
#[verifier::external_body]
fn aes256gcm_encrypt_in_place(key: &[u8], nonce: &[u8], buffer: &mut Vec<u8>) -> (sealed: bool)
    requires
        key@.len() == KEY_LEN,
        nonce@.len() == NONCE_LEN,
    ensures
        sealed == (old(buffer)@.len() <= max_plaintext_len()),
        sealed ==> final(buffer)@ == aes256gcm_seal(key@, nonce@, old(buffer)@),
        sealed ==> final(buffer)@.len() == old(buffer)@.len() + TAG_LEN,
        !sealed ==> final(buffer)@ == old(buffer)@,
{
    let cipher = Aes256Gcm::new_from_slice(key).unwrap();
    cipher.encrypt_in_place(GenericArray::from_slice(nonce), b"", buffer).is_ok()
}

/// Keys an `Aes256Gcm` with `Aes256Gcm::new_from_slice(key)` and calls its
/// `decrypt_in_place` (from `aead::AeadInPlace`) on `buffer` with `nonce` and
/// empty associated data. Claimed, as aes-gcm 0.10 and aead 0.5 show: on
/// success the buffer holds the plaintext; on failure (a buffer shorter than
/// the tag, a ciphertext longer than `aes_gcm::C_MAX` = 2^36 + 16 bytes, or a
/// tag that does not authenticate) it is left as it was; and
/// what encryption under the same key and nonce produced from a plaintext of
/// at most 2^36 bytes decrypts to that plaintext.
#[verifier::external_body]
fn aes256gcm_decrypt_in_place(key: &[u8], nonce: &[u8], buffer: &mut Vec<u8>) -> (opened: bool)
    requires
        key@.len() == KEY_LEN,
        nonce@.len() == NONCE_LEN,
    ensures
        opened == (aes256gcm_open(key@, nonce@, old(buffer)@) is Some),
        opened ==> final(buffer)@ == aes256gcm_open(key@, nonce@, old(buffer)@)->0,
        !opened ==> final(buffer)@ == old(buffer)@,
        body_len_refused(old(buffer)@.len() as int) ==> !opened,
        forall|p: Seq<u8>|
            p.len() <= max_plaintext_len() && old(buffer)@ == #[trigger] aes256gcm_seal(
                key@,
                nonce@,
                p,
            ) ==> opened && final(buffer)@ == p,
{
    let cipher = Aes256Gcm::new_from_slice(key).unwrap();
    cipher.decrypt_in_place(GenericArray::from_slice(nonce), b"", buffer).is_ok()
}

/// The message that encrypting `data` under `key` with `nonce` produces: the
/// nonce, then the sealed data. Data longer than AES-GCM accepts stays as it
/// is behind the nonce.
pub open spec fn sealed_message(key: Seq<u8>, nonce: Seq<u8>, data: Seq<u8>) -> Seq<u8> {
    nonce + if data.len() <= max_plaintext_len() {
        aes256gcm_seal(key, nonce, data)
    } else {
        data
    }
}

/// Whether AES-GCM refuses a sealed body by its length alone: shorter than
/// the tag, or a ciphertext longer than `aes_gcm::C_MAX` (2^36 + 16 bytes).
pub open spec fn body_len_refused(len: int) -> bool {
    len < TAG_LEN || len > max_plaintext_len() + 2 * TAG_LEN
}

/// What decrypting the message `data` under `key` gives: its first 12 bytes
/// are the nonce, the rest is opened; where the rest has a length that
/// AES-GCM refuses, or does not authenticate, it is handed back as it is.
pub open spec fn opened_message(key: Seq<u8>, data: Seq<u8>) -> Seq<u8> {
    let nonce = data.take(NONCE_LEN as int);
    let body = data.skip(NONCE_LEN as int);
    if body_len_refused(body.len() as int) {
        body
    } else {
        match aes256gcm_open(key, nonce, body) {
            Some(p) => p,
            None => body,
        }
    }
}

/// The data lengths for which decryption gives back what encryption sealed:
/// all but those just above the AES-GCM limit, which encryption leaves
/// unsealed but decryption may still try to open.
pub open spec fn recoverable_len(len: int) -> bool {
    len <= max_plaintext_len() || len > max_plaintext_len() + 2 * TAG_LEN
}

/// Encrypts `data` under `key` with the given `nonce` and frames the result
/// as the nonce followed by ciphertext and tag.
pub fn encrypt_with_nonce(data: Vec<u8>, key: &Vec<u8>, nonce: &Vec<u8>) -> (out: Vec<u8>)
    requires
        key@.len() == KEY_LEN,
        nonce@.len() == NONCE_LEN,
    ensures
        out@ == sealed_message(key@, nonce@, data@),
        data@.len() <= max_plaintext_len() ==> out@.len() == data@.len() + NONCE_LEN + TAG_LEN,
        out@.take(NONCE_LEN as int) == nonce@,
        data@.len() <= 0x10_0000_0000 ==> out@ == nonce@ + aes256gcm_seal(key@, nonce@, data@),
        data@.len() <= 0x10_0000_0000 ==> out@.skip(NONCE_LEN as int) == aes256gcm_seal(
            key@,
            out@.take(NONCE_LEN as int),
            data@,
        ),
        data@.len() > 0x10_0000_0000 ==> out@ == nonce@ + data@,
{
    let ghost dv = data@;
    let mut d = data;
    let _ = aes256gcm_encrypt_in_place(key.as_slice(), nonce.as_slice(), &mut d);
    let ghost sealed = d@;
    let mut out = nonce.clone();
    out.append(&mut d);
    assert(out@.take(NONCE_LEN as int) =~= nonce@);
    assert(out@.skip(NONCE_LEN as int) =~= sealed);
    proof {
        lemma_sealed_message_layout(key@, nonce@, dv);
    }
    out
}

/// Encrypts `data` under `key` with a fresh random nonce: the result is the
/// nonce followed by the AES-256-GCM ciphertext and tag.
pub fn encrypt(data: Vec<u8>, key: &Vec<u8>) -> (out: Vec<u8>)
    requires
        key@.len() == KEY_LEN,
    ensures
        exists|nonce: Seq<u8>|
            nonce.len() == NONCE_LEN && out@ == #[trigger] sealed_message(key@, nonce, data@),
        data@.len() <= max_plaintext_len() ==> out@.len() == data@.len() + NONCE_LEN + TAG_LEN,
        out@.len() >= NONCE_LEN,
        data@.len() <= 0x10_0000_0000 ==> out@.skip(NONCE_LEN as int) == aes256gcm_seal(
            key@,
            out@.take(NONCE_LEN as int),
            data@,
        ),
        data@.len() > 0x10_0000_0000 ==> out@.skip(NONCE_LEN as int) == data@,
{
    let nonce = random_nonce();
    let out = encrypt_with_nonce(data, key, &nonce);
    assert(out@ == sealed_message(key@, nonce@, data@));
    out
}

/// Decrypts a message made by `encrypt`: the first 12 bytes are the nonce,
/// the rest ciphertext and tag. Where the rest does not authenticate, it is
/// returned as it is. A message that `encrypt` made under `key` gives back
/// exactly the data it was made from.
pub fn decrypt(data: Vec<u8>, key: &Vec<u8>) -> (plain: Vec<u8>)
    requires
        data@.len() >= NONCE_LEN,
        key@.len() == KEY_LEN,
    ensures
        plain@ == opened_message(key@, data@),
        body_len_refused(data@.len() - NONCE_LEN) ==> plain@ == data@.skip(NONCE_LEN as int),
        forall|nonce: Seq<u8>, p: Seq<u8>|
            nonce.len() == NONCE_LEN && recoverable_len(p.len() as int) && data@
                == #[trigger] sealed_message(key@, nonce, p) ==> plain@ == p,
        forall|nonce: Seq<u8>, p: Seq<u8>|
            nonce.len() == 12 && p.len() <= 0x10_0000_0000 && data@ == nonce
                + #[trigger] aes256gcm_seal(key@, nonce, p) ==> plain@ == p,
        16 <= data@.len() - 12 <= 0x10_0000_0000 + 32 && aes256gcm_open(
            key@,
            data@.take(12),
            data@.skip(12),
        ) is Some ==> plain@ == aes256gcm_open(key@, data@.take(12), data@.skip(12))->0,
        aes256gcm_open(key@, data@.take(12), data@.skip(12)) is None ==> plain@ == data@.skip(12),
        data@.len() - 12 < 16 || data@.len() - 12 > 0x10_0000_0000 + 32 ==> plain@ == data@.skip(
            12,
        ),
{
    let ghost whole = data@;
    let mut nonce = data;
    let mut body = nonce.split_off(NONCE_LEN);
    assert(nonce@ =~= whole.take(NONCE_LEN as int));
    assert(body@ =~= whole.skip(NONCE_LEN as int));
    let _ = aes256gcm_decrypt_in_place(key.as_slice(), nonce.as_slice(), &mut body);
    proof {
        assert forall|n: Seq<u8>, p: Seq<u8>|
            n.len() == NONCE_LEN && recoverable_len(p.len() as int) && whole
                == #[trigger] sealed_message(key@, n, p) implies body@ == p by {
            assert(whole.take(NONCE_LEN as int) =~= n);
            if p.len() <= max_plaintext_len() {
                assert(whole.skip(NONCE_LEN as int) =~= aes256gcm_seal(key@, n, p));
            } else {
                assert(whole.skip(NONCE_LEN as int) =~= p);
            }
        }
        assert forall|n: Seq<u8>, p: Seq<u8>|
            n.len() == 12 && p.len() <= 0x10_0000_0000 && whole == n + #[trigger] aes256gcm_seal(
                key@,
                n,
                p,
            ) implies body@ == p by {
            assert(whole.take(NONCE_LEN as int) =~= n);
            assert(whole.skip(NONCE_LEN as int) =~= aes256gcm_seal(key@, n, p));
        }
        lemma_opened_message_layout(key@, whole);
    }
    body
}

/// The layout of an encrypted message: the nonce, then the AES-256-GCM seal
/// of the data itself under that very nonce; data beyond the AES-GCM limit
/// follows the nonce unsealed.
pub proof fn lemma_sealed_message_layout(key: Seq<u8>, nonce: Seq<u8>, data: Seq<u8>)
    ensures
        data.len() <= 0x10_0000_0000 ==> sealed_message(key, nonce, data) == nonce
            + aes256gcm_seal(key, nonce, data),
        data.len() > 0x10_0000_0000 ==> sealed_message(key, nonce, data) == nonce + data,
        sealed_message(key, nonce, data).take(nonce.len() as int) == nonce,
{
    assert(sealed_message(key, nonce, data).take(nonce.len() as int) =~= nonce);
}

/// How a message is read: its first 12 bytes are the nonce and the rest is
/// opened under that nonce; the opened plaintext is the result, and a rest
/// that AES-GCM refuses by length or that does not authenticate is the
/// result as it is.
pub proof fn lemma_opened_message_layout(key: Seq<u8>, data: Seq<u8>)
    requires
        data.len() >= 12,
    ensures
        16 <= data.len() - 12 <= 0x10_0000_0000 + 32 && aes256gcm_open(
            key,
            data.take(12),
            data.skip(12),
        ) is Some ==> opened_message(key, data) == aes256gcm_open(
            key,
            data.take(12),
            data.skip(12),
        )->0,
        aes256gcm_open(key, data.take(12), data.skip(12)) is None ==> opened_message(key, data)
            == data.skip(12),
        data.len() - 12 < 16 || data.len() - 12 > 0x10_0000_0000 + 32 ==> opened_message(key, data)
            == data.skip(12),
{
}

} // verus!
