use aes_gcm::aead::{Aead, KeyInit};
use aes_gcm::{Aes256Gcm, Nonce};
use cloudencryptor::encryption::{decrypt, encrypt, encrypt_with_nonce};
use cloudencryptor::key::derive_key;

fn key() -> Vec<u8> {
    derive_key("correct horse battery staple")
}

#[test]
fn encrypt_then_decrypt_gives_back_the_data() {
    let k = key();
    for data in [vec![], vec![1u8], b"hello, drive".to_vec(), vec![7u8; 4096]].iter() {
        let sealed = encrypt(data.clone(), &k);
        assert_eq!(decrypt(sealed, &k), *data);
    }
}

#[test]
fn sealed_message_is_nonce_ciphertext_and_tag() {
    let k = key();
    let nonce = vec![3u8; 12];
    let data = b"attack at dawn".to_vec();
    let out = encrypt_with_nonce(data.clone(), &k, &nonce);
    assert_eq!(out.len(), data.len() + 12 + 16);
    assert_eq!(&out[..12], &nonce[..]);
    let cipher = Aes256Gcm::new_from_slice(&k).unwrap();
    let expected = cipher.encrypt(Nonce::from_slice(&nonce), data.as_slice()).unwrap();
    assert_eq!(&out[12..], &expected[..]);
    assert_ne!(&out[12..12 + data.len()], &data[..]);
}

#[test]
fn encrypt_uses_fresh_nonces() {
    let k = key();
    let a = encrypt(b"same".to_vec(), &k);
    let b = encrypt(b"same".to_vec(), &k);
    assert_eq!(a.len(), 4 + 28);
    assert_ne!(a, b);
    assert_eq!(decrypt(a, &k), b"same".to_vec());
    assert_eq!(decrypt(b, &k), b"same".to_vec());
}

#[test]
fn tampered_message_comes_back_undecrypted() {
    let k = key();
    let mut sealed = encrypt_with_nonce(b"payload".to_vec(), &k, &vec![9u8; 12]);
    let last = sealed.len() - 1;
    sealed[last] ^= 1;
    let body = sealed[12..].to_vec();
    assert_eq!(decrypt(sealed, &k), body);
}

#[test]
fn wrong_key_leaves_body_as_is() {
    let sealed = encrypt(b"payload".to_vec(), &key());
    let body = sealed[12..].to_vec();
    assert_eq!(decrypt(sealed, &derive_key("other")), body);
}

#[test]
fn short_message_comes_back_without_nonce() {
    let k = key();
    let data: Vec<u8> = (0u8..20).collect();
    assert_eq!(decrypt(data.clone(), &k), data[12..].to_vec());
    assert_eq!(decrypt(vec![0u8; 12], &k), Vec::<u8>::new());
}

#[test]
fn body_shorter_than_tag_comes_back_unchanged() {
    let data: Vec<u8> = (1u8..=14).collect();
    assert_eq!(decrypt(data, &vec![0u8; 32]), vec![13u8, 14]);
    assert_eq!(decrypt(vec![0u8; 12], &vec![0u8; 32]), Vec::<u8>::new());
    let body: Vec<u8> = (0u8..15).collect();
    let mut data = vec![5u8; 12];
    data.extend_from_slice(&body);
    assert_eq!(decrypt(data, &key()), body);
}
