use openssl::error::ErrorStack;
use openssl::symm::{encrypt, Cipher};
use tab_decrypt::envelope::Envelope;
use tab_decrypt::error::CryptoError;
use tab_decrypt::key_agreement::{DhKeyPair, DhParameters, SharedSecret};
use tab_decrypt::phase1::{decrypt, phase_1_decrypt, settle_blocks, trim, Phase1Key};

fn secret_of(key: &[u8; 32]) -> SharedSecret {
    let mut bytes = key.to_vec();
    bytes.extend_from_slice(&[0xaa; 96]);
    SharedSecret { bytes }
}

fn key_bytes() -> [u8; 32] {
    let mut key = [0u8; 32];
    for (i, byte) in key.iter_mut().enumerate() {
        *byte = (i * 7 + 1) as u8;
    }
    key
}

#[test]
fn key_is_the_first_thirty_two_bytes() {
    let key = key_bytes();
    let derived = Phase1Key::derive(&secret_of(&key)).unwrap();
    assert_eq!(derived.as_bytes(), &key.to_vec());
    let exact = Phase1Key::derive(&SharedSecret { bytes: key.to_vec() }).unwrap();
    assert_eq!(exact.as_bytes(), &key.to_vec());
}

#[test]
fn key_wants_thirty_two_bytes_of_secret() {
    let short = SharedSecret { bytes: vec![1; 31] };
    assert_eq!(Phase1Key::derive(&short).err(), Some(CryptoError::KeyAgreement));
    let empty = SharedSecret { bytes: vec![] };
    assert_eq!(Phase1Key::derive(&empty).err(), Some(CryptoError::KeyAgreement));
}

#[test]
fn round_trip_returns_the_plaintext() {
    let key = key_bytes();
    let iv = [0x42u8; 16];
    for len in [0usize, 1, 15, 16, 17, 20, 31, 32, 100] {
        let plaintext: Vec<u8> = (0..len).map(|i| (i * 3 + 5) as u8).collect();
        let ciphertext = encrypt(Cipher::aes_256_cbc(), &key, Some(&iv), &plaintext).unwrap();
        let loss = (ciphertext.len() - plaintext.len()) as u8;
        let envelope = Envelope::new(vec![2], iv.to_vec(), loss, ciphertext).unwrap();
        let derived = Phase1Key::derive(&secret_of(&key)).unwrap();
        assert_eq!(decrypt(&envelope, &derived), Ok(plaintext));
    }
}

#[test]
fn padding_is_cut_and_not_checked() {
    let key = key_bytes();
    let iv = [0x42u8; 16];
    let plaintext = b"twenty bytes of text".to_vec();
    let ciphertext = encrypt(Cipher::aes_256_cbc(), &key, Some(&iv), &plaintext).unwrap();
    assert_eq!(ciphertext.len(), 32);
    let derived = Phase1Key::derive(&secret_of(&key)).unwrap();
    let whole = Envelope::new(vec![], iv.to_vec(), 0, ciphertext.clone()).unwrap();
    let mut padded = plaintext.clone();
    padded.extend_from_slice(&[12; 12]);
    assert_eq!(decrypt(&whole, &derived), Ok(padded));
    let more = Envelope::new(vec![], iv.to_vec(), 22, ciphertext).unwrap();
    assert_eq!(decrypt(&more, &derived), Ok(plaintext[..10].to_vec()));
}

#[test]
fn whole_length_lost_gives_empty_output() {
    let key = key_bytes();
    let iv = [1u8; 16];
    let derived = Phase1Key::derive(&secret_of(&key)).unwrap();
    let ciphertext = encrypt(Cipher::aes_256_cbc(), &key, Some(&iv), &[7u8; 20]).unwrap();
    assert_eq!(ciphertext.len(), 32);
    let envelope = Envelope::new(vec![], iv.to_vec(), 32, ciphertext).unwrap();
    assert_eq!(decrypt(&envelope, &derived), Ok(vec![]));
    let nothing = Envelope::new(vec![], iv.to_vec(), 0, vec![]).unwrap();
    assert_eq!(decrypt(&nothing, &derived), Ok(vec![]));
    assert_eq!(trim(vec![5; 16], 16, 16), Ok(vec![]));
}

#[test]
fn loss_beyond_the_ciphertext_is_an_integrity_error() {
    let key = key_bytes();
    let iv = [1u8; 16];
    let derived = Phase1Key::derive(&secret_of(&key)).unwrap();
    let ciphertext = encrypt(Cipher::aes_256_cbc(), &key, Some(&iv), &[7u8; 20]).unwrap();
    let envelope = Envelope::new(vec![], iv.to_vec(), 33, ciphertext).unwrap();
    assert_eq!(decrypt(&envelope, &derived), Err(CryptoError::Integrity));
    let nothing = Envelope::new(vec![], iv.to_vec(), 1, vec![]).unwrap();
    assert_eq!(decrypt(&nothing, &derived), Err(CryptoError::Integrity));
}

#[test]
fn broken_block_is_a_decryption_error() {
    let key = key_bytes();
    let iv = [1u8; 16];
    let derived = Phase1Key::derive(&secret_of(&key)).unwrap();
    for len in [1usize, 15, 17, 31] {
        let envelope = Envelope::new(vec![], iv.to_vec(), 0, vec![3; len]).unwrap();
        assert_eq!(decrypt(&envelope, &derived), Err(CryptoError::Decryption));
    }
}

#[test]
fn trim_cuts_from_the_end() {
    assert_eq!(trim(vec![1, 2, 3, 4, 5], 5, 2), Ok(vec![1, 2, 3]));
    assert_eq!(trim(vec![1, 2, 3, 4, 5], 5, 0), Ok(vec![1, 2, 3, 4, 5]));
    assert_eq!(trim(vec![1, 2, 3, 4, 5], 5, 5), Ok(vec![]));
    assert_eq!(trim(vec![], 0, 0), Ok(vec![]));
}

#[test]
fn trim_checks_the_lengths() {
    assert_eq!(trim(vec![1, 2, 3, 4, 5], 5, 6), Err(CryptoError::Integrity));
    assert_eq!(trim(vec![1, 2, 3, 4, 5], 4, 1), Err(CryptoError::Integrity));
    assert_eq!(trim(vec![1, 2, 3, 4, 5], 6, 1), Err(CryptoError::Integrity));
    assert_eq!(trim(vec![], 0, 1), Err(CryptoError::Integrity));
}

#[test]
fn settle_blocks_maps_the_failure() {
    assert_eq!(settle_blocks(Err(ErrorStack::get()), 16, 0), Err(CryptoError::Decryption));
    assert_eq!(settle_blocks(Ok(vec![9; 16]), 16, 4), Ok(vec![9; 12]));
    assert_eq!(settle_blocks(Ok(vec![9; 16]), 32, 4), Err(CryptoError::Integrity));
}

fn group() -> DhParameters {
    DhParameters {
        modulus: openssl::bn::BigNum::get_rfc2409_prime_1024().unwrap().to_vec(),
        generator: vec![2],
    }
}

fn wrap(server_key: &[u8], iv: &[u8; 16], loss: u8, ciphertext: &[u8]) -> Vec<u8> {
    let mut raw = vec![1u8];
    raw.extend_from_slice(&(server_key.len() as u32).to_be_bytes());
    raw.extend_from_slice(server_key);
    raw.extend_from_slice(iv);
    raw.push(loss);
    raw.extend_from_slice(ciphertext);
    raw
}

#[test]
fn first_phase_runs_from_raw_bytes() {
    let client = DhKeyPair::from_exponent(&group(), vec![0x11; 20]).unwrap();
    let server = DhKeyPair::from_exponent(&group(), vec![0x22; 20]).unwrap();
    let secret = server.compute_shared_secret(client.public_value()).unwrap();
    let iv = [0x33u8; 16];
    let plaintext = b"the inner layer, still encrypted".to_vec();
    let ciphertext =
        encrypt(Cipher::aes_256_cbc(), &secret.bytes[..32], Some(&iv), &plaintext).unwrap();
    let loss = (ciphertext.len() - plaintext.len()) as u8;
    let raw = wrap(server.public_value(), &iv, loss, &ciphertext);
    assert_eq!(phase_1_decrypt(&raw, &client), Ok(plaintext));
}

#[test]
fn first_phase_reports_the_first_failure() {
    let client = DhKeyPair::from_exponent(&group(), vec![0x11; 20]).unwrap();
    assert_eq!(phase_1_decrypt(&[0u8; 10], &client), Err(CryptoError::EnvelopeFormat));
    let above = vec![0xffu8; 128];
    let raw = wrap(&above, &[0u8; 16], 0, &[0u8; 16]);
    assert_eq!(phase_1_decrypt(&raw, &client), Err(CryptoError::KeyAgreement));
    let raw = wrap(&[5], &[0u8; 16], 0, &[0u8; 17]);
    assert_eq!(phase_1_decrypt(&raw, &client), Err(CryptoError::Decryption));
    let raw = wrap(&[5], &[0u8; 16], 17, &[0u8; 16]);
    assert_eq!(phase_1_decrypt(&raw, &client), Err(CryptoError::Integrity));
    let tiny = DhParameters { modulus: vec![23], generator: vec![5] };
    let narrow = DhKeyPair::from_exponent(&tiny, vec![4]).unwrap();
    let raw = wrap(&[10], &[0u8; 16], 0, &[0u8; 16]);
    assert_eq!(phase_1_decrypt(&raw, &narrow), Err(CryptoError::KeyAgreement));
}

#[test]
fn both_ends_get_the_same_out_of_the_first_phase() {
    let first = DhKeyPair::from_exponent(&group(), vec![0x31; 20]).unwrap();
    let second = DhKeyPair::from_exponent(&group(), vec![0x57; 20]).unwrap();
    let iv = [0x0fu8; 16];
    let ciphertext = vec![0x6du8; 48];
    let to_first = wrap(second.public_value(), &iv, 9, &ciphertext);
    let to_second = wrap(first.public_value(), &iv, 9, &ciphertext);
    let one = phase_1_decrypt(&to_first, &first);
    let other = phase_1_decrypt(&to_second, &second);
    assert!(one.is_ok());
    assert_eq!(one, other);
    assert_eq!(one.unwrap().len(), 39);
}

#[test]
fn first_phase_with_the_whole_length_lost_is_empty() {
    let client = DhKeyPair::from_exponent(&group(), vec![0x11; 20]).unwrap();
    let raw = wrap(&[5], &[0u8; 16], 32, &[0x44u8; 32]);
    assert_eq!(phase_1_decrypt(&raw, &client), Ok(vec![]));
}
