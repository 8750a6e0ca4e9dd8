use openssl::bn::BigNum;
use openssl::symm::{encrypt, Cipher};
use tab_decrypt::error::CryptoError;
use tab_decrypt::key_agreement::{generate_key_pair, DhKeyPair, DhParameters, KeyPolicy};
use tab_decrypt::session::recover;

const KEY_TEXT: &str = "0f1e2d3c4b5a69788796a5b4c3d2e1f0";

fn group() -> DhParameters {
    DhParameters {
        modulus: BigNum::get_rfc2409_prime_1024().unwrap().to_vec(),
        generator: vec![2],
    }
}

fn seal(server: &DhKeyPair, client_public: &[u8], content: &[u8]) -> Vec<u8> {
    let mut second_key = hex::decode(KEY_TEXT).unwrap();
    second_key.extend_from_slice(&[0u8; 16]);
    let inner = encrypt(Cipher::aes_256_cbc(), &second_key, Some(&[0u8; 16]), content).unwrap();
    let secret = server.compute_shared_secret(client_public).unwrap();
    let iv = [0x5cu8; 16];
    let outer = encrypt(Cipher::aes_256_cbc(), &secret.bytes[..32], Some(&iv), &inner).unwrap();
    let mut raw = vec![0u8];
    raw.extend_from_slice(&(server.public_value().len() as u32).to_be_bytes());
    raw.extend_from_slice(server.public_value());
    raw.extend_from_slice(&iv);
    raw.push((outer.len() - inner.len()) as u8);
    raw.extend_from_slice(&outer);
    raw
}

#[test]
fn session_recovers_the_content() {
    let client = generate_key_pair(&group(), KeyPolicy::Fixed(vec![0x42; 24])).unwrap();
    let server = generate_key_pair(&group(), KeyPolicy::Random).unwrap();
    let content = b"the file that was asked for, byte for byte".to_vec();
    let raw = seal(&server, client.public_value(), &content);
    assert_eq!(recover(&client, &raw, KEY_TEXT), Ok(content));
}

#[test]
fn session_with_the_wrong_key_pair_gives_no_content() {
    let client = generate_key_pair(&group(), KeyPolicy::Fixed(vec![0x42; 24])).unwrap();
    let other = generate_key_pair(&group(), KeyPolicy::Fixed(vec![0x43; 24])).unwrap();
    let server = generate_key_pair(&group(), KeyPolicy::Random).unwrap();
    let content = b"the file that was asked for, byte for byte".to_vec();
    let raw = seal(&server, client.public_value(), &content);
    assert_ne!(recover(&other, &raw, KEY_TEXT), Ok(content));
}

#[test]
fn session_ends_at_the_first_failure() {
    let client = generate_key_pair(&group(), KeyPolicy::Fixed(vec![0x42; 24])).unwrap();
    let server = generate_key_pair(&group(), KeyPolicy::Random).unwrap();
    let raw = seal(&server, client.public_value(), b"content");
    assert_eq!(recover(&client, &raw[..20], "nothex"), Err(CryptoError::EnvelopeFormat));
    assert_eq!(recover(&client, &raw, "nothex"), Err(CryptoError::KeyFormat));
    assert_eq!(recover(&client, &raw[..raw.len() - 1], KEY_TEXT), Err(CryptoError::Decryption));
}
