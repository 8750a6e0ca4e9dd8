use tab_decrypt::envelope::Envelope;
use tab_decrypt::error::CryptoError;

fn sample(key: &[u8], iv: &[u8; 16], loss: u8, ciphertext: &[u8]) -> Vec<u8> {
    let mut raw = vec![0x7f];
    raw.extend_from_slice(&(key.len() as u32).to_be_bytes());
    raw.extend_from_slice(key);
    raw.extend_from_slice(iv);
    raw.push(loss);
    raw.extend_from_slice(ciphertext);
    raw
}

#[test]
fn parse_cuts_the_fields_at_their_offsets() {
    let iv = [9u8; 16];
    let raw = sample(&[1, 2, 3], &iv, 5, &[10, 11, 12, 13]);
    let envelope = Envelope::parse(&raw).unwrap();
    assert_eq!(envelope.server_public_key_size(), 3);
    assert_eq!(envelope.server_public_key(), &vec![1, 2, 3]);
    assert_eq!(envelope.iv(), &iv.to_vec());
    assert_eq!(envelope.length_loss(), 5);
    assert_eq!(envelope.ciphertext(), &vec![10, 11, 12, 13]);
}

#[test]
fn parse_reads_the_size_big_endian() {
    let key: Vec<u8> = (0..300u32).map(|i| (i % 251) as u8).collect();
    let raw = sample(&key, &[0u8; 16], 0, &[1]);
    assert_eq!(&raw[1..5], &[0, 0, 1, 44]);
    let envelope = Envelope::parse(&raw).unwrap();
    assert_eq!(envelope.server_public_key(), &key);
    assert_eq!(envelope.ciphertext(), &vec![1]);
}

#[test]
fn parse_ignores_the_marker() {
    let mut raw = sample(&[4, 5], &[1u8; 16], 2, &[8; 16]);
    let first = Envelope::parse(&raw).unwrap();
    raw[0] = 0xee;
    let second = Envelope::parse(&raw).unwrap();
    assert_eq!(first.server_public_key(), second.server_public_key());
    assert_eq!(first.iv(), second.iv());
    assert_eq!(first.length_loss(), second.length_loss());
    assert_eq!(first.ciphertext(), second.ciphertext());
}

#[test]
fn parse_accepts_an_empty_ciphertext() {
    let raw = sample(&[4, 5], &[1u8; 16], 0, &[]);
    assert_eq!(raw.len(), 5 + 2 + 17);
    let envelope = Envelope::parse(&raw).unwrap();
    assert_eq!(envelope.ciphertext().len(), 0);
}

#[test]
fn parse_refuses_one_byte_less_than_needed() {
    let raw = sample(&[4, 5], &[1u8; 16], 0, &[]);
    let short = &raw[..raw.len() - 1];
    assert_eq!(Envelope::parse(short).err(), Some(CryptoError::EnvelopeFormat));
}

#[test]
fn parse_refuses_short_buffers() {
    for len in 0..22 {
        let raw = vec![0u8; len];
        assert_eq!(Envelope::parse(&raw).err(), Some(CryptoError::EnvelopeFormat));
    }
    assert!(Envelope::parse(&[0u8; 22]).is_ok());
}

#[test]
fn parse_refuses_a_size_beyond_the_buffer() {
    let mut raw = sample(&[4, 5], &[1u8; 16], 0, &[7; 32]);
    raw[1..5].copy_from_slice(&1000u32.to_be_bytes());
    assert_eq!(Envelope::parse(&raw).err(), Some(CryptoError::EnvelopeFormat));
    raw[1..5].copy_from_slice(&u32::MAX.to_be_bytes());
    assert_eq!(Envelope::parse(&raw).err(), Some(CryptoError::EnvelopeFormat));
}

#[test]
fn parse_twice_gives_the_same_fields() {
    let raw = sample(&[1, 2, 3, 4], &[3u8; 16], 7, &[5; 48]);
    let first = Envelope::parse(&raw).unwrap();
    let second = Envelope::parse(&raw).unwrap();
    assert_eq!(first.server_public_key_size(), second.server_public_key_size());
    assert_eq!(first.server_public_key(), second.server_public_key());
    assert_eq!(first.iv(), second.iv());
    assert_eq!(first.length_loss(), second.length_loss());
    assert_eq!(first.ciphertext(), second.ciphertext());
}

#[test]
fn new_wants_a_sixteen_byte_iv() {
    assert!(Envelope::new(vec![1], vec![0; 16], 0, vec![]).is_some());
    assert!(Envelope::new(vec![1], vec![0; 15], 0, vec![]).is_none());
    assert!(Envelope::new(vec![1], vec![0; 17], 0, vec![]).is_none());
    let envelope = Envelope::new(vec![1, 2], vec![6; 16], 3, vec![4, 5]).unwrap();
    assert_eq!(envelope.server_public_key(), &vec![1, 2]);
    assert_eq!(envelope.iv(), &vec![6; 16]);
    assert_eq!(envelope.length_loss(), 3);
    assert_eq!(envelope.ciphertext(), &vec![4, 5]);
}

#[test]
fn plaintext_len_is_the_ciphertext_less_the_loss() {
    let envelope = Envelope::new(vec![], vec![0; 16], 5, vec![1; 32]).unwrap();
    assert_eq!(envelope.plaintext_len(), Some(27));
    let envelope = Envelope::new(vec![], vec![0; 16], 32, vec![1; 32]).unwrap();
    assert_eq!(envelope.plaintext_len(), Some(0));
    let envelope = Envelope::new(vec![], vec![0; 16], 33, vec![1; 32]).unwrap();
    assert_eq!(envelope.plaintext_len(), None);
}
