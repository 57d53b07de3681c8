use tox::binary_io::{DecodeError, EncodeError};
use tox::crypto_core::PublicKey;
use tox::new_peer::NewPeer;

fn key(first: u8) -> PublicKey {
    let mut bytes = [0u8; 32];
    for (i, b) in bytes.iter_mut().enumerate() {
        *b = first.wrapping_add(i as u8);
    }
    PublicKey(bytes)
}

fn sample() -> NewPeer {
    NewPeer::new(1, 2, 3, 4, key(0x20), key(0x80))
}

fn encode(p: &NewPeer) -> Vec<u8> {
    let mut buf = vec![0u8; 76];
    assert_eq!(p.to_bytes(&mut buf, 0), Ok(76));
    buf
}

#[test]
fn new_peer_encode_decode() {
    let p = NewPeer::new(1, 2, 3, 4, key(7), key(99));
    let bytes = encode(&p);
    let (decoded, consumed) = NewPeer::from_bytes(&bytes).unwrap();
    assert_eq!(decoded, p);
    assert_eq!(consumed, 76);
}

#[test]
fn encodes_the_documented_layout() {
    let bytes = encode(&sample());
    let mut expected = vec![0x63, 0x00, 0x01, 0x00, 0x02, 0x00, 0x00, 0x00, 0x03, 0x10, 0x00, 0x04];
    expected.extend_from_slice(&key(0x20).0);
    expected.extend_from_slice(&key(0x80).0);
    assert_eq!(bytes, expected);
    let (decoded, consumed) = NewPeer::from_bytes(&bytes).unwrap();
    assert_eq!(decoded, sample());
    assert_eq!(consumed, 76);
}

#[test]
fn encodes_integers_big_endian() {
    let p = NewPeer::new(0xABCD, 0x0102, 0xDEADBEEF, 0xFFFF, key(0), key(1));
    let bytes = encode(&p);
    assert_eq!(&bytes[1..3], &[0xAB, 0xCD]);
    assert_eq!(&bytes[3..5], &[0x01, 0x02]);
    assert_eq!(&bytes[5..9], &[0xDE, 0xAD, 0xBE, 0xEF]);
    assert_eq!(&bytes[10..12], &[0xFF, 0xFF]);
    assert_eq!(NewPeer::from_bytes(&bytes).unwrap().0, p);
}

#[test]
fn decodes_one_packet_of_a_longer_stream() {
    let mut bytes = encode(&sample());
    let other = NewPeer::new(9, 8, 7, 6, key(1), key(2));
    bytes.extend_from_slice(&encode(&other));
    let (first, n) = NewPeer::from_bytes(&bytes).unwrap();
    assert_eq!(first, sample());
    let (second, m) = NewPeer::from_bytes(&bytes[n..]).unwrap();
    assert_eq!(second, other);
    assert_eq!(n + m, bytes.len());
}

#[test]
fn rejects_wrong_outer_tag() {
    let mut bytes = encode(&sample());
    bytes[0] = 0x64;
    assert_eq!(NewPeer::from_bytes(&bytes), Err(DecodeError::WrongTag));
    assert_eq!(NewPeer::from_bytes(&[0x00]), Err(DecodeError::WrongTag));
}

#[test]
fn rejects_wrong_inner_tag() {
    let mut bytes = encode(&sample());
    bytes[9] = 0x11;
    assert_eq!(NewPeer::from_bytes(&bytes), Err(DecodeError::WrongTag));
    assert_eq!(NewPeer::from_bytes(&bytes[..10]), Err(DecodeError::WrongTag));
}

#[test]
fn rejects_every_proper_prefix() {
    let bytes = encode(&sample());
    for k in 0..76 {
        assert_eq!(NewPeer::from_bytes(&bytes[..k]), Err(DecodeError::Truncated), "prefix {}", k);
    }
}

#[test]
fn rejects_too_small_destination() {
    let p = sample();
    let mut buf = vec![0xEEu8; 75];
    assert_eq!(p.to_bytes(&mut buf, 0), Err(EncodeError::InsufficientCapacity));
    assert_eq!(buf, vec![0xEEu8; 75]);
    let mut buf = vec![0xEEu8; 100];
    assert_eq!(p.to_bytes(&mut buf, 25), Err(EncodeError::InsufficientCapacity));
    assert_eq!(p.to_bytes(&mut buf, 200), Err(EncodeError::InsufficientCapacity));
    assert_eq!(buf, vec![0xEEu8; 100]);
}

#[test]
fn encodes_at_an_offset_and_keeps_the_rest() {
    let p = sample();
    let mut buf = vec![0xEEu8; 80];
    assert_eq!(p.to_bytes(&mut buf, 2), Ok(78));
    assert_eq!(&buf[..2], &[0xEE, 0xEE]);
    assert_eq!(&buf[78..], &[0xEE, 0xEE]);
    assert_eq!(&buf[2..78], &encode(&p)[..]);
}

#[test]
fn packets_compare_by_every_field() {
    let p = sample();
    assert_eq!(p, sample());
    assert_ne!(p, NewPeer::new(1, 2, 3, 5, key(0x20), key(0x80)));
    assert_ne!(p, NewPeer::new(1, 2, 4, 4, key(0x20), key(0x80)));
    assert_ne!(p, NewPeer::new(1, 2, 3, 4, key(0x21), key(0x80)));
    assert_ne!(p, NewPeer::new(1, 2, 3, 4, key(0x20), key(0x81)));
}

#[test]
fn public_key_from_slice() {
    let bytes: Vec<u8> = (0..32).collect();
    let k = PublicKey::from_slice(&bytes).unwrap();
    assert_eq!(k.0.to_vec(), bytes);
    assert!(PublicKey::from_slice(&bytes[..31]).is_none());
    assert!(PublicKey::from_slice(&[0u8; 33]).is_none());
    assert_eq!(PublicKey::from_bytes(&bytes, 1), Err(DecodeError::Truncated));
    assert_ne!(k, key(1));
}
