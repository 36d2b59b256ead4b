use cryptovec::CryptoVec;
use thrussh::codec::{push_packet, push_string, push_u32, read_string, read_u32, read_u8};

#[test]
fn u32_is_written_big_endian() {
    let mut v: Vec<u8> = Vec::new();
    push_u32(&mut v, 0x01020304);
    assert_eq!(v, vec![1, 2, 3, 4]);
}

#[test]
fn string_round_trips() {
    let mut v: Vec<u8> = Vec::new();
    push_string(&mut v, b"hello");
    assert_eq!(v, vec![0, 0, 0, 5, b'h', b'e', b'l', b'l', b'o']);
    let (s, p) = read_string(&v, 0).unwrap();
    assert_eq!(s, b"hello".to_vec());
    assert_eq!(p, 9);
}

#[test]
fn truncated_reads_fail() {
    let v = vec![0u8, 0, 0, 9, 1, 2];
    assert!(read_string(&v, 0).is_none());
    assert!(read_u32(&v, 3).is_none());
    assert!(read_u8(&v, 6).is_none());
    assert_eq!(read_u32(&v, 0), Some((9, 4)));
    assert_eq!(read_u8(&v, 5), Some((2, 6)));
}

#[test]
fn packet_is_framed_with_its_length() {
    let mut w = CryptoVec::new();
    push_packet(&mut w, &[52]);
    push_packet(&mut w, &[1, 2]);
    assert_eq!(w.to_vec(), vec![0, 0, 0, 1, 52, 0, 0, 0, 2, 1, 2]);
}
