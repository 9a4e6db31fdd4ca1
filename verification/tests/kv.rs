use hala::kv::{KeyValue, KeyValueReturn};
use std::io;

#[test]
fn kv_strings_and_bytes() {
    assert_eq!("hello".to_bytes().unwrap(), "hello");
    assert_eq!(String::from("world").to_bytes().unwrap(), "world");
    assert_eq!((&b"\x00\x01"[..]).to_bytes().unwrap(), b"\x00\x01");
    assert_eq!(vec![1u8, 2, 3].to_bytes().unwrap(), vec![1u8, 2, 3]);
    assert_eq!(String::from_bytes(b"hello 1").unwrap(), "hello 1");
    assert_eq!(Vec::<u8>::from_bytes(b"\xff\x00").unwrap(), vec![0xffu8, 0]);
    let err = String::from_bytes(b"\xff\xfe").unwrap_err();
    assert_eq!(err.kind(), io::ErrorKind::InvalidData);
}

#[test]
fn kv_numbers_round_trip() {
    assert_eq!(u32::from_bytes(&7u32.to_bytes().unwrap()).unwrap(), 7);
    assert_eq!(i64::from_bytes(&(-99i64).to_bytes().unwrap()).unwrap(), -99);
    assert_eq!(u128::from_bytes(&u128::MAX.to_bytes().unwrap()).unwrap(), u128::MAX);
    assert_eq!(i8::from_bytes(&[0xff]).unwrap(), -1);
    assert_eq!(usize::from_bytes(&11usize.to_bytes().unwrap()).unwrap(), 11);
    assert_eq!(7u16.to_bytes().unwrap(), 7u16.to_ne_bytes());
    let err = u64::from_bytes(&[1, 2, 3]).unwrap_err();
    assert_eq!(err.kind(), io::ErrorKind::InvalidInput);
    assert_eq!(err.to_string(), "num data len mismatch. 8");
}

#[test]
fn kv_numbers_in_one_byte_order() {
    let b = 0x0102u16.to_bytes().unwrap();
    assert!(b == [2, 1] || b == [1, 2]);
    let b = (-2i32).to_bytes().unwrap();
    assert!(b == [0xfe, 0xff, 0xff, 0xff] || b == [0xff, 0xff, 0xff, 0xfe]);
}
