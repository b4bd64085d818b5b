use endian_int::{as_bytes, BigEndian, Encoding, LittleEndian};
use std::num::Wrapping;

#[test]
fn test_big_endian() {
    let x = BigEndian::from(1u32);
    assert_eq!(u32::from(x), 1);
}

#[test]
fn round_trip_u32_both_orders() {
    for v in [0u32, 1, 0x01020304, 0x8000_0001, u32::MAX] {
        assert_eq!(u32::from(BigEndian::from(v)), v);
        assert_eq!(u32::from(LittleEndian::from(v)), v);
    }
}

#[test]
fn round_trip_u64_both_orders() {
    for v in [0u64, 1, 0x0102030405060708, 0x8000_0000_0000_0001, u64::MAX] {
        assert_eq!(u64::from(BigEndian::from(v)), v);
        assert_eq!(u64::from(LittleEndian::from(v)), v);
    }
}

#[test]
fn round_trip_through_into() {
    let v: u64 = LittleEndian::from(0xdead_beef_0000_0042u64).into();
    assert_eq!(v, 0xdead_beef_0000_0042);
    let w: u32 = BigEndian::from(0x1234_5678u32).into();
    assert_eq!(w, 0x1234_5678);
}

#[test]
fn zero_is_all_zero_bytes() {
    let a = <BigEndian<u32> as Encoding<u32>>::zero();
    let b = <LittleEndian<u32> as Encoding<u32>>::zero();
    let c = <BigEndian<u64> as Encoding<u64>>::zero();
    let d = <LittleEndian<u64> as Encoding<u64>>::zero();
    assert_eq!(as_bytes(&[a]), vec![0u8; 4]);
    assert_eq!(as_bytes(&[b]), vec![0u8; 4]);
    assert_eq!(as_bytes(&[c]), vec![0u8; 8]);
    assert_eq!(as_bytes(&[d]), vec![0u8; 8]);
    assert_eq!(u32::from(a), 0);
    assert_eq!(u32::from(b), 0);
    assert_eq!(u64::from(c), 0);
    assert_eq!(u64::from(d), 0);
    assert_eq!(as_bytes(&[BigEndian::from(0u32)]), as_bytes(&[a]));
    assert_eq!(as_bytes(&[LittleEndian::from(0u64)]), as_bytes(&[d]));
}

#[test]
fn u32_order_of_stored_bytes() {
    assert_eq!(as_bytes(&[BigEndian::from(0x01020304u32)]), vec![0x01, 0x02, 0x03, 0x04]);
    assert_eq!(as_bytes(&[LittleEndian::from(0x01020304u32)]), vec![0x04, 0x03, 0x02, 0x01]);
}

#[test]
fn u64_order_of_stored_bytes() {
    let v = 0x0102030405060708u64;
    assert_eq!(
        as_bytes(&[BigEndian::from(v)]),
        vec![0x01, 0x02, 0x03, 0x04, 0x05, 0x06, 0x07, 0x08]
    );
    assert_eq!(
        as_bytes(&[LittleEndian::from(v)]),
        vec![0x08, 0x07, 0x06, 0x05, 0x04, 0x03, 0x02, 0x01]
    );
}

#[test]
fn wrapping_source_stores_the_same() {
    let w = Wrapping(u32::MAX) + Wrapping(3u32);
    assert_eq!(w.0, 2);
    assert_eq!(as_bytes(&[BigEndian::from(w)]), as_bytes(&[BigEndian::from(2u32)]));
    assert_eq!(as_bytes(&[LittleEndian::from(w)]), as_bytes(&[LittleEndian::from(2u32)]));
    let m = Wrapping(0x0100_0000_0000_0000u64) * Wrapping(0x0300u64);
    assert_eq!(as_bytes(&[BigEndian::from(m)]), as_bytes(&[BigEndian::from(m.0)]));
    assert_eq!(as_bytes(&[LittleEndian::from(m)]), as_bytes(&[LittleEndian::from(m.0)]));
    assert_eq!(u64::from(LittleEndian::from(m)), 0);
}

#[test]
fn byte_view_reads_back_in_order() {
    let vals = [0x01020304u32, 0, u32::MAX, 0xa0b0c0d0];
    let big: Vec<BigEndian<u32>> = vals.iter().map(|v| BigEndian::from(*v)).collect();
    let little: Vec<LittleEndian<u32>> = vals.iter().map(|v| LittleEndian::from(*v)).collect();
    let bb = as_bytes(&big);
    let lb = as_bytes(&little);
    assert_eq!(bb.len(), 4 * vals.len());
    assert_eq!(lb.len(), 4 * vals.len());
    for (i, v) in vals.iter().enumerate() {
        let chunk: [u8; 4] = bb[4 * i..4 * i + 4].try_into().unwrap();
        assert_eq!(u32::from_be_bytes(chunk), *v);
        let chunk: [u8; 4] = lb[4 * i..4 * i + 4].try_into().unwrap();
        assert_eq!(u32::from_le_bytes(chunk), *v);
    }
}

#[test]
fn byte_view_of_nothing_is_empty() {
    let none: [BigEndian<u64>; 0] = [];
    assert!(as_bytes(&none).is_empty());
}

#[test]
fn byte_view_of_u64_run() {
    let xs = [BigEndian::from(1u64), BigEndian::from(0x0102030405060708u64)];
    assert_eq!(
        as_bytes(&xs),
        vec![0, 0, 0, 0, 0, 0, 0, 1, 0x01, 0x02, 0x03, 0x04, 0x05, 0x06, 0x07, 0x08]
    );
}

#[test]
fn raw_value_keeps_the_stored_order() {
    let raw = BigEndian::from(0x01020304u32).into_raw_value();
    assert!(raw == 0x01020304 || raw == 0x04030201);
    assert_eq!(raw.to_ne_bytes(), [0x01, 0x02, 0x03, 0x04]);
    let raw = LittleEndian::from(0x01020304u32).into_raw_value();
    assert_eq!(raw.to_ne_bytes(), [0x04, 0x03, 0x02, 0x01]);
    let raw = BigEndian::from(0x0102030405060708u64).into_raw_value();
    assert_eq!(raw.to_ne_bytes(), [1, 2, 3, 4, 5, 6, 7, 8]);
    let raw = LittleEndian::from(0x0102030405060708u64).into_raw_value();
    assert_eq!(raw.to_ne_bytes(), [8, 7, 6, 5, 4, 3, 2, 1]);
}

#[test]
fn copies_are_independent() {
    let a = BigEndian::from(7u32);
    let b = a;
    let c = a.clone();
    assert_eq!(u32::from(a), 7);
    assert_eq!(u32::from(b), 7);
    assert_eq!(u32::from(c), 7);
}
