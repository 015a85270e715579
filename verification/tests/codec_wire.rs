use falcon_net::codec::{
    read_bool, read_byte_vec, read_bytes, read_i32, read_i64, read_string, read_u16, read_u8,
    read_varint, varint_size, write_bool, write_byte_vec, write_bytes, write_i32, write_i64,
    write_string, write_u16, write_u8, write_varint, ReadError, WriteError,
};
use falcon_net::wire::{
    AsRefU8, PacketRead, PacketReadSeed, PacketSize, PacketSizeSeed, PacketString, PacketWrite,
    PacketWriteSeed, VarI32,
};

#[test]
fn varint_boundary_zero() {
    let mut buf: Vec<u8> = Vec::new();
    write_varint(&mut buf, 0);
    assert_eq!(buf, vec![0x00]);
}

#[test]
fn varint_boundary_127() {
    let mut buf: Vec<u8> = Vec::new();
    write_varint(&mut buf, 127);
    assert_eq!(buf, vec![0x7F]);
}

#[test]
fn varint_boundary_128() {
    let mut buf: Vec<u8> = Vec::new();
    write_varint(&mut buf, 128);
    assert_eq!(buf, vec![0x80, 0x01]);
}

#[test]
fn varint_boundary_300() {
    let mut buf: Vec<u8> = Vec::new();
    write_varint(&mut buf, 300);
    assert_eq!(buf, vec![0xAC, 0x02]);
}

#[test]
fn varint_five_continuation_bytes_fail() {
    let bytes = [0x80u8, 0x80, 0x80, 0x80, 0x80];
    assert_eq!(read_varint(&bytes, 0), Err(ReadError::VarIntTooLong));
}

#[test]
fn varint_underrun_waits() {
    let bytes = [0x80u8, 0x80];
    assert_eq!(read_varint(&bytes, 0), Err(ReadError::Underrun));
}

#[test]
fn varint_round_trip() {
    for v in [0i32, 1, 127, 128, 300, 16383, 16384, 2097151, 2097152, i32::MAX, -1, i32::MIN] {
        let mut buf: Vec<u8> = Vec::new();
        write_varint(&mut buf, v);
        let (back, n) = read_varint(&buf, 0).unwrap();
        assert_eq!(back, v);
        assert_eq!(n, buf.len());
    }
}

#[test]
fn varint_negative_takes_five_bytes() {
    let mut buf: Vec<u8> = Vec::new();
    write_varint(&mut buf, -1);
    assert_eq!(buf.len(), 5);
}

#[test]
fn varint_size_matches_write() {
    for v in [0i32, 1, 127, 128, 300, 16384, 2097152, 268435456, -1, i32::MIN, i32::MAX] {
        let mut buf: Vec<u8> = Vec::new();
        write_varint(&mut buf, v);
        assert_eq!(varint_size(v), buf.len());
    }
}

#[test]
fn fixed_width_round_trips() {
    let mut buf: Vec<u8> = Vec::new();
    write_u8(&mut buf, 0xAB);
    write_bool(&mut buf, true);
    write_bool(&mut buf, false);
    write_u16(&mut buf, 0xBEEF);
    write_i32(&mut buf, -123456789);
    write_i64(&mut buf, -1234567890123456789);
    let (b0, _) = read_u8(&buf, 0).unwrap();
    assert_eq!(b0, 0xAB);
    let (t, _) = read_bool(&buf, 1).unwrap();
    assert!(t);
    let (f, _) = read_bool(&buf, 2).unwrap();
    assert!(!f);
    let (w, _) = read_u16(&buf, 3).unwrap();
    assert_eq!(w, 0xBEEF);
    let (d, _) = read_i32(&buf, 5).unwrap();
    assert_eq!(d, -123456789);
    let (q, _) = read_i64(&buf, 9).unwrap();
    assert_eq!(q, -1234567890123456789);
    assert_eq!(buf.len(), 17);
}

#[test]
fn fixed_width_underrun() {
    let bytes = [0u8, 1, 2];
    assert_eq!(read_i32(&bytes, 0), Err(ReadError::Underrun));
    assert_eq!(read_i64(&bytes, 0), Err(ReadError::Underrun));
    assert_eq!(read_u16(&bytes, 2), Err(ReadError::Underrun));
    assert_eq!(read_u8(&bytes, 3), Err(ReadError::Underrun));
}

#[test]
fn string_round_trip() {
    let mut buf: Vec<u8> = Vec::new();
    write_string(&mut buf, "héllo wörld", 100).unwrap();
    let (s, n) = read_string(&buf, 0, 100).unwrap();
    assert_eq!(s, "héllo wörld");
    assert_eq!(n, buf.len());
}

#[test]
fn string_exactly_at_max_succeeds() {
    // "éé" is 4 UTF-8 bytes: the limit counts bytes, not characters.
    let mut buf: Vec<u8> = Vec::new();
    assert!(write_string(&mut buf, "éé", 4).is_ok());
    assert_eq!(buf.len(), 5);
    let (s, _) = read_string(&buf, 0, 4).unwrap();
    assert_eq!(s, "éé");
}

#[test]
fn string_over_max_fails_and_writes_nothing() {
    let mut buf: Vec<u8> = Vec::new();
    assert_eq!(write_string(&mut buf, "éé", 3), Err(WriteError::StringTooLong));
    assert!(buf.is_empty());
}

#[test]
fn string_read_over_max_fails() {
    let mut buf: Vec<u8> = Vec::new();
    write_string(&mut buf, "abcdef", 100).unwrap();
    assert_eq!(read_string(&buf, 0, 3), Err(ReadError::StringTooLong));
}

#[test]
fn string_read_underrun() {
    // A prefix promising 5 bytes with only 2 behind it.
    let bytes = [0x05u8, b'a', b'b'];
    assert_eq!(read_string(&bytes, 0, 100), Err(ReadError::Underrun));
}

#[test]
fn string_read_invalid_utf8() {
    let bytes = [0x02u8, 0xFF, 0xFE];
    assert_eq!(read_string(&bytes, 0, 100), Err(ReadError::InvalidUtf8));
}

#[test]
fn string_decodes_multibyte() {
    // Would fail if decoding handed the raw bytes through unchanged.
    let bytes = [0x02u8, 0xC3, 0xA9];
    let (s, n) = read_string(&bytes, 0, 100).unwrap();
    assert_eq!(s, "é");
    assert_eq!(s.chars().count(), 1);
    assert_eq!(n, 3);
}

#[test]
fn raw_bytes_round_trip() {
    let mut buf: Vec<u8> = Vec::new();
    write_bytes(&mut buf, &[9, 8, 7]);
    let (v, n) = read_bytes(&buf, 0, 3).unwrap();
    assert_eq!(v, vec![9, 8, 7]);
    assert_eq!(n, 3);
    assert_eq!(read_bytes(&buf, 0, 4), Err(ReadError::Underrun));
}

#[test]
fn byte_vec_round_trip() {
    let mut buf: Vec<u8> = Vec::new();
    write_byte_vec(&mut buf, &[1, 2, 3, 4]);
    assert_eq!(buf, vec![0x04, 1, 2, 3, 4]);
    let (v, n) = read_byte_vec(&buf, 0).unwrap();
    assert_eq!(v, vec![1, 2, 3, 4]);
    assert_eq!(n, 5);
}

#[test]
fn var_i32_trait_round_trip() {
    let v = VarI32(300);
    assert_eq!(v.size(), 2);
    let mut buf: Vec<u8> = Vec::new();
    v.write(&mut buf).unwrap();
    assert_eq!(buf, vec![0xAC, 0x02]);
    let (back, n) = VarI32::read(&buf, 0).unwrap();
    assert_eq!(back, VarI32(300));
    assert_eq!(n, 2);
}

#[test]
fn bool_and_u8_trait_round_trip() {
    let mut buf: Vec<u8> = Vec::new();
    true.write(&mut buf).unwrap();
    7u8.write(&mut buf).unwrap();
    assert_eq!(true.size(), 1);
    assert_eq!(7u8.size(), 1);
    let (b, _) = bool::read(&buf, 0).unwrap();
    let (x, _) = u8::read(&buf, 1).unwrap();
    assert!(b);
    assert_eq!(x, 7);
}

#[test]
fn string_seed_round_trip() {
    let seed = PacketString::new(16);
    let value = "hello".to_string();
    let mut buf: Vec<u8> = Vec::new();
    PacketWriteSeed::write(&seed, &value, &mut buf).unwrap();
    assert_eq!(PacketSizeSeed::size(&seed, &value), buf.len());
    let (s, n) = PacketReadSeed::read(&seed, &buf, 0).unwrap();
    assert_eq!(s, "hello");
    assert_eq!(n, buf.len());
}

#[test]
fn string_seed_enforces_max() {
    let seed = PacketString::new(4);
    let value = "hello".to_string();
    let mut buf: Vec<u8> = Vec::new();
    assert_eq!(PacketWriteSeed::write(&seed, &value, &mut buf), Err(WriteError::StringTooLong));
    assert!(buf.is_empty());
}

#[test]
fn as_ref_u8_seed_round_trip() {
    let seed = AsRefU8 { count: 3 };
    let value = vec![5u8, 6, 7];
    let mut buf: Vec<u8> = Vec::new();
    PacketWriteSeed::write(&seed, &value, &mut buf).unwrap();
    // No length prefix: the count is the seed's.
    assert_eq!(buf, vec![5, 6, 7]);
    let (v, n) = PacketReadSeed::read(&seed, &buf, 0).unwrap();
    assert_eq!(v, vec![5, 6, 7]);
    assert_eq!(n, 3);
}
