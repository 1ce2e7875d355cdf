use pb_rs::sizeofs::{
    sizeof_bool, sizeof_enum, sizeof_int32, sizeof_int64, sizeof_len, sizeof_sint32,
    sizeof_sint64, sizeof_uint32, sizeof_uint64, sizeof_varint,
};

#[test]
fn varint_size_boundaries() {
    assert_eq!(sizeof_varint(0), 1);
    assert_eq!(sizeof_varint(127), 1);
    assert_eq!(sizeof_varint(128), 2);
    assert_eq!(sizeof_varint(16383), 2);
    assert_eq!(sizeof_varint(16384), 3);
    assert_eq!(sizeof_varint(u64::MAX), 10);
}

#[test]
fn signed_sizes() {
    assert_eq!(sizeof_int32(-1), 10);
    assert_eq!(sizeof_int32(5), 1);
    assert_eq!(sizeof_int64(-1), 10);
    assert_eq!(sizeof_sint32(-1), 1);
    assert_eq!(sizeof_sint32(-64), 1);
    assert_eq!(sizeof_sint32(64), 2);
    assert_eq!(sizeof_sint32(i32::MIN), 5);
    assert_eq!(sizeof_sint64(i64::MIN), 10);
    assert_eq!(sizeof_sint64(-1), 1);
    assert_eq!(sizeof_uint32(u32::MAX), 5);
    assert_eq!(sizeof_uint64(300), 2);
    assert_eq!(sizeof_bool(true), 1);
    assert_eq!(sizeof_enum(1), 1);
    assert_eq!(sizeof_len(300), 302);
}
