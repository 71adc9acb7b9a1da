use sqlx_args::error::Error;
use sqlx_args::pg_buffer::{PatchKind, PgArgumentBuffer, PgArgumentsInner, value_size_int4_checked};
use sqlx_args::pg_types::{PgArrayOf, PgType, PgTypeInfo};
use sqlx_args::value::{BoundValue, Scalar, ScalarType};

fn scalar(s: Scalar) -> BoundValue {
    BoundValue::Scalar(s)
}

#[test]
fn scalar_round_trip_has_length_prefix() {
    let mut buf = PgArgumentBuffer::new();
    buf.encode(scalar(Scalar::I32(-2))).unwrap();
    assert_eq!(buf.as_bytes(), &[0, 0, 0, 4, 0xff, 0xff, 0xff, 0xfe][..]);
    buf.encode(scalar(Scalar::Bool(true))).unwrap();
    assert_eq!(&buf.as_bytes()[8..], &[0, 0, 0, 1, 1][..]);
    buf.encode(scalar(Scalar::Text("hé".to_string()))).unwrap();
    assert_eq!(&buf.as_bytes()[13..], &[0, 0, 0, 3, b'h', 0xc3, 0xa9][..]);
}

#[test]
fn null_is_minus_one_without_bytes() {
    let mut buf = PgArgumentBuffer::new();
    buf.encode(BoundValue::Null(ScalarType::I64)).unwrap();
    assert_eq!(buf.as_bytes(), &[0xff, 0xff, 0xff, 0xff][..]);
}

#[test]
fn integers_are_big_endian() {
    let mut buf = PgArgumentBuffer::new();
    buf.encode(scalar(Scalar::I16(0x0102))).unwrap();
    buf.encode(scalar(Scalar::I64(1))).unwrap();
    assert_eq!(buf.as_bytes(), &[0, 0, 0, 2, 1, 2, 0, 0, 0, 8, 0, 0, 0, 0, 0, 0, 0, 1][..]);
}

#[test]
fn uuid_is_sixteen_bytes_in_network_order() {
    let u = uuid::Uuid::parse_str("67e55044-10b1-426f-9247-bb680e5fe0c8").unwrap();
    let mut buf = PgArgumentBuffer::new();
    buf.encode(scalar(Scalar::Uuid(u.as_u128()))).unwrap();
    assert_eq!(&buf.as_bytes()[..4], &[0, 0, 0, 16][..]);
    assert_eq!(&buf.as_bytes()[4..], &u.as_bytes()[..]);
}

#[test]
fn array_has_header_and_prefixed_elements() {
    let mut buf = PgArgumentBuffer::new();
    let v = BoundValue::Vector { elem: ScalarType::I32, items: vec![Scalar::I32(7)] };
    buf.encode(v).unwrap();
    let expected: Vec<u8> = vec![
        0, 0, 0, 28, // total length
        0, 0, 0, 1, // dimensions
        0, 0, 0, 0, // flags
        0, 0, 0, 23, // element type INT4
        0, 0, 0, 1, // length
        0, 0, 0, 1, // lower bound
        0, 0, 0, 4, 0, 0, 0, 7,
    ];
    assert_eq!(buf.as_bytes(), expected.as_slice());
}

#[test]
fn failed_encode_rolls_back_everything() {
    let mut args = PgArgumentsInner::new();
    args.add(scalar(Scalar::I32(1))).unwrap();
    let before = args.buffer().as_bytes().to_vec();
    let bad = BoundValue::Vector {
        elem: ScalarType::Custom("mood".to_string()),
        items: vec![
            Scalar::Custom { name: "mood".to_string(), bytes: vec![1] },
            Scalar::I32(3),
        ],
    };
    let r = args.add_ref(&bad);
    assert!(matches!(r, Err(Error::Encode(_))));
    assert_eq!(args.buffer().as_bytes(), before.as_slice());
    assert_eq!(args.len(), 1);
    assert_eq!(args.buffer().count(), 1);
    assert!(args.buffer().holes().is_empty());
    assert!(args.buffer().patches().is_empty());
}

#[test]
fn unsigned_integers_do_not_encode() {
    let mut args = PgArgumentsInner::new();
    let r = args.add(scalar(Scalar::U32(1)));
    assert!(matches!(r, Err(Error::Encode(_))));
    assert_eq!(args.len(), 0);
    assert!(args.buffer().as_bytes().is_empty());
}

#[test]
fn size_check_rejects_beyond_i32() {
    assert_eq!(value_size_int4_checked(5).unwrap(), 5);
    assert_eq!(value_size_int4_checked(2147483647).unwrap(), i32::MAX);
    assert!(matches!(value_size_int4_checked(2147483648), Err(Error::Overflow(2147483648))));
}

#[test]
fn type_holes_are_resolved_before_sending() {
    let mut args = PgArgumentsInner::new();
    let v = BoundValue::Vector {
        elem: ScalarType::Custom("mood".to_string()),
        items: vec![Scalar::Custom { name: "mood".to_string(), bytes: b"ok".to_vec() }],
    };
    args.add(v).unwrap();
    assert_eq!(args.buffer().holes().len(), 1);
    assert_eq!(args.buffer().holes()[0].offset, 12);
    assert!(args.bytes_to_send().is_none());
    assert_eq!(args.types()[0], PgTypeInfo(PgType::DeclareArrayOf(PgArrayOf { elem_name: "mood".to_string() })));

    assert!(args.apply_patches(&[], &[]).is_err());
    assert!(args.bytes_to_send().is_none());

    args.apply_patches(&[], &[0x00010203]).unwrap();
    let sent = args.bytes_to_send().unwrap();
    assert_eq!(&sent[12..16], &[0, 1, 2, 3][..]);
    assert!(args.buffer().is_resolved());
}

#[test]
fn patches_write_the_parameter_type() {
    let mut buf = PgArgumentBuffer::new();
    buf.patch(PatchKind::ParameterOid);
    buf.encode(BoundValue::Scalar(Scalar::I32(0))).unwrap();
    assert_eq!(buf.patches().len(), 1);
    assert_eq!(buf.patches()[0].buf_offset, 0);
    assert_eq!(buf.patches()[0].arg_index, 0);
}

#[test]
fn patch_resolution_uses_parameter_oid() {
    let mut args = PgArgumentsInner::new();
    args.add(scalar(Scalar::I32(0))).unwrap();
    let r = args.apply_patches(&[PgTypeInfo(PgType::Int4)], &[]);
    assert!(r.is_ok());
    assert_eq!(args.bytes_to_send().unwrap(), &[0, 0, 0, 4, 0, 0, 0, 0][..]);
}

#[test]
fn array_type_hole_reserves_four_zero_bytes() {
    let mut buf = PgArgumentBuffer::new();
    buf.patch_array_type(PgArrayOf { elem_name: "mood".to_string() });
    buf.patch_type_by_name(&"mood".to_string());
    assert_eq!(buf.as_bytes(), &[0u8; 8][..]);
    assert_eq!(buf.holes()[1].offset, 4);
}

#[test]
fn failed_buffer_encode_leaves_buffer_unchanged() {
    let mut buf = PgArgumentBuffer::new();
    buf.encode(scalar(Scalar::I32(1))).unwrap();
    let before = buf.as_bytes().to_vec();
    let bad = BoundValue::Vector {
        elem: ScalarType::Custom("mood".to_string()),
        items: vec![Scalar::Custom { name: "mood".to_string(), bytes: vec![1] }, Scalar::Text("x".to_string())],
    };
    assert!(matches!(buf.encode(bad), Err(Error::Encode(_))));
    assert_eq!(buf.as_bytes(), before.as_slice());
    assert!(buf.holes().is_empty());
    assert_eq!(buf.count(), 0);
}

#[test]
fn rollback_restores_all_sizes() {
    let mut buf = PgArgumentBuffer::new();
    let snap = buf.snapshot();
    buf.patch_type_by_name(&"mood".to_string());
    buf.patch(PatchKind::ParameterOid);
    buf.reset_to_snapshot(snap);
    assert!(buf.as_bytes().is_empty());
    assert!(buf.holes().is_empty());
    assert!(buf.patches().is_empty());
}
