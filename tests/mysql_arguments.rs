use sqlx_args::any_mysql::{map_result, sql_and_args, MySqlQueryResult};
use sqlx_args::any::AnyArguments;
use sqlx_args::arguments::Arguments;
use sqlx_args::mysql::{ColumnType, MySqlArgumentsPositional, NullBitMap, BINARY_FLAG, UNSIGNED_FLAG};
use sqlx_args::mysql_arguments::MySqlArguments;
use sqlx_args::error::Error;
use sqlx_args::value::{BoundValue, IsNull, Scalar, ScalarType};

#[test]
fn null_bit_map_should_push_is_null() {
    let mut bit_map = NullBitMap::default();

    bit_map.push(IsNull::Yes);
    bit_map.push(IsNull::No);
    bit_map.push(IsNull::Yes);
    bit_map.push(IsNull::No);
    bit_map.push(IsNull::Yes);
    bit_map.push(IsNull::No);
    bit_map.push(IsNull::Yes);
    bit_map.push(IsNull::No);
    bit_map.push(IsNull::Yes);

    assert_eq!([0b01010101, 0b1].as_slice(), bit_map.as_bytes());
}

#[test]
fn null_bit_map_starts_empty_and_grows_per_eight_bits() {
    let mut bit_map = NullBitMap::default();
    assert!(bit_map.as_bytes().is_empty());
    for _ in 0..8 {
        bit_map.push(IsNull::No);
    }
    assert_eq!(bit_map.as_bytes(), &[0u8][..]);
    bit_map.push(IsNull::No);
    assert_eq!(bit_map.as_bytes(), &[0u8, 0u8][..]);
}

#[test]
fn positional_add_encodes_little_endian_with_types_and_nulls() {
    let mut args = MySqlArgumentsPositional::default();
    args.add(&BoundValue::Scalar(Scalar::I32(-2))).unwrap();
    args.add(&BoundValue::Null(ScalarType::Text)).unwrap();
    args.add(&BoundValue::Scalar(Scalar::U16(0x0102))).unwrap();
    assert_eq!(args.values(), &[0xfe, 0xff, 0xff, 0xff, 0x02, 0x01][..]);
    assert_eq!(args.len(), 3);
    assert_eq!(args.types()[0].column_type, ColumnType::Long);
    assert_eq!(args.types()[1].column_type, ColumnType::VarString);
    assert_eq!(args.types()[2].column_type, ColumnType::Short);
    assert_eq!(args.types()[2].flags, UNSIGNED_FLAG);
    assert_eq!(args.null_bitmap(), &[0b010u8][..]);
}

#[test]
fn text_is_length_encoded() {
    let mut args = MySqlArgumentsPositional::default();
    args.add(&BoundValue::Scalar(Scalar::Text("abc".to_string()))).unwrap();
    assert_eq!(args.values(), &[3, b'a', b'b', b'c'][..]);

    let long = "x".repeat(300);
    let mut args = MySqlArgumentsPositional::default();
    args.add(&BoundValue::Scalar(Scalar::Text(long))).unwrap();
    assert_eq!(&args.values()[..3], &[0xfc, 0x2c, 0x01][..]);
    assert_eq!(args.values().len(), 303);
}

#[test]
fn blob_is_binary_and_length_encoded() {
    let mut args = MySqlArgumentsPositional::default();
    args.add(&BoundValue::Scalar(Scalar::Blob(vec![9, 8]))).unwrap();
    assert_eq!(args.values(), &[2, 9, 8][..]);
    assert_eq!(args.types()[0].column_type, ColumnType::Blob);
    assert_eq!(args.types()[0].flags, BINARY_FLAG);
}

#[test]
fn failed_add_leaves_positional_list_unchanged() {
    let mut args = MySqlArgumentsPositional::default();
    args.add(&BoundValue::Scalar(Scalar::I8(7))).unwrap();
    let before_values = args.values().to_vec();
    let before_bitmap = args.null_bitmap().to_vec();
    let seq = BoundValue::Vector { elem: ScalarType::I32, items: vec![Scalar::I32(1)] };
    let r = args.add(&seq);
    assert!(matches!(r, Err(Error::Encode(_))));
    assert_eq!(args.values(), before_values.as_slice());
    assert_eq!(args.null_bitmap(), before_bitmap.as_slice());
    assert_eq!(args.len(), 1);
}

#[test]
fn expansion_yields_one_native_placeholder_per_element() {
    let mut bag = MySqlArguments::default();
    bag.add_named("ids", vec![1i32, 2, 3]).unwrap();
    let parsed = sqlx_args::placeholders::parse_query("select * from t where id in (:ids*)").unwrap();
    let (sql, vals) = sqlx_args::placeholders::expand_plan(
        &parsed,
        bag.bag(),
        '?',
        sqlx_args::database::ParamIndexing::Implicit,
    )
    .unwrap();
    assert_eq!(sql, "select * from t where id in (?, ?, ?)");
    let positional = MySqlArgumentsPositional::from_values(&vals).unwrap();
    assert_eq!(positional.len(), 3);
    assert_eq!(positional.values(), &[1, 0, 0, 0, 2, 0, 0, 0, 3, 0, 0, 0][..]);
}

#[test]
fn sql_and_args_rewrites_positional_placeholders() {
    let mut any = AnyArguments::new();
    any.add(BoundValue::Scalar(Scalar::I64(5)));
    any.add(BoundValue::Scalar(Scalar::Bool(true)));
    let (sql, args) = sql_and_args("select $2, $1, ?".to_string(), Some(any)).unwrap();
    assert_eq!(sql, "select ?, ?, ?");
    let args = args.unwrap();
    assert_eq!(args.len(), 3);
    assert_eq!(args.values(), &[1, 5, 0, 0, 0, 0, 0, 0, 0, 5, 0, 0, 0, 0, 0, 0, 0][..]);
}

#[test]
fn sql_and_args_without_arguments_keeps_sql() {
    let (sql, args) = sql_and_args("select :x".to_string(), None).unwrap();
    assert_eq!(sql, "select :x");
    assert!(args.is_none());
}

#[test]
fn mysql_result_reinterprets_insert_id() {
    let r = map_result(MySqlQueryResult { rows_affected: 4, last_insert_id: u64::MAX });
    assert_eq!(r.rows_affected, 4);
    assert_eq!(r.last_insert_id, Some(-1));
}

#[test]
fn mysql_placeholder_is_a_question_mark() {
    let mut bag = MySqlArguments::default();
    bag.add(1i32).unwrap();
    let mut s = String::from("a = ");
    bag.format_placeholder(&mut s);
    assert_eq!(s, "a = ?");
    assert_eq!(bag.len(), 1);
}
