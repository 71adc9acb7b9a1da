use sqlx_args::arguments::{ImmutableArguments, IntoArguments};
use sqlx_args::database::{Any, Database, MySql, Sqlite};
use sqlx_args::encode_owned::{Choice, EncodeClone, EncodeOwned, IntoCloned2, IntoEncode};
use sqlx_args::index::ArgumentIndex;
use sqlx_args::pg_buffer::PgArgumentBuffer;
use sqlx_args::value::{BoundValue, IsNull, Scalar, ScalarType};

#[test]
fn conversions_produce_owned_values() {
    assert_eq!(7i8.into_encode_owned(), BoundValue::Scalar(Scalar::I8(7)));
    assert_eq!("hi".into_encode_owned(), BoundValue::Scalar(Scalar::Text("hi".to_string())));
    assert_eq!(vec![1u8, 2].into_encode_owned(), BoundValue::Scalar(Scalar::Blob(vec![1, 2])));
    assert_eq!(Option::<u64>::None.into_encode_owned(), BoundValue::Null(ScalarType::U64));
    assert_eq!(
        vec![true, false].into_encode_owned(),
        BoundValue::Vector { elem: ScalarType::Bool, items: vec![Scalar::Bool(true), Scalar::Bool(false)] }
    );
}

#[test]
fn vector_length_and_items() {
    let v = vec![String::from("a"), String::from("b")].into_encode_owned();
    assert_eq!(v.vector_len(), Some(2));
    assert_eq!(v.item(1), BoundValue::Scalar(Scalar::Text("b".to_string())));
    assert_eq!(BoundValue::Scalar(Scalar::I32(1)).vector_len(), None);
}

#[test]
fn floats_bind_by_bit_pattern() {
    let mut buf = PgArgumentBuffer::new();
    buf.encode(BoundValue::Scalar(Scalar::Double(1.5f64.to_bits()))).unwrap();
    assert_eq!(&buf.as_bytes()[4..], &1.5f64.to_be_bytes()[..]);
    let mut buf = PgArgumentBuffer::new();
    buf.encode(BoundValue::Scalar(Scalar::Real(0.25f32.to_bits()))).unwrap();
    assert_eq!(&buf.as_bytes()[4..], &0.25f32.to_be_bytes()[..]);
}

#[test]
fn choice_and_clone_holders() {
    let s = String::from("v");
    assert_eq!(Choice::Borrowed(&s).into_owned(), "v");
    assert_eq!(Choice::Owned(3u8).into_owned(), 3);
    let kept = EncodeClone::from_value(5i32);
    assert_eq!(*kept.value(), 5);
    assert_eq!(kept.to_bound(), BoundValue::Scalar(Scalar::I32(5)));
    assert_eq!(ImmutableArguments(9u8).into_arguments(), 9);
}

#[test]
fn index_helpers() {
    assert_eq!(ArgumentIndex::from_name("n"), ArgumentIndex::Named("n".to_string()));
    assert_eq!(ArgumentIndex::from_position(4), ArgumentIndex::Positioned(4));
    assert_eq!(ArgumentIndex::Named("x".to_string()).into_static(), ArgumentIndex::Named("x".to_string()));
    assert!(IsNull::Yes.is_null());
    assert!(!IsNull::No.is_null());
}

#[test]
fn cloned_choice_and_backend_names() {
    let s = String::from("w");
    let c: String = Choice::Borrowed(&s).into_cloned2();
    assert_eq!(c, "w");
    assert_eq!(Any::name(), "Any");
    assert_eq!(MySql::name(), "MySQL");
    assert_eq!(Sqlite::name(), "SQLite");
    assert_eq!(Any::placeholder_char(), 'X');
    assert!(Any::url_schemes().is_empty());
    assert_eq!(ArgumentIndex::Positioned(12).to_text(), "12");
    assert_eq!(ArgumentIndex::Named("id".to_string()).to_text(), "id");
}

#[test]
fn declared_type_and_compatibility() {
    let v = BoundValue::Null(ScalarType::Text);
    assert_eq!(EncodeOwned::declared_type(&v), ScalarType::Text);
    assert!(v.type_compatible(&ScalarType::Text));
    assert!(!v.type_compatible(&ScalarType::Blob));
    let seq = vec![1i64, 2].into_encode_owned();
    assert!(seq.type_compatible(&ScalarType::I64));
}
