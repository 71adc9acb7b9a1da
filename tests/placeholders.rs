use sqlx_args::arguments::Arguments;
use sqlx_args::database::ParamIndexing;
use sqlx_args::error::Error;
use sqlx_args::index::ArgumentIndex;
use sqlx_args::pg_arguments::PgArguments;
use sqlx_args::pg_buffer::PgArgumentsInner;
use sqlx_args::placeholders::{expand_plan, parse_query};
use sqlx_args::value::{BoundValue, Scalar};

#[test]
fn parse_finds_occurrences_in_order() {
    let q = parse_query("select ?, $3*, :name, a::int, '10:30'").unwrap();
    let places = q.places();
    assert_eq!(places.len(), 3);
    assert_eq!(places[0].index, ArgumentIndex::Positioned(0));
    assert!(!places[0].kleene);
    assert_eq!((places[0].start, places[0].end), (7, 8));
    assert_eq!(places[1].index, ArgumentIndex::Positioned(2));
    assert!(places[1].kleene);
    assert_eq!((places[1].start, places[1].end), (10, 13));
    assert_eq!(places[2].index, ArgumentIndex::Named("name".to_string()));
}

#[test]
fn malformed_placeholders_name_their_span() {
    assert!(matches!(parse_query("select $x"), Err(Error::Parse { start: 7, end: 8, .. })));
    assert!(matches!(parse_query("select $0"), Err(Error::Parse { start: 7, end: 9, .. })));
    assert!(matches!(parse_query("select $"), Err(Error::Parse { start: 7, end: 8, .. })));
    assert!(matches!(
        parse_query("select $99999999999999999999999"),
        Err(Error::Parse { start: 7, end: 31, .. })
    ));
}

fn pg_expand(sql: &str, bag: &PgArguments) -> Result<(String, Vec<BoundValue>), Error> {
    let parsed = parse_query(sql)?;
    expand_plan(&parsed, bag.bag(), '$', ParamIndexing::OneIndexed)
}

#[test]
fn vector_expands_to_one_placeholder_per_element() {
    let mut bag = PgArguments::default();
    bag.add_named("ids", vec![10i64, 20, 30]).unwrap();
    let (sql, vals) = pg_expand("select * from t where id in (:ids*)", &bag).unwrap();
    assert_eq!(sql, "select * from t where id in ($1, $2, $3)");
    assert_eq!(vals.len(), 3);
    assert_eq!(vals[1], BoundValue::Scalar(Scalar::I64(20)));
    let inner = PgArgumentsInner::from_values(&vals).unwrap();
    assert_eq!(inner.len(), 3);
    assert_eq!(inner.buffer().as_bytes().len(), 3 * 12);
}

#[test]
fn empty_vector_expands_to_nothing() {
    let mut bag = PgArguments::default();
    bag.add_named("ids", Vec::<i32>::new()).unwrap();
    let (sql, vals) = pg_expand("in (:ids*)", &bag).unwrap();
    assert_eq!(sql, "in ()");
    assert!(vals.is_empty());
}

#[test]
fn named_reuse_makes_two_positions() {
    let mut bag = PgArguments::default();
    bag.add_named("a", "x").unwrap();
    let (sql, vals) = pg_expand("select :a, :a", &bag).unwrap();
    assert_eq!(sql, "select $1, $2");
    assert_eq!(vals.len(), 2);
    assert_eq!(vals[0], vals[1]);
    assert_eq!(vals[0], BoundValue::Scalar(Scalar::Text("x".to_string())));
}

#[test]
fn later_named_binding_replaces_earlier() {
    let mut bag = PgArguments::default();
    bag.add_named("a", 1i32).unwrap();
    bag.add_named("a", 2i32).unwrap();
    let (_, vals) = pg_expand(":a", &bag).unwrap();
    assert_eq!(vals, vec![BoundValue::Scalar(Scalar::I32(2))]);
    assert_eq!(bag.len(), 0);
}

#[test]
fn unknown_reference_fails_whole_rewrite() {
    let mut bag = PgArguments::default();
    bag.add(1i32).unwrap();
    let r = pg_expand("select $1, :missing", &bag);
    assert_eq!(r, Err(Error::UnknownArgument(ArgumentIndex::Named("missing".to_string()))));
    let r = pg_expand("select $2", &bag);
    assert_eq!(r, Err(Error::UnknownArgument(ArgumentIndex::Positioned(1))));
}

#[test]
fn expansion_of_scalar_fails() {
    let mut bag = PgArguments::default();
    bag.add(1i32).unwrap();
    let r = pg_expand("select $1*", &bag);
    assert_eq!(r, Err(Error::ExpectedVector(ArgumentIndex::Positioned(0))));
}

#[test]
fn optional_values_bind_as_null() {
    let mut bag = PgArguments::default();
    bag.add(Option::<i32>::None).unwrap();
    bag.add(Some(4i16)).unwrap();
    let inner = bag.try_into_only_positional().unwrap();
    assert_eq!(inner.buffer().as_bytes(), &[0xff, 0xff, 0xff, 0xff, 0, 0, 0, 2, 0, 4][..]);
}

#[test]
fn pg_placeholder_names_latest_position() {
    let mut bag = PgArguments::default();
    bag.add(true).unwrap();
    bag.add(false).unwrap();
    let mut s = String::new();
    bag.format_placeholder(&mut s);
    assert_eq!(s, "$2");
}
