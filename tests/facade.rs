use sqlx_args::any::{AnyArguments, AnyTypeInfoKind};
use sqlx_args::any_mysql::{
    any_column_from_mysql, any_row_from_mysql, any_type_info_from_mysql, describe_into_any as mysql_describe,
    MySqlColumn, MySqlDescribe, MySqlRow,
};
use sqlx_args::any_postgres::{
    any_row_from_pg, any_type_info_from_pg, describe_into_any, map_item, map_result, sql_and_args,
    sql_and_args_parsing, PgColumn, PgDescribe, PgQueryResult, PgRow,
};
use sqlx_args::database::{backend_for_url, BackendKind, Database, ParamIndexing, Postgres};
use sqlx_args::error::Error;
use sqlx_args::mysql::{ColumnType, MySqlTypeInfo};
use sqlx_args::pg_types::{PgType, PgTypeInfo};
use sqlx_args::testing::{once_lock_try_insert_polyfill, OnceSlot};
use sqlx_args::value::{BoundValue, Scalar};

fn pg_col(name: &str, t: PgType) -> PgColumn {
    PgColumn { ordinal: 0, name: name.to_string(), type_info: PgTypeInfo(t) }
}

#[test]
fn pg_types_reduce_or_fail() {
    assert_eq!(any_type_info_from_pg(&PgTypeInfo(PgType::Int4)).unwrap().kind, AnyTypeInfoKind::Integer);
    assert_eq!(any_type_info_from_pg(&PgTypeInfo(PgType::Varchar)).unwrap().kind, AnyTypeInfoKind::Text);
    assert_eq!(any_type_info_from_pg(&PgTypeInfo(PgType::Void)).unwrap().kind, AnyTypeInfoKind::Null);
    let citext = PgTypeInfo(PgType::DeclareWithName("citext".to_string()));
    assert_eq!(any_type_info_from_pg(&citext).unwrap().kind, AnyTypeInfoKind::Text);
    assert!(matches!(any_type_info_from_pg(&PgTypeInfo(PgType::Jsonb)), Err(Error::UnsupportedType(_))));
    let other = PgTypeInfo(PgType::DeclareWithName("mood".to_string()));
    assert!(matches!(any_type_info_from_pg(&other), Err(Error::UnsupportedType(_))));
}

#[test]
fn mysql_types_reduce_or_fail() {
    let t = MySqlTypeInfo { column_type: ColumnType::LongLong, flags: 0 };
    assert_eq!(any_type_info_from_mysql(&t).unwrap().kind, AnyTypeInfoKind::BigInt);
    let tiny = MySqlTypeInfo { column_type: ColumnType::Tiny, flags: 0 };
    assert!(matches!(any_type_info_from_mysql(&tiny), Err(Error::UnsupportedType(_))));
    let col = MySqlColumn { ordinal: 2, name: "n".to_string(), type_info: tiny };
    assert!(matches!(any_column_from_mysql(&col), Err(Error::UnsupportedType(_))));
}

#[test]
fn row_with_unsupported_column_fails() {
    let row = PgRow {
        columns: vec![pg_col("a", PgType::Int8), pg_col("b", PgType::Json)],
        values: vec![Some(vec![0; 8]), None],
    };
    match any_row_from_pg(&row) {
        Err(Error::ColumnDecode { index, .. }) => assert_eq!(index, "b"),
        other => panic!("unexpected {other:?}"),
    }
    let ok = PgRow { columns: vec![pg_col("a", PgType::Bool)], values: vec![Some(vec![1])] };
    let any_row = any_row_from_pg(&ok).unwrap();
    assert_eq!(any_row.columns[0].type_info.kind, AnyTypeInfoKind::Bool);
    assert_eq!(any_row.values, vec![Some(vec![1u8])]);
}

#[test]
fn describe_reduces_columns_and_parameters() {
    let d = PgDescribe {
        columns: vec![pg_col("id", PgType::Int4)],
        parameters: Some(either::Either::Left(vec![PgTypeInfo(PgType::Text)])),
        nullable: vec![Some(false)],
    };
    let any = describe_into_any(d).unwrap();
    assert_eq!(any.columns[0].type_info.kind, AnyTypeInfoKind::Integer);
    assert_eq!(any.nullable, vec![Some(false)]);
    match any.parameters {
        Some(either::Either::Left(ps)) => assert_eq!(ps[0].kind, AnyTypeInfoKind::Text),
        other => panic!("unexpected {other:?}"),
    }

    let bad = PgDescribe {
        columns: vec![pg_col("id", PgType::Int4)],
        parameters: Some(either::Either::Left(vec![PgTypeInfo(PgType::Int2), PgTypeInfo(PgType::Uuid)])),
        nullable: vec![],
    };
    assert!(matches!(describe_into_any(bad), Err(Error::UnsupportedParameter { position: 1, .. })));

    let count = PgDescribe { columns: vec![], parameters: Some(either::Either::Right(3)), nullable: vec![] };
    assert!(matches!(describe_into_any(count).unwrap().parameters, Some(either::Either::Right(3))));
}

#[test]
fn fetch_items_are_reduced() {
    let r = map_item(either::Either::Left(PgQueryResult { rows_affected: 7 })).unwrap();
    match r {
        either::Either::Left(q) => {
            assert_eq!(q.rows_affected, 7);
            assert_eq!(q.last_insert_id, None);
        },
        _ => panic!("expected a summary"),
    }
    assert_eq!(map_result(PgQueryResult { rows_affected: 2 }).rows_affected, 2);
    let bad = PgRow { columns: vec![pg_col("x", PgType::Numeric)], values: vec![None] };
    assert!(map_item(either::Either::Right(bad)).is_err());
}

#[test]
fn pg_sql_and_args_keeps_sql_and_encodes_positionally() {
    let mut any = AnyArguments::new();
    any.add(BoundValue::Scalar(Scalar::I16(3)));
    let (sql, args) = sql_and_args("select $1".to_string(), Some(any)).unwrap();
    assert_eq!(sql, "select $1");
    assert_eq!(args.unwrap().buffer().as_bytes(), &[0, 0, 0, 2, 0, 3][..]);

    let mut bad = AnyArguments::new();
    bad.add(BoundValue::Scalar(Scalar::U8(3)));
    assert!(matches!(sql_and_args("select $1".to_string(), Some(bad)), Err(Error::Encode(_))));
}

#[test]
fn pg_parsing_rewrites_to_numbered_placeholders() {
    let mut any = AnyArguments::new();
    for i in 0..11 {
        any.add(BoundValue::Scalar(Scalar::I32(i)));
    }
    let sql = "select ?, ?, ?, ?, ?, ?, ?, ?, ?, ?, ?::int4".to_string();
    let (out, args) = sql_and_args_parsing(sql, Some(any)).unwrap();
    assert_eq!(out, "select $1, $2, $3, $4, $5, $6, $7, $8, $9, $10, $11::int4");
    assert_eq!(args.unwrap().len(), 11);
}

#[test]
fn backend_is_selected_by_url_scheme() {
    assert_eq!(backend_for_url("postgres://localhost/db"), Some(BackendKind::Postgres));
    assert_eq!(backend_for_url("postgresql://x"), Some(BackendKind::Postgres));
    assert_eq!(backend_for_url("mariadb://x"), Some(BackendKind::MySql));
    assert_eq!(backend_for_url("sqlite::memory:"), Some(BackendKind::Sqlite));
    assert_eq!(backend_for_url("redis://x"), None);
    assert_eq!(backend_for_url("no scheme"), None);
    assert_eq!(Postgres::placeholder_char(), '$');
    assert_eq!(Postgres::param_indexing(), ParamIndexing::OneIndexed);
    assert_eq!(Postgres::url_schemes(), vec!["postgres", "postgresql"]);
}

#[test]
fn once_slot_keeps_first_value() {
    let mut slot = OnceSlot::new();
    assert!(once_lock_try_insert_polyfill(&mut slot, 1).is_ok());
    assert_eq!(once_lock_try_insert_polyfill(&mut slot, 2), Err(2));
    assert_eq!(slot.get(), Some(&1));
}

#[test]
fn mysql_describe_and_rows_reduce() {
    let text = MySqlTypeInfo { column_type: ColumnType::VarChar, flags: 0 };
    let year = MySqlTypeInfo { column_type: ColumnType::Year, flags: 0 };
    let d = MySqlDescribe {
        columns: vec![MySqlColumn { ordinal: 0, name: "s".to_string(), type_info: text }],
        parameters: Some(either::Either::Left(vec![year])),
        nullable: vec![None],
    };
    assert!(matches!(mysql_describe(d), Err(Error::UnsupportedParameter { position: 0, .. })));
    let row = MySqlRow {
        columns: vec![MySqlColumn { ordinal: 0, name: "s".to_string(), type_info: text }],
        values: vec![Some(b"hi".to_vec())],
    };
    let any_row = any_row_from_mysql(&row).unwrap();
    assert_eq!(any_row.columns[0].type_info.kind, AnyTypeInfoKind::Text);
    assert_eq!(any_row.columns[0].name, "s");
}

#[test]
fn unknown_reference_fails_before_encoding() {
    let mut any = AnyArguments::new();
    any.add(BoundValue::Scalar(Scalar::I32(1)));
    let r = sql_and_args_parsing("select $1, $3".to_string(), Some(any.clone()));
    assert!(matches!(r, Err(Error::UnknownArgument(sqlx_args::index::ArgumentIndex::Positioned(2)))));
    let r = sqlx_args::any_mysql::sql_and_args("select :name".to_string(), Some(any));
    assert!(matches!(r, Err(Error::UnknownArgument(_))));
}

#[test]
fn named_expansion_through_the_facade() {
    let mut any = AnyArguments::new();
    any.add_named(
        "ids",
        BoundValue::Vector {
            elem: sqlx_args::value::ScalarType::I32,
            items: vec![Scalar::I32(1), Scalar::I32(2), Scalar::I32(3)],
        },
    );
    any.add_named("a", BoundValue::Scalar(Scalar::I16(9)));
    let (sql, args) =
        sql_and_args_parsing("select * from t where id in (:ids*) and x = :a or y = :a".to_string(), Some(any.clone()))
            .unwrap();
    assert_eq!(sql, "select * from t where id in ($1, $2, $3) and x = $4 or y = $5");
    let args = args.unwrap();
    assert_eq!(args.len(), 5);
    assert_eq!(&args.buffer().as_bytes()[16..], &[0, 0, 0, 4, 0, 0, 0, 3, 0, 0, 0, 2, 0, 9, 0, 0, 0, 2, 0, 9][..]);

    let (sql, args) = sqlx_args::any_mysql::sql_and_args("select :a, :a".to_string(), Some(any)).unwrap();
    assert_eq!(sql, "select ?, ?");
    let args = args.unwrap();
    assert_eq!(args.values(), &[9, 0, 9, 0][..]);
    assert_eq!(args.types()[0], args.types()[1]);
    assert_eq!(args.null_bitmap(), &[0u8][..]);
}

#[test]
fn reduction_errors_name_the_type() {
    assert_eq!(
        any_type_info_from_pg(&PgTypeInfo(PgType::Jsonb)),
        Err(Error::UnsupportedType("JSONB".to_string()))
    );
    let tiny = MySqlTypeInfo { column_type: ColumnType::Tiny, flags: 0 };
    assert_eq!(any_type_info_from_mysql(&tiny), Err(Error::UnsupportedType("TINYINT".to_string())));
    let row = PgRow { columns: vec![pg_col("a", PgType::Int8), pg_col("b", PgType::Json)], values: vec![None, None] };
    assert_eq!(
        any_row_from_pg(&row).unwrap_err(),
        Error::ColumnDecode { index: "b".to_string(), type_desc: "JSON".to_string() }
    );
    let d = PgDescribe {
        columns: vec![],
        parameters: Some(either::Either::Left(vec![
            PgTypeInfo(PgType::Int2),
            PgTypeInfo(PgType::Uuid),
            PgTypeInfo(PgType::Json),
        ])),
        nullable: vec![],
    };
    assert_eq!(
        describe_into_any(d).unwrap_err(),
        Error::UnsupportedParameter { position: 1, param_type: "UUID".to_string() }
    );
    let arr = PgTypeInfo(PgType::DeclareArrayOf(sqlx_args::pg_types::PgArrayOf { elem_name: "mood".to_string() }));
    assert_eq!(arr.display_name(), "mood[]");
}
