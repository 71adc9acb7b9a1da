use vstd::prelude::*;

use crate::any::{
    copy_raw_values, raw_values_model, AnyArguments, AnyColumn, AnyDescribe, AnyQueryResult, AnyRow,
    AnyTypeInfo, AnyTypeInfoKind,
};
use crate::arguments::resolve_err_is;
use crate::database::ParamIndexing;
use crate::error::Error;
use crate::mysql::{mysql_fold, ColumnType, MySqlArgumentsPositional, MySqlTypeInfo};
use crate::mysql_arguments::MySqlArguments;
use crate::placeholders::{expand_plan, expand_spec, parse_query, scan, ParsedModel};

verus! {

/// A result column of the protocol with separate null markers.
#[derive(Debug, Clone)]
pub struct MySqlColumn {
    pub ordinal: usize,
    pub name: String,
    pub type_info: MySqlTypeInfo,
}

/// A fetched row: its columns and each column's raw value.
#[derive(Debug, Clone)]
pub struct MySqlRow {
    pub columns: Vec<MySqlColumn>,
    pub values: Vec<Option<Vec<u8>>>,
}

/// The summary of a statement's execution.
#[derive(Debug, Clone, Copy, PartialEq, Eq, Structural)]
pub struct MySqlQueryResult {
    pub rows_affected: u64,
    pub last_insert_id: u64,
}

/// What describing a statement yields.
#[derive(Debug)]
pub struct MySqlDescribe {
    pub columns: Vec<MySqlColumn>,
    pub parameters: Option<either::Either<Vec<MySqlTypeInfo>, usize>>,
    pub nullable: Vec<Option<bool>>,
}

/// The reduced kind of a column type, if the reduced model has one.
pub open spec fn mysql_reduce(t: MySqlTypeInfo) -> Option<AnyTypeInfoKind> {
    match t.column_type {
        ColumnType::Null => Some(AnyTypeInfoKind::Null),
        ColumnType::Short => Some(AnyTypeInfoKind::SmallInt),
        ColumnType::Long => Some(AnyTypeInfoKind::Integer),
        ColumnType::LongLong => Some(AnyTypeInfoKind::BigInt),
        ColumnType::Float => Some(AnyTypeInfoKind::Real),
        ColumnType::Double => Some(AnyTypeInfoKind::Double),
        ColumnType::Blob | ColumnType::TinyBlob | ColumnType::MediumBlob | ColumnType::LongBlob => Some(
            AnyTypeInfoKind::Blob,
        ),
        ColumnType::String | ColumnType::VarString | ColumnType::VarChar => Some(AnyTypeInfoKind::Text),
        _ => None,
    }
}

/// The name of a column type, for messages.
pub open spec fn mysql_type_name(t: ColumnType) -> Seq<char> {
    match t {
        ColumnType::Decimal => "DECIMAL"@,
        ColumnType::Tiny => "TINYINT"@,
        ColumnType::Short => "SMALLINT"@,
        ColumnType::Long => "INT"@,
        ColumnType::Float => "FLOAT"@,
        ColumnType::Double => "DOUBLE"@,
        ColumnType::Null => "NULL"@,
        ColumnType::Timestamp => "TIMESTAMP"@,
        ColumnType::LongLong => "BIGINT"@,
        ColumnType::Int24 => "MEDIUMINT"@,
        ColumnType::Date => "DATE"@,
        ColumnType::Time => "TIME"@,
        ColumnType::Datetime => "DATETIME"@,
        ColumnType::Year => "YEAR"@,
        ColumnType::VarChar => "VARCHAR"@,
        ColumnType::Bit => "BIT"@,
        ColumnType::Json => "JSON"@,
        ColumnType::NewDecimal => "NEWDECIMAL"@,
        ColumnType::Enum => "ENUM"@,
        ColumnType::SetOf => "SET"@,
        ColumnType::TinyBlob => "TINYBLOB"@,
        ColumnType::MediumBlob => "MEDIUMBLOB"@,
        ColumnType::LongBlob => "LONGBLOB"@,
        ColumnType::Blob => "BLOB"@,
        ColumnType::VarString => "VAR_STRING"@,
        ColumnType::String => "STRING"@,
        ColumnType::Geometry => "GEOMETRY"@,
    }
}

/// The name of a column type, for messages.
pub fn column_type_name(t: ColumnType) -> (r: String)
    ensures
        r@ == mysql_type_name(t),
{
    match t {
        ColumnType::Decimal => "DECIMAL".to_owned(),
        ColumnType::Tiny => "TINYINT".to_owned(),
        ColumnType::Short => "SMALLINT".to_owned(),
        ColumnType::Long => "INT".to_owned(),
        ColumnType::Float => "FLOAT".to_owned(),
        ColumnType::Double => "DOUBLE".to_owned(),
        ColumnType::Null => "NULL".to_owned(),
        ColumnType::Timestamp => "TIMESTAMP".to_owned(),
        ColumnType::LongLong => "BIGINT".to_owned(),
        ColumnType::Int24 => "MEDIUMINT".to_owned(),
        ColumnType::Date => "DATE".to_owned(),
        ColumnType::Time => "TIME".to_owned(),
        ColumnType::Datetime => "DATETIME".to_owned(),
        ColumnType::Year => "YEAR".to_owned(),
        ColumnType::VarChar => "VARCHAR".to_owned(),
        ColumnType::Bit => "BIT".to_owned(),
        ColumnType::Json => "JSON".to_owned(),
        ColumnType::NewDecimal => "NEWDECIMAL".to_owned(),
        ColumnType::Enum => "ENUM".to_owned(),
        ColumnType::SetOf => "SET".to_owned(),
        ColumnType::TinyBlob => "TINYBLOB".to_owned(),
        ColumnType::MediumBlob => "MEDIUMBLOB".to_owned(),
        ColumnType::LongBlob => "LONGBLOB".to_owned(),
        ColumnType::Blob => "BLOB".to_owned(),
        ColumnType::VarString => "VAR_STRING".to_owned(),
        ColumnType::String => "STRING".to_owned(),
        ColumnType::Geometry => "GEOMETRY".to_owned(),
    }
}

/// Reduces a column type; a type with no reduced kind is an error, never
/// coerced.
pub fn any_type_info_from_mysql(t: &MySqlTypeInfo) -> (r: Result<AnyTypeInfo, Error>)
    ensures
        match mysql_reduce(*t) {
            Some(k) => r == Ok::<AnyTypeInfo, Error>(AnyTypeInfo { kind: k }),
            None => r is Err && r->Err_0 is UnsupportedType && r->Err_0->UnsupportedType_0@ == mysql_type_name(t.column_type),
        },
{
    let kind = match t.column_type {
        ColumnType::Null => AnyTypeInfoKind::Null,
        ColumnType::Short => AnyTypeInfoKind::SmallInt,
        ColumnType::Long => AnyTypeInfoKind::Integer,
        ColumnType::LongLong => AnyTypeInfoKind::BigInt,
        ColumnType::Float => AnyTypeInfoKind::Real,
        ColumnType::Double => AnyTypeInfoKind::Double,
        ColumnType::Blob | ColumnType::TinyBlob | ColumnType::MediumBlob | ColumnType::LongBlob => AnyTypeInfoKind::Blob,
        ColumnType::String | ColumnType::VarString | ColumnType::VarChar => AnyTypeInfoKind::Text,
        _ => {
            return Err(Error::UnsupportedType(column_type_name(t.column_type)));
        },
    };
    Ok(AnyTypeInfo { kind })
}

/// `e` is the error for the first of `cols` whose type has no reduced kind.
pub open spec fn mysql_first_bad_column(cols: Seq<MySqlColumn>, e: Error) -> bool {
    exists|i: int|
        0 <= i < cols.len() && mysql_reduce(cols[i].type_info) is None && (forall|j: int|
            0 <= j < i ==> (#[trigger] mysql_reduce(cols[j].type_info)) is Some) && e is UnsupportedType && e->UnsupportedType_0@ == mysql_type_name(cols[i].type_info.column_type)
}

/// `e` is the error for the first of `ts` that has no reduced kind.
pub open spec fn mysql_first_bad_parameter(ts: Seq<MySqlTypeInfo>, e: Error) -> bool {
    &&& e is UnsupportedParameter
    &&& e->position < ts.len()
    &&& mysql_reduce(ts[e->position as int]) is None
    &&& forall|j: int| 0 <= j < e->position ==> (#[trigger] mysql_reduce(ts[j])) is Some
    &&& e->param_type@ == mysql_type_name(ts[e->position as int].column_type)
}

/// `a` is column `c` reduced.
pub open spec fn mysql_column_reduced(c: MySqlColumn, a: AnyColumn) -> bool {
    &&& a.ordinal == c.ordinal
    &&& a.name@ == c.name@
    &&& mysql_reduce(c.type_info) == Some(a.type_info.kind)
}

/// Reduces a column; its type must have a reduced kind.
pub fn any_column_from_mysql(col: &MySqlColumn) -> (r: Result<AnyColumn, Error>)
    ensures
        match mysql_reduce(col.type_info) {
            Some(k) => r is Ok && mysql_column_reduced(*col, r->Ok_0),
            None => r is Err && r->Err_0 is UnsupportedType && r->Err_0->UnsupportedType_0@
                == mysql_type_name(col.type_info.column_type),
        },
{
    let type_info = any_type_info_from_mysql(&col.type_info)?;
    Ok(AnyColumn { ordinal: col.ordinal, name: col.name.clone(), type_info })
}

/// Every column's type has a reduced kind.
pub open spec fn mysql_columns_ok(cols: Seq<MySqlColumn>) -> bool {
    forall|i: int| 0 <= i < cols.len() ==> (#[trigger] mysql_reduce(cols[i].type_info)) is Some
}

/// Reduces columns in order; the first column without a reduced kind fails.
pub fn any_columns_from_mysql(cols: &[MySqlColumn]) -> (r: Result<Vec<AnyColumn>, Error>)
    ensures
        r is Ok <==> mysql_columns_ok(cols@),
        r is Ok ==> r->Ok_0@.len() == cols@.len() && forall|i: int|
            0 <= i < cols@.len() ==> mysql_column_reduced(cols@[i], #[trigger] r->Ok_0@[i]),
        r is Err ==> mysql_first_bad_column(cols@, r->Err_0),
{
    let mut out: Vec<AnyColumn> = Vec::new();
    let mut i: usize = 0;
    while i < cols.len()
        invariant
            i <= cols@.len(),
            out@.len() == i,
            forall|k: int| 0 <= k < i ==> mysql_column_reduced(cols@[k], #[trigger] out@[k]),
            forall|k: int| 0 <= k < i ==> (#[trigger] mysql_reduce(cols@[k].type_info)) is Some,
        decreases cols@.len() - i,
    {
        match any_column_from_mysql(&cols[i]) {
            Ok(c) => {
                out.push(c);
            },
            Err(e) => {
                assert(mysql_reduce(cols@[i as int].type_info) is None);
                assert(mysql_first_bad_column(cols@, e));
                return Err(e);
            },
        }
        i = i + 1;
    }
    Ok(out)
}

/// `a` is row `row` reduced: each column reduced, the raw values unchanged.
pub open spec fn mysql_row_reduced(row: MySqlRow, a: AnyRow) -> bool {
    &&& a.columns@.len() == row.columns@.len()
    &&& forall|i: int| 0 <= i < row.columns@.len() ==> mysql_column_reduced(row.columns@[i], #[trigger] a.columns@[i])
    &&& raw_values_model(a.values@) == raw_values_model(row.values@)
}

/// Reduces a row: its columns, and a copy of its raw values.
pub fn any_row_from_mysql(row: &MySqlRow) -> (r: Result<AnyRow, Error>)
    ensures
        r is Ok <==> mysql_columns_ok(row.columns@),
        r is Ok ==> mysql_row_reduced(*row, r->Ok_0),
        r is Err ==> mysql_first_bad_column(row.columns@, r->Err_0),
{
    let columns = any_columns_from_mysql(row.columns.as_slice())?;
    Ok(AnyRow { columns, values: copy_raw_values(row.values.as_slice()) })
}

/// Every parameter type has a reduced kind.
pub open spec fn mysql_types_ok(ts: Seq<MySqlTypeInfo>) -> bool {
    forall|i: int| 0 <= i < ts.len() ==> (#[trigger] mysql_reduce(ts[i])) is Some
}

/// Reduces parameter types in order; the first one without a reduced kind
/// fails, naming its position.
pub fn any_parameters_from_mysql(ts: &[MySqlTypeInfo]) -> (r: Result<Vec<AnyTypeInfo>, Error>)
    ensures
        r is Ok <==> mysql_types_ok(ts@),
        r is Ok ==> r->Ok_0@.len() == ts@.len() && forall|i: int|
            0 <= i < ts@.len() ==> mysql_reduce(ts@[i]) == Some((#[trigger] r->Ok_0@[i]).kind),
        r is Err ==> mysql_first_bad_parameter(ts@, r->Err_0),
{
    let mut out: Vec<AnyTypeInfo> = Vec::new();
    let mut i: usize = 0;
    while i < ts.len()
        invariant
            i <= ts@.len(),
            out@.len() == i,
            forall|k: int| 0 <= k < i ==> mysql_reduce(ts@[k]) == Some((#[trigger] out@[k]).kind),
            forall|k: int| 0 <= k < i ==> (#[trigger] mysql_reduce(ts@[k])) is Some,
        decreases ts@.len() - i,
    {
        match any_type_info_from_mysql(&ts[i]) {
            Ok(t) => {
                out.push(t);
            },
            Err(_) => {
                return Err(Error::UnsupportedParameter { position: i, param_type: column_type_name(ts[i].column_type) });
            },
        }
        i = i + 1;
    }
    assert forall|k: int| 0 <= k < ts@.len() implies (#[trigger] mysql_reduce(ts@[k])) is Some by {
        assert(mysql_reduce(ts@[k]) == Some(out@[k].kind));
    }
    Ok(out)
}

/// Reduces a statement description: columns first, then parameter types;
/// nullability is kept as it is.
pub fn describe_into_any(d: MySqlDescribe) -> (r: Result<AnyDescribe, Error>)
    ensures
        r is Ok <==> mysql_columns_ok(d.columns@) && match d.parameters {
            Some(either::Either::Left(ps)) => mysql_types_ok(ps@),
            _ => true,
        },
        !mysql_columns_ok(d.columns@) ==> r is Err && mysql_first_bad_column(d.columns@, r->Err_0),
        mysql_columns_ok(d.columns@) && (match d.parameters {
            Some(either::Either::Left(ps)) => !mysql_types_ok(ps@),
            _ => false,
        }) ==> r is Err && match d.parameters {
            Some(either::Either::Left(ps)) => mysql_first_bad_parameter(ps@, r->Err_0),
            _ => false,
        },
        r is Ok ==> (forall|i: int|
            0 <= i < d.columns@.len() ==> mysql_column_reduced(d.columns@[i], #[trigger] r->Ok_0.columns@[i]))
            && r->Ok_0.columns@.len() == d.columns@.len() && r->Ok_0.nullable == d.nullable
            && match d.parameters {
            None => r->Ok_0.parameters is None,
            Some(either::Either::Right(n)) => r->Ok_0.parameters == Some(
                either::Either::<Vec<AnyTypeInfo>, usize>::Right(n),
            ),
            Some(either::Either::Left(ps)) => match r->Ok_0.parameters {
                Some(either::Either::Left(qs)) => qs@.len() == ps@.len() && forall|i: int|
                    0 <= i < ps@.len() ==> mysql_reduce(ps@[i]) == Some((#[trigger] qs@[i]).kind),
                _ => false,
            },
        },
{
    let columns = any_columns_from_mysql(d.columns.as_slice())?;
    let parameters = match d.parameters {
        Some(either::Either::Left(ps)) => Some(either::Either::Left(any_parameters_from_mysql(ps.as_slice())?)),
        Some(either::Either::Right(n)) => Some(either::Either::Right(n)),
        None => None,
    };
    Ok(AnyDescribe { columns, parameters, nullable: d.nullable })
}

/// The reduced summary of an execution, with the inserted id reinterpreted
/// as signed.
pub fn map_result(result: MySqlQueryResult) -> (r: AnyQueryResult)
    ensures
        r == (AnyQueryResult {
            rows_affected: result.rows_affected,
            last_insert_id: Some(result.last_insert_id as i64),
        }),
{
    AnyQueryResult { rows_affected: result.rows_affected, last_insert_id: Some(result.last_insert_id as i64) }
}

/// Reduces one item of a fetch: a summary, or a row.
pub fn map_item(item: either::Either<MySqlQueryResult, MySqlRow>) -> (r: Result<either::Either<AnyQueryResult, AnyRow>, Error>)
    ensures
        match item {
            either::Either::Left(res) => r == Ok::<either::Either<AnyQueryResult, AnyRow>, Error>(
                either::Either::Left(AnyQueryResult {
                    rows_affected: res.rows_affected,
                    last_insert_id: Some(res.last_insert_id as i64),
                }),
            ),
            either::Either::Right(row) => (r is Ok <==> mysql_columns_ok(row.columns@)) && match r {
                Ok(either::Either::Right(a)) => mysql_row_reduced(row, a),
                Ok(either::Either::Left(_)) => false,
                Err(e) => mysql_first_bad_column(row.columns@, e),
            },
        },
{
    match item {
        either::Either::Left(res) => Ok(either::Either::Left(map_result(res))),
        either::Either::Right(row) => {
            let any_row = any_row_from_mysql(&row)?;
            Ok(either::Either::Right(any_row))
        },
    }
}

/// Converts generic arguments into this backend's bag, positional and
/// named values alike.
pub fn convert_into(args: AnyArguments) -> (r: MySqlArguments)
    ensures
        r.bag@ == args.model(),
{
    MySqlArguments { bag: args.into_bag() }
}

/// Rewrites the SQL into native placeholders (`?`) and encodes the values of
/// the new positions; without arguments the SQL is kept as it is.
pub fn sql_and_args(query: String, arguments: Option<AnyArguments>) -> (r: Result<(String, Option<MySqlArgumentsPositional>), Error>)
    ensures
        match arguments {
            None => r is Ok && r->Ok_0.0@ == query@ && r->Ok_0.1 is None,
            Some(a) => match scan(query@, 0, 0) {
                Err((s, e)) => r is Err && r->Err_0 is Parse && r->Err_0->start == s && r->Err_0->end == e,
                Ok(ps) => match expand_spec(
                    ParsedModel { sql: query@, places: ps },
                    a.model(),
                    '?',
                    ParamIndexing::Implicit,
                ) {
                    Err(f) => r is Err && resolve_err_is(r->Err_0, f),
                    Ok((sql, vals)) => match mysql_fold(vals) {
                        Some(m) => r is Ok && r->Ok_0.0@ == sql && r->Ok_0.1 is Some && r->Ok_0.1->0@ == m
                            && r->Ok_0.1->0.wf(),
                        None => r is Err && r->Err_0 is Encode,
                    },
                },
            },
        },
{
    match arguments {
        None => Ok((query, None)),
        Some(a) => {
            let args = convert_into(a);
            let parsed = parse_query(query.as_str())?;
            let (sql, vals) = expand_plan(&parsed, args.bag(), '?', ParamIndexing::Implicit)?;
            let positional = MySqlArgumentsPositional::from_values(vals.as_slice())?;
            Ok((sql, Some(positional)))
        },
    }
}

} // verus!
