use vstd::prelude::*;

use crate::any::{
    copy_raw_values, raw_values_model, AnyArguments, AnyColumn, AnyDescribe, AnyQueryResult, AnyRow,
    AnyTypeInfo, AnyTypeInfoKind,
};
use crate::arguments::resolve_err_is;
use crate::database::ParamIndexing;
use crate::error::Error;
use crate::pg_arguments::PgArguments;
use crate::pg_buffer::{fail_matches, pg_fold, PgArgumentsInner};
use crate::pg_types::{pg_type_name, PgType, PgTypeInfo, PgTypeModel};
use crate::placeholders::{expand_plan, expand_spec, parse_query, scan, ParsedModel};

verus! {

/// A result column of the protocol with server-typed parameters.
#[derive(Debug, Clone)]
pub struct PgColumn {
    pub ordinal: usize,
    pub name: String,
    pub type_info: PgTypeInfo,
}

/// A fetched row: its columns and each column's raw value.
#[derive(Debug, Clone)]
pub struct PgRow {
    pub columns: Vec<PgColumn>,
    pub values: Vec<Option<Vec<u8>>>,
}

/// The summary of a statement's execution.
#[derive(Debug, Clone, Copy, PartialEq, Eq, Structural)]
pub struct PgQueryResult {
    pub rows_affected: u64,
}

/// What describing a statement yields.
#[derive(Debug)]
pub struct PgDescribe {
    pub columns: Vec<PgColumn>,
    pub parameters: Option<either::Either<Vec<PgTypeInfo>, usize>>,
    pub nullable: Vec<Option<bool>>,
}

/// The reduced kind of a PostgreSQL type, if the reduced model has one.
pub open spec fn pg_reduce(t: PgTypeModel) -> Option<AnyTypeInfoKind> {
    match t {
        PgTypeModel::Bool => Some(AnyTypeInfoKind::Bool),
        PgTypeModel::Void => Some(AnyTypeInfoKind::Null),
        PgTypeModel::Int2 => Some(AnyTypeInfoKind::SmallInt),
        PgTypeModel::Int4 => Some(AnyTypeInfoKind::Integer),
        PgTypeModel::Int8 => Some(AnyTypeInfoKind::BigInt),
        PgTypeModel::Float4 => Some(AnyTypeInfoKind::Real),
        PgTypeModel::Float8 => Some(AnyTypeInfoKind::Double),
        PgTypeModel::Bytea => Some(AnyTypeInfoKind::Blob),
        PgTypeModel::Text => Some(AnyTypeInfoKind::Text),
        PgTypeModel::Varchar => Some(AnyTypeInfoKind::Text),
        PgTypeModel::DeclareWithName(n) => if n == seq!['c', 'i', 't', 'e', 'x', 't'] {
            Some(AnyTypeInfoKind::Text)
        } else {
            None
        },
        _ => None,
    }
}

/// Reduces a PostgreSQL type; a type with no reduced kind is an error, never
/// coerced.
pub fn any_type_info_from_pg(t: &PgTypeInfo) -> (r: Result<AnyTypeInfo, Error>)
    ensures
        match pg_reduce(t@) {
            Some(k) => r == Ok::<AnyTypeInfo, Error>(AnyTypeInfo { kind: k }),
            None => r is Err && r->Err_0 is UnsupportedType && r->Err_0->UnsupportedType_0@ == pg_type_name(t@),
        },
{
    let kind = match &t.0 {
        PgType::Bool => AnyTypeInfoKind::Bool,
        PgType::Void => AnyTypeInfoKind::Null,
        PgType::Int2 => AnyTypeInfoKind::SmallInt,
        PgType::Int4 => AnyTypeInfoKind::Integer,
        PgType::Int8 => AnyTypeInfoKind::BigInt,
        PgType::Float4 => AnyTypeInfoKind::Real,
        PgType::Float8 => AnyTypeInfoKind::Double,
        PgType::Bytea => AnyTypeInfoKind::Blob,
        PgType::Text | PgType::Varchar => AnyTypeInfoKind::Text,
        PgType::DeclareWithName(n) => {
            let citext = "citext".to_owned();
            proof {
                reveal_strlit("citext");
                assert("citext"@ =~= seq!['c', 'i', 't', 'e', 'x', 't']);
            }
            if n.eq(&citext) {
                AnyTypeInfoKind::Text
            } else {
                return Err(Error::UnsupportedType(t.display_name()));
            }
        },
        _ => {
            return Err(Error::UnsupportedType(t.display_name()));
        },
    };
    Ok(AnyTypeInfo { kind })
}

/// `e` is the error for the first of `cols` whose type has no reduced kind.
pub open spec fn pg_first_bad_column(cols: Seq<PgColumn>, e: Error) -> bool {
    exists|i: int|
        0 <= i < cols.len() && pg_reduce(cols[i].type_info@) is None && (forall|j: int|
            0 <= j < i ==> (#[trigger] pg_reduce(cols[j].type_info@)) is Some) && e is ColumnDecode && e->index@ == cols[i].name@ && e->type_desc@ == pg_type_name(cols[i].type_info@)
}

/// `e` is the error for the first of `ts` that has no reduced kind.
pub open spec fn pg_first_bad_parameter(ts: Seq<PgTypeInfo>, e: Error) -> bool {
    &&& e is UnsupportedParameter
    &&& e->position < ts.len()
    &&& pg_reduce(ts[e->position as int]@) is None
    &&& forall|j: int| 0 <= j < e->position ==> (#[trigger] pg_reduce(ts[j]@)) is Some
    &&& e->param_type@ == pg_type_name(ts[e->position as int]@)
}

/// `a` is column `c` reduced.
pub open spec fn pg_column_reduced(c: PgColumn, a: AnyColumn) -> bool {
    &&& a.ordinal == c.ordinal
    &&& a.name@ == c.name@
    &&& pg_reduce(c.type_info@) == Some(a.type_info.kind)
}

/// Reduces a column; its type must have a reduced kind.
pub fn any_column_from_pg(col: &PgColumn) -> (r: Result<AnyColumn, Error>)
    ensures
        match pg_reduce(col.type_info@) {
            Some(k) => r is Ok && pg_column_reduced(*col, r->Ok_0),
            None => r is Err && r->Err_0 is ColumnDecode && r->Err_0->index@ == col.name@
                && r->Err_0->type_desc@ == pg_type_name(col.type_info@),
        },
{
    let type_info = match any_type_info_from_pg(&col.type_info) {
        Ok(t) => t,
        Err(_) => {
            return Err(Error::ColumnDecode { index: col.name.clone(), type_desc: col.type_info.display_name() });
        },
    };
    Ok(AnyColumn { ordinal: col.ordinal, name: col.name.clone(), type_info })
}

/// Every column's type has a reduced kind.
pub open spec fn pg_columns_ok(cols: Seq<PgColumn>) -> bool {
    forall|i: int| 0 <= i < cols.len() ==> (#[trigger] pg_reduce(cols[i].type_info@)) is Some
}

/// Reduces columns in order; the first column without a reduced kind fails.
pub fn any_columns_from_pg(cols: &[PgColumn]) -> (r: Result<Vec<AnyColumn>, Error>)
    ensures
        r is Ok <==> pg_columns_ok(cols@),
        r is Ok ==> r->Ok_0@.len() == cols@.len() && forall|i: int|
            0 <= i < cols@.len() ==> pg_column_reduced(cols@[i], #[trigger] r->Ok_0@[i]),
        r is Err ==> pg_first_bad_column(cols@, r->Err_0),
{
    let mut out: Vec<AnyColumn> = Vec::new();
    let mut i: usize = 0;
    while i < cols.len()
        invariant
            i <= cols@.len(),
            out@.len() == i,
            forall|k: int| 0 <= k < i ==> pg_column_reduced(cols@[k], #[trigger] out@[k]),
            forall|k: int| 0 <= k < i ==> (#[trigger] pg_reduce(cols@[k].type_info@)) is Some,
        decreases cols@.len() - i,
    {
        match any_column_from_pg(&cols[i]) {
            Ok(c) => {
                out.push(c);
            },
            Err(e) => {
                assert(pg_reduce(cols@[i as int].type_info@) is None);
                assert(pg_first_bad_column(cols@, e));
                return Err(e);
            },
        }
        i = i + 1;
    }
    Ok(out)
}

/// `a` is row `row` reduced: each column reduced, the raw values unchanged.
pub open spec fn pg_row_reduced(row: PgRow, a: AnyRow) -> bool {
    &&& a.columns@.len() == row.columns@.len()
    &&& forall|i: int| 0 <= i < row.columns@.len() ==> pg_column_reduced(row.columns@[i], #[trigger] a.columns@[i])
    &&& raw_values_model(a.values@) == raw_values_model(row.values@)
}

/// Reduces a row: its columns, and a copy of its raw values.
pub fn any_row_from_pg(row: &PgRow) -> (r: Result<AnyRow, Error>)
    ensures
        r is Ok <==> pg_columns_ok(row.columns@),
        r is Ok ==> pg_row_reduced(*row, r->Ok_0),
        r is Err ==> pg_first_bad_column(row.columns@, r->Err_0),
{
    let columns = any_columns_from_pg(row.columns.as_slice())?;
    Ok(AnyRow { columns, values: copy_raw_values(row.values.as_slice()) })
}

/// Every parameter type has a reduced kind.
pub open spec fn pg_types_ok(ts: Seq<PgTypeInfo>) -> bool {
    forall|i: int| 0 <= i < ts.len() ==> (#[trigger] pg_reduce(ts[i]@)) is Some
}

/// Reduces parameter types in order; the first one without a reduced kind
/// fails, naming its position.
pub fn any_parameters_from_pg(ts: &[PgTypeInfo]) -> (r: Result<Vec<AnyTypeInfo>, Error>)
    ensures
        r is Ok <==> pg_types_ok(ts@),
        r is Ok ==> r->Ok_0@.len() == ts@.len() && forall|i: int|
            0 <= i < ts@.len() ==> pg_reduce(ts@[i]@) == Some((#[trigger] r->Ok_0@[i]).kind),
        r is Err ==> pg_first_bad_parameter(ts@, r->Err_0),
{
    let mut out: Vec<AnyTypeInfo> = Vec::new();
    let mut i: usize = 0;
    while i < ts.len()
        invariant
            i <= ts@.len(),
            out@.len() == i,
            forall|k: int| 0 <= k < i ==> pg_reduce(ts@[k]@) == Some((#[trigger] out@[k]).kind),
            forall|k: int| 0 <= k < i ==> (#[trigger] pg_reduce(ts@[k]@)) is Some,
        decreases ts@.len() - i,
    {
        match any_type_info_from_pg(&ts[i]) {
            Ok(t) => {
                out.push(t);
            },
            Err(_) => {
                return Err(Error::UnsupportedParameter { position: i, param_type: ts[i].display_name() });
            },
        }
        i = i + 1;
    }
    assert forall|k: int| 0 <= k < ts@.len() implies (#[trigger] pg_reduce(ts@[k]@)) is Some by {
        assert(pg_reduce(ts@[k]@) == Some(out@[k].kind));
    }
    Ok(out)
}

/// Reduces a statement description: columns first, then parameter types;
/// nullability is kept as it is.
pub fn describe_into_any(d: PgDescribe) -> (r: Result<AnyDescribe, Error>)
    ensures
        r is Ok <==> pg_columns_ok(d.columns@) && match d.parameters {
            Some(either::Either::Left(ps)) => pg_types_ok(ps@),
            _ => true,
        },
        !pg_columns_ok(d.columns@) ==> r is Err && pg_first_bad_column(d.columns@, r->Err_0),
        pg_columns_ok(d.columns@) && (match d.parameters {
            Some(either::Either::Left(ps)) => !pg_types_ok(ps@),
            _ => false,
        }) ==> r is Err && match d.parameters {
            Some(either::Either::Left(ps)) => pg_first_bad_parameter(ps@, r->Err_0),
            _ => false,
        },
        r is Ok ==> (forall|i: int|
            0 <= i < d.columns@.len() ==> pg_column_reduced(d.columns@[i], #[trigger] r->Ok_0.columns@[i]))
            && r->Ok_0.columns@.len() == d.columns@.len() && r->Ok_0.nullable == d.nullable
            && match d.parameters {
            None => r->Ok_0.parameters is None,
            Some(either::Either::Right(n)) => r->Ok_0.parameters == Some(
                either::Either::<Vec<AnyTypeInfo>, usize>::Right(n),
            ),
            Some(either::Either::Left(ps)) => match r->Ok_0.parameters {
                Some(either::Either::Left(qs)) => qs@.len() == ps@.len() && forall|i: int|
                    0 <= i < ps@.len() ==> pg_reduce(ps@[i]@) == Some((#[trigger] qs@[i]).kind),
                _ => false,
            },
        },
{
    let columns = any_columns_from_pg(d.columns.as_slice())?;
    let parameters = match d.parameters {
        Some(either::Either::Left(ps)) => Some(either::Either::Left(any_parameters_from_pg(ps.as_slice())?)),
        Some(either::Either::Right(n)) => Some(either::Either::Right(n)),
        None => None,
    };
    Ok(AnyDescribe { columns, parameters, nullable: d.nullable })
}

/// The reduced summary of an execution; this protocol reports no inserted id.
pub fn map_result(res: PgQueryResult) -> (r: AnyQueryResult)
    ensures
        r == (AnyQueryResult { rows_affected: res.rows_affected, last_insert_id: None }),
{
    AnyQueryResult { rows_affected: res.rows_affected, last_insert_id: None }
}

/// Reduces one item of a fetch: a summary, or a row.
pub fn map_item(item: either::Either<PgQueryResult, PgRow>) -> (r: Result<either::Either<AnyQueryResult, AnyRow>, Error>)
    ensures
        match item {
            either::Either::Left(res) => r == Ok::<either::Either<AnyQueryResult, AnyRow>, Error>(
                either::Either::Left(AnyQueryResult { rows_affected: res.rows_affected, last_insert_id: None }),
            ),
            either::Either::Right(row) => (r is Ok <==> pg_columns_ok(row.columns@)) && match r {
                Ok(either::Either::Right(a)) => pg_row_reduced(row, a),
                Ok(either::Either::Left(_)) => false,
                Err(e) => pg_first_bad_column(row.columns@, e),
            },
        },
{
    match item {
        either::Either::Left(res) => Ok(either::Either::Left(map_result(res))),
        either::Either::Right(row) => {
            let any_row = any_row_from_pg(&row)?;
            Ok(either::Either::Right(any_row))
        },
    }
}

/// Converts generic arguments into this backend's bag, positional and
/// named values alike.
pub fn convert_into(args: AnyArguments) -> (r: PgArguments)
    ensures
        r.bag@ == args.model(),
{
    PgArguments { bag: args.into_bag() }
}

/// The SQL as it is, with the positional generic arguments encoded in order
/// (named values have no place without rewriting).
pub fn sql_and_args(query: String, arguments: Option<AnyArguments>) -> (r: Result<(String, Option<PgArgumentsInner>), Error>)
    ensures
        match arguments {
            None => r is Ok && r->Ok_0.0@ == query@ && r->Ok_0.1 is None,
            Some(a) => match pg_fold(a.model().positional) {
                Ok(m) => r is Ok && r->Ok_0.0@ == query@ && r->Ok_0.1 is Some && r->Ok_0.1->0@ == m
                    && r->Ok_0.1->0.wf(),
                Err(f) => r is Err && fail_matches(r->Err_0, f),
            },
        },
{
    let expanded_args = match arguments {
        None => None,
        Some(args) => {
            let converted = convert_into(args);
            Some(converted.try_into_only_positional()?)
        },
    };
    Ok((query, expanded_args))
}

/// Rewrites the SQL into native placeholders (`$1`, `$2`, ...) and encodes the
/// values of the new positions; without arguments the SQL is kept as it is.
pub fn sql_and_args_parsing(query: String, arguments: Option<AnyArguments>) -> (r: Result<(String, Option<PgArgumentsInner>), Error>)
    ensures
        match arguments {
            None => r is Ok && r->Ok_0.0@ == query@ && r->Ok_0.1 is None,
            Some(a) => match scan(query@, 0, 0) {
                Err((s, e)) => r is Err && r->Err_0 is Parse && r->Err_0->start == s && r->Err_0->end == e,
                Ok(ps) => match expand_spec(
                    ParsedModel { sql: query@, places: ps },
                    a.model(),
                    '$',
                    ParamIndexing::OneIndexed,
                ) {
                    Err(f) => r is Err && resolve_err_is(r->Err_0, f),
                    Ok((sql, vals)) => match pg_fold(vals) {
                        Ok(m) => r is Ok && r->Ok_0.0@ == sql && r->Ok_0.1 is Some && r->Ok_0.1->0@ == m
                            && r->Ok_0.1->0.wf(),
                        Err(f) => r is Err && fail_matches(r->Err_0, f),
                    },
                },
            },
        },
{
    match arguments {
        None => Ok((query, None)),
        Some(a) => {
            let args = convert_into(a);
            let parsed = parse_query(query.as_str())?;
            let (sql, vals) = expand_plan(&parsed, args.bag(), '$', ParamIndexing::OneIndexed)?;
            let inner = PgArgumentsInner::from_values(vals.as_slice())?;
            Ok((sql, Some(inner)))
        },
    }
}

} // verus!
