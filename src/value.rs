use vstd::prelude::*;

verus! {

/// Whether an encoded value was SQL `NULL`.
#[derive(Debug, Clone, Copy, PartialEq, Eq)]
pub enum IsNull {
    Yes,
    No,
}

impl IsNull {
    pub fn is_null(&self) -> (r: bool)
        ensures
            r == (*self == IsNull::Yes),
    {
        match self {
            IsNull::Yes => true,
            IsNull::No => false,
        }
    }
}

/// The declared type of a scalar value, independent of any backend.
#[derive(Debug, Clone, PartialEq, Eq)]
pub enum ScalarType {
    Bool,
    I8,
    I16,
    I32,
    I64,
    U8,
    U16,
    U32,
    U64,
    /// A 32-bit IEEE float.
    Real,
    /// A 64-bit IEEE float.
    Double,
    Text,
    Blob,
    Uuid,
    /// A type the server knows by name only (an enum or domain type).
    Custom(String),
}

/// A scalar value. Floats are held as their IEEE bit patterns.
#[derive(Debug, Clone, PartialEq, Eq)]
pub enum Scalar {
    Bool(bool),
    I8(i8),
    I16(i16),
    I32(i32),
    I64(i64),
    U8(u8),
    U16(u16),
    U32(u32),
    U64(u64),
    Real(u32),
    Double(u64),
    Text(String),
    Blob(Vec<u8>),
    Uuid(u128),
    /// A value of a server type known by name, with its binary representation.
    Custom { name: String, bytes: Vec<u8> },
}

/// The owned, type-erased form of a bound value.
///
/// A value is immutable once created: it can be encoded any number of times.
#[derive(Debug, Clone, PartialEq, Eq)]
pub enum BoundValue {
    /// SQL `NULL` of the given type.
    Null(ScalarType),
    Scalar(Scalar),
    /// A sequence whose elements all have type `elem` (a violation fails to encode).
    Vector { elem: ScalarType, items: Vec<Scalar> },
}

/// The mathematical form of a `ScalarType`.
pub enum TypeModel {
    Bool,
    I8,
    I16,
    I32,
    I64,
    U8,
    U16,
    U32,
    U64,
    Real,
    Double,
    Text,
    Blob,
    Uuid,
    Custom(Seq<char>),
}

/// The mathematical form of a `Scalar`.
pub enum ScalarModel {
    Bool(bool),
    I8(i8),
    I16(i16),
    I32(i32),
    I64(i64),
    U8(u8),
    U16(u16),
    U32(u32),
    U64(u64),
    Real(u32),
    Double(u64),
    Text(Seq<char>),
    Blob(Seq<u8>),
    Uuid(u128),
    Custom { name: Seq<char>, bytes: Seq<u8> },
}

/// The mathematical form of a `BoundValue`.
pub enum ValueModel {
    Null(TypeModel),
    Scalar(ScalarModel),
    Vector { elem: TypeModel, items: Seq<ScalarModel> },
}

impl View for ScalarType {
    type V = TypeModel;

    open spec fn view(&self) -> TypeModel {
        match self {
            ScalarType::Bool => TypeModel::Bool,
            ScalarType::I8 => TypeModel::I8,
            ScalarType::I16 => TypeModel::I16,
            ScalarType::I32 => TypeModel::I32,
            ScalarType::I64 => TypeModel::I64,
            ScalarType::U8 => TypeModel::U8,
            ScalarType::U16 => TypeModel::U16,
            ScalarType::U32 => TypeModel::U32,
            ScalarType::U64 => TypeModel::U64,
            ScalarType::Real => TypeModel::Real,
            ScalarType::Double => TypeModel::Double,
            ScalarType::Text => TypeModel::Text,
            ScalarType::Blob => TypeModel::Blob,
            ScalarType::Uuid => TypeModel::Uuid,
            ScalarType::Custom(n) => TypeModel::Custom(n@),
        }
    }
}

impl View for Scalar {
    type V = ScalarModel;

    open spec fn view(&self) -> ScalarModel {
        match self {
            Scalar::Bool(b) => ScalarModel::Bool(*b),
            Scalar::I8(x) => ScalarModel::I8(*x),
            Scalar::I16(x) => ScalarModel::I16(*x),
            Scalar::I32(x) => ScalarModel::I32(*x),
            Scalar::I64(x) => ScalarModel::I64(*x),
            Scalar::U8(x) => ScalarModel::U8(*x),
            Scalar::U16(x) => ScalarModel::U16(*x),
            Scalar::U32(x) => ScalarModel::U32(*x),
            Scalar::U64(x) => ScalarModel::U64(*x),
            Scalar::Real(x) => ScalarModel::Real(*x),
            Scalar::Double(x) => ScalarModel::Double(*x),
            Scalar::Text(t) => ScalarModel::Text(t@),
            Scalar::Blob(b) => ScalarModel::Blob(b@),
            Scalar::Uuid(u) => ScalarModel::Uuid(*u),
            Scalar::Custom { name, bytes } => ScalarModel::Custom { name: name@, bytes: bytes@ },
        }
    }
}

/// The models of a sequence of scalars.
pub open spec fn scalars_model(items: Seq<Scalar>) -> Seq<ScalarModel> {
    items.map_values(|s: Scalar| s@)
}

impl View for BoundValue {
    type V = ValueModel;

    open spec fn view(&self) -> ValueModel {
        match self {
            BoundValue::Null(t) => ValueModel::Null(t@),
            BoundValue::Scalar(s) => ValueModel::Scalar(s@),
            BoundValue::Vector { elem, items } => ValueModel::Vector {
                elem: elem@,
                items: scalars_model(items@),
            },
        }
    }
}

/// The declared type of a scalar.
pub open spec fn scalar_type_of(s: ScalarModel) -> TypeModel {
    match s {
        ScalarModel::Bool(_) => TypeModel::Bool,
        ScalarModel::I8(_) => TypeModel::I8,
        ScalarModel::I16(_) => TypeModel::I16,
        ScalarModel::I32(_) => TypeModel::I32,
        ScalarModel::I64(_) => TypeModel::I64,
        ScalarModel::U8(_) => TypeModel::U8,
        ScalarModel::U16(_) => TypeModel::U16,
        ScalarModel::U32(_) => TypeModel::U32,
        ScalarModel::U64(_) => TypeModel::U64,
        ScalarModel::Real(_) => TypeModel::Real,
        ScalarModel::Double(_) => TypeModel::Double,
        ScalarModel::Text(_) => TypeModel::Text,
        ScalarModel::Blob(_) => TypeModel::Blob,
        ScalarModel::Uuid(_) => TypeModel::Uuid,
        ScalarModel::Custom { name, .. } => TypeModel::Custom(name),
    }
}

/// Decides whether two scalar types are the same type.
pub fn types_match(a: &ScalarType, b: &ScalarType) -> (r: bool)
    ensures
        r == (a@ == b@),
{
    match (a, b) {
        (ScalarType::Custom(x), ScalarType::Custom(y)) => {
            let e = x.eq(y);
            proof {
                if a@ == b@ {
                    assert(x@ == y@);
                }
            }
            e
        },
        (ScalarType::Bool, ScalarType::Bool) => true,
        (ScalarType::I8, ScalarType::I8) => true,
        (ScalarType::I16, ScalarType::I16) => true,
        (ScalarType::I32, ScalarType::I32) => true,
        (ScalarType::I64, ScalarType::I64) => true,
        (ScalarType::U8, ScalarType::U8) => true,
        (ScalarType::U16, ScalarType::U16) => true,
        (ScalarType::U32, ScalarType::U32) => true,
        (ScalarType::U64, ScalarType::U64) => true,
        (ScalarType::Real, ScalarType::Real) => true,
        (ScalarType::Double, ScalarType::Double) => true,
        (ScalarType::Text, ScalarType::Text) => true,
        (ScalarType::Blob, ScalarType::Blob) => true,
        (ScalarType::Uuid, ScalarType::Uuid) => true,
        _ => false,
    }
}

/// The type of a scalar, computed.
pub fn type_of_scalar(s: &Scalar) -> (r: ScalarType)
    ensures
        r@ == scalar_type_of(s@),
{
    match s {
        Scalar::Bool(_) => ScalarType::Bool,
        Scalar::I8(_) => ScalarType::I8,
        Scalar::I16(_) => ScalarType::I16,
        Scalar::I32(_) => ScalarType::I32,
        Scalar::I64(_) => ScalarType::I64,
        Scalar::U8(_) => ScalarType::U8,
        Scalar::U16(_) => ScalarType::U16,
        Scalar::U32(_) => ScalarType::U32,
        Scalar::U64(_) => ScalarType::U64,
        Scalar::Real(_) => ScalarType::Real,
        Scalar::Double(_) => ScalarType::Double,
        Scalar::Text(_) => ScalarType::Text,
        Scalar::Blob(_) => ScalarType::Blob,
        Scalar::Uuid(_) => ScalarType::Uuid,
        Scalar::Custom { name, .. } => ScalarType::Custom(name.clone()),
    }
}

/// The number of elements of a sequence value; `None` for anything else.
pub open spec fn spec_vector_len(v: ValueModel) -> Option<nat> {
    match v {
        ValueModel::Vector { items, .. } => Some(items.len()),
        _ => None,
    }
}

/// Element `j` of a sequence value, as a value of its own.
pub open spec fn vector_item(v: ValueModel, j: int) -> ValueModel {
    match v {
        ValueModel::Vector { items, .. } => ValueModel::Scalar(items[j]),
        _ => v,
    }
}

impl BoundValue {
    /// The element count of a sequence value, if this is one.
    pub fn vector_len(&self) -> (r: Option<usize>)
        ensures
            match spec_vector_len(self@) {
                Some(n) => r == Some(n as usize) && n <= usize::MAX,
                None => r is None,
            },
    {
        match self {
            BoundValue::Vector { items, .. } => Some(items.len()),
            _ => None,
        }
    }

    /// Element `j` of a sequence value, copied into a value of its own.
    pub fn item(&self, j: usize) -> (r: BoundValue)
        requires
            spec_vector_len(self@) is Some,
            j < spec_vector_len(self@)->0,
        ensures
            r@ == vector_item(self@, j as int),
    {
        match self {
            BoundValue::Vector { items, .. } => BoundValue::Scalar(copy_scalar(&items[j])),
            _ => BoundValue::Null(ScalarType::Bool),
        }
    }

    /// A copy of this value.
    pub fn copy(&self) -> (r: BoundValue)
        ensures
            r@ == self@,
    {
        match self {
            BoundValue::Null(t) => BoundValue::Null(copy_type(t)),
            BoundValue::Scalar(s) => BoundValue::Scalar(copy_scalar(s)),
            BoundValue::Vector { elem, items } => {
                let mut out: Vec<Scalar> = Vec::new();
                let mut j: usize = 0;
                while j < items.len()
                    invariant
                        j <= items@.len(),
                        out@.len() == j,
                        forall|k: int| 0 <= k < j ==> (#[trigger] out@[k])@ == items@[k]@,
                    decreases items@.len() - j,
                {
                    out.push(copy_scalar(&items[j]));
                    j = j + 1;
                }
                assert(scalars_model(out@) =~= scalars_model(items@));
                BoundValue::Vector { elem: copy_type(elem), items: out }
            },
        }
    }
}

/// A copy of a scalar type.
pub fn copy_type(t: &ScalarType) -> (r: ScalarType)
    ensures
        r@ == t@,
{
    match t {
        ScalarType::Custom(n) => ScalarType::Custom(n.clone()),
        ScalarType::Bool => ScalarType::Bool,
        ScalarType::I8 => ScalarType::I8,
        ScalarType::I16 => ScalarType::I16,
        ScalarType::I32 => ScalarType::I32,
        ScalarType::I64 => ScalarType::I64,
        ScalarType::U8 => ScalarType::U8,
        ScalarType::U16 => ScalarType::U16,
        ScalarType::U32 => ScalarType::U32,
        ScalarType::U64 => ScalarType::U64,
        ScalarType::Real => ScalarType::Real,
        ScalarType::Double => ScalarType::Double,
        ScalarType::Text => ScalarType::Text,
        ScalarType::Blob => ScalarType::Blob,
        ScalarType::Uuid => ScalarType::Uuid,
    }
}

/// A copy of a scalar.
pub fn copy_scalar(s: &Scalar) -> (r: Scalar)
    ensures
        r@ == s@,
{
    match s {
        Scalar::Bool(b) => Scalar::Bool(*b),
        Scalar::I8(x) => Scalar::I8(*x),
        Scalar::I16(x) => Scalar::I16(*x),
        Scalar::I32(x) => Scalar::I32(*x),
        Scalar::I64(x) => Scalar::I64(*x),
        Scalar::U8(x) => Scalar::U8(*x),
        Scalar::U16(x) => Scalar::U16(*x),
        Scalar::U32(x) => Scalar::U32(*x),
        Scalar::U64(x) => Scalar::U64(*x),
        Scalar::Real(x) => Scalar::Real(*x),
        Scalar::Double(x) => Scalar::Double(*x),
        Scalar::Text(t) => Scalar::Text(t.clone()),
        Scalar::Blob(b) => Scalar::Blob(b.clone()),
        Scalar::Uuid(u) => Scalar::Uuid(*u),
        Scalar::Custom { name, bytes } => Scalar::Custom { name: name.clone(), bytes: bytes.clone() },
    }
}

} // verus!
