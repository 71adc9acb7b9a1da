use vstd::prelude::*;

use crate::value::{
    copy_type, scalar_type_of, scalars_model, type_of_scalar, types_match, BoundValue, Scalar, ScalarModel,
    ScalarType, TypeModel, ValueModel,
};

verus! {

/// A type whose values bind as one scalar of a fixed declared type.
pub trait IntoScalar {
    spec fn scalar_model(&self) -> ScalarModel;

    spec fn declared() -> TypeModel;

    fn to_scalar(&self) -> (r: Scalar)
        ensures
            r@ == self.scalar_model(),
    ;

    fn declared_type() -> (r: ScalarType)
        ensures
            r@ == Self::declared(),
    ;
}

/// A caller value that can be bound: it turns into an owned, type-erased
/// value that can be encoded any number of times later. This cannot fail.
pub trait IntoEncode: Sized {
    spec fn encoded_model(self) -> ValueModel;

    fn into_encode_owned(self) -> (r: BoundValue)
        ensures
            r@ == self.encoded_model(),
    ;
}

impl IntoScalar for bool {
    open spec fn scalar_model(&self) -> ScalarModel {
        ScalarModel::Bool(*self)
    }

    open spec fn declared() -> TypeModel {
        TypeModel::Bool
    }

    fn to_scalar(&self) -> (r: Scalar) {
        Scalar::Bool(*self)
    }

    fn declared_type() -> (r: ScalarType) {
        ScalarType::Bool
    }
}

impl IntoEncode for bool {
    open spec fn encoded_model(self) -> ValueModel {
        ValueModel::Scalar(ScalarModel::Bool(self))
    }

    fn into_encode_owned(self) -> (r: BoundValue) {
        BoundValue::Scalar(Scalar::Bool(self))
    }
}

impl IntoScalar for i8 {
    open spec fn scalar_model(&self) -> ScalarModel {
        ScalarModel::I8(*self)
    }

    open spec fn declared() -> TypeModel {
        TypeModel::I8
    }

    fn to_scalar(&self) -> (r: Scalar) {
        Scalar::I8(*self)
    }

    fn declared_type() -> (r: ScalarType) {
        ScalarType::I8
    }
}

impl IntoEncode for i8 {
    open spec fn encoded_model(self) -> ValueModel {
        ValueModel::Scalar(ScalarModel::I8(self))
    }

    fn into_encode_owned(self) -> (r: BoundValue) {
        BoundValue::Scalar(Scalar::I8(self))
    }
}

impl IntoScalar for i16 {
    open spec fn scalar_model(&self) -> ScalarModel {
        ScalarModel::I16(*self)
    }

    open spec fn declared() -> TypeModel {
        TypeModel::I16
    }

    fn to_scalar(&self) -> (r: Scalar) {
        Scalar::I16(*self)
    }

    fn declared_type() -> (r: ScalarType) {
        ScalarType::I16
    }
}

impl IntoEncode for i16 {
    open spec fn encoded_model(self) -> ValueModel {
        ValueModel::Scalar(ScalarModel::I16(self))
    }

    fn into_encode_owned(self) -> (r: BoundValue) {
        BoundValue::Scalar(Scalar::I16(self))
    }
}

impl IntoScalar for i32 {
    open spec fn scalar_model(&self) -> ScalarModel {
        ScalarModel::I32(*self)
    }

    open spec fn declared() -> TypeModel {
        TypeModel::I32
    }

    fn to_scalar(&self) -> (r: Scalar) {
        Scalar::I32(*self)
    }

    fn declared_type() -> (r: ScalarType) {
        ScalarType::I32
    }
}

impl IntoEncode for i32 {
    open spec fn encoded_model(self) -> ValueModel {
        ValueModel::Scalar(ScalarModel::I32(self))
    }

    fn into_encode_owned(self) -> (r: BoundValue) {
        BoundValue::Scalar(Scalar::I32(self))
    }
}

impl IntoScalar for i64 {
    open spec fn scalar_model(&self) -> ScalarModel {
        ScalarModel::I64(*self)
    }

    open spec fn declared() -> TypeModel {
        TypeModel::I64
    }

    fn to_scalar(&self) -> (r: Scalar) {
        Scalar::I64(*self)
    }

    fn declared_type() -> (r: ScalarType) {
        ScalarType::I64
    }
}

impl IntoEncode for i64 {
    open spec fn encoded_model(self) -> ValueModel {
        ValueModel::Scalar(ScalarModel::I64(self))
    }

    fn into_encode_owned(self) -> (r: BoundValue) {
        BoundValue::Scalar(Scalar::I64(self))
    }
}

impl IntoScalar for u16 {
    open spec fn scalar_model(&self) -> ScalarModel {
        ScalarModel::U16(*self)
    }

    open spec fn declared() -> TypeModel {
        TypeModel::U16
    }

    fn to_scalar(&self) -> (r: Scalar) {
        Scalar::U16(*self)
    }

    fn declared_type() -> (r: ScalarType) {
        ScalarType::U16
    }
}

impl IntoEncode for u16 {
    open spec fn encoded_model(self) -> ValueModel {
        ValueModel::Scalar(ScalarModel::U16(self))
    }

    fn into_encode_owned(self) -> (r: BoundValue) {
        BoundValue::Scalar(Scalar::U16(self))
    }
}

impl IntoScalar for u32 {
    open spec fn scalar_model(&self) -> ScalarModel {
        ScalarModel::U32(*self)
    }

    open spec fn declared() -> TypeModel {
        TypeModel::U32
    }

    fn to_scalar(&self) -> (r: Scalar) {
        Scalar::U32(*self)
    }

    fn declared_type() -> (r: ScalarType) {
        ScalarType::U32
    }
}

impl IntoEncode for u32 {
    open spec fn encoded_model(self) -> ValueModel {
        ValueModel::Scalar(ScalarModel::U32(self))
    }

    fn into_encode_owned(self) -> (r: BoundValue) {
        BoundValue::Scalar(Scalar::U32(self))
    }
}

impl IntoScalar for u64 {
    open spec fn scalar_model(&self) -> ScalarModel {
        ScalarModel::U64(*self)
    }

    open spec fn declared() -> TypeModel {
        TypeModel::U64
    }

    fn to_scalar(&self) -> (r: Scalar) {
        Scalar::U64(*self)
    }

    fn declared_type() -> (r: ScalarType) {
        ScalarType::U64
    }
}

impl IntoEncode for u64 {
    open spec fn encoded_model(self) -> ValueModel {
        ValueModel::Scalar(ScalarModel::U64(self))
    }

    fn into_encode_owned(self) -> (r: BoundValue) {
        BoundValue::Scalar(Scalar::U64(self))
    }
}

impl IntoScalar for String {
    open spec fn scalar_model(&self) -> ScalarModel {
        ScalarModel::Text(self@)
    }

    open spec fn declared() -> TypeModel {
        TypeModel::Text
    }

    fn to_scalar(&self) -> (r: Scalar) {
        Scalar::Text(self.clone())
    }

    fn declared_type() -> (r: ScalarType) {
        ScalarType::Text
    }
}

impl IntoEncode for String {
    open spec fn encoded_model(self) -> ValueModel {
        ValueModel::Scalar(ScalarModel::Text(self@))
    }

    fn into_encode_owned(self) -> (r: BoundValue) {
        BoundValue::Scalar(Scalar::Text(self))
    }
}

impl<'a> IntoEncode for &'a str {
    open spec fn encoded_model(self) -> ValueModel {
        ValueModel::Scalar(ScalarModel::Text(self@))
    }

    fn into_encode_owned(self) -> (r: BoundValue) {
        BoundValue::Scalar(Scalar::Text(self.to_owned()))
    }
}

impl IntoEncode for Vec<u8> {
    open spec fn encoded_model(self) -> ValueModel {
        ValueModel::Scalar(ScalarModel::Blob(self@))
    }

    fn into_encode_owned(self) -> (r: BoundValue) {
        BoundValue::Scalar(Scalar::Blob(self))
    }
}

impl IntoEncode for BoundValue {
    open spec fn encoded_model(self) -> ValueModel {
        self@
    }

    fn into_encode_owned(self) -> (r: BoundValue) {
        self
    }
}

impl IntoEncode for Scalar {
    open spec fn encoded_model(self) -> ValueModel {
        ValueModel::Scalar(self@)
    }

    fn into_encode_owned(self) -> (r: BoundValue) {
        BoundValue::Scalar(self)
    }
}

impl<T: IntoScalar> IntoEncode for Option<T> {
    open spec fn encoded_model(self) -> ValueModel {
        match self {
            Some(v) => ValueModel::Scalar(v.scalar_model()),
            None => ValueModel::Null(T::declared()),
        }
    }

    fn into_encode_owned(self) -> (r: BoundValue) {
        match self {
            Some(v) => BoundValue::Scalar(v.to_scalar()),
            None => BoundValue::Null(T::declared_type()),
        }
    }
}

impl<T: IntoScalar> IntoEncode for Vec<T> {
    open spec fn encoded_model(self) -> ValueModel {
        ValueModel::Vector { elem: T::declared(), items: self@.map_values(|x: T| x.scalar_model()) }
    }

    fn into_encode_owned(self) -> (r: BoundValue) {
        let mut items: Vec<Scalar> = Vec::new();
        let mut j: usize = 0;
        while j < self.len()
            invariant
                j <= self@.len(),
                items@.len() == j,
                forall|k: int| 0 <= k < j ==> (#[trigger] items@[k])@ == self@[k].scalar_model(),
            decreases self@.len() - j,
        {
            items.push(self[j].to_scalar());
            j = j + 1;
        }
        assert(scalars_model(items@) =~= self@.map_values(|x: T| x.scalar_model()));
        BoundValue::Vector { elem: T::declared_type(), items }
    }
}

/// The declared scalar type of a value: its own type, that of the `NULL`, or
/// the element type of a sequence.
pub open spec fn declared_type_of(v: ValueModel) -> TypeModel {
    match v {
        ValueModel::Null(t) => t,
        ValueModel::Scalar(s) => scalar_type_of(s),
        ValueModel::Vector { elem, .. } => elem,
    }
}

/// An owned, type-erased value that reports its declared type and checks
/// compatibility with a requested type.
pub trait EncodeOwned {
    spec fn owned_model(&self) -> ValueModel;

    fn declared_type(&self) -> (r: ScalarType)
        ensures
            r@ == declared_type_of(self.owned_model()),
    ;

    fn type_compatible(&self, ty: &ScalarType) -> (r: bool)
        ensures
            r == (declared_type_of(self.owned_model()) == ty@),
    ;
}

impl EncodeOwned for BoundValue {
    open spec fn owned_model(&self) -> ValueModel {
        self@
    }

    fn declared_type(&self) -> (r: ScalarType) {
        match self {
            BoundValue::Null(t) => copy_type(t),
            BoundValue::Scalar(s) => type_of_scalar(s),
            BoundValue::Vector { elem, .. } => copy_type(elem),
        }
    }

    fn type_compatible(&self, ty: &ScalarType) -> (r: bool) {
        let t = self.declared_type();
        types_match(&t, ty)
    }
}

/// Either an owned value or a borrowed one.
pub enum Choice<'t, T> {
    Owned(T),
    Borrowed(&'t T),
}

impl<'t, T: Clone> Choice<'t, T> {
    /// The owned value, cloning a borrowed one.
    pub fn into_owned(self) -> (r: T)
        ensures
            match self {
                Choice::Owned(t) => r == t,
                Choice::Borrowed(t) => cloned(*t, r),
            },
    {
        match self {
            Choice::Owned(t) => t,
            Choice::Borrowed(t) => t.clone(),
        }
    }
}

/// A value that yields an owned `C`, cloning where it only borrows one.
pub trait IntoCloned2<C>: Sized {
    spec fn yields(self, c: C) -> bool;

    fn into_cloned2(self) -> (r: C)
        ensures
            self.yields(r),
    ;
}

impl<'t, C: Clone> IntoCloned2<C> for Choice<'t, C> {
    open spec fn yields(self, c: C) -> bool {
        match self {
            Choice::Owned(t) => c == t,
            Choice::Borrowed(t) => cloned(*t, c),
        }
    }

    fn into_cloned2(self) -> (r: C) {
        self.into_owned()
    }
}

/// An owned value kept for replay; it is read, never changed.
#[derive(Debug, Clone)]
pub struct EncodeClone<T> {
    value: T,
}

impl<T> EncodeClone<T> {
    /// Keeps `value`.
    pub fn from_value(value: T) -> (r: EncodeClone<T>)
        ensures
            r.inner() == value,
    {
        EncodeClone { value }
    }

    pub closed spec fn inner(&self) -> T {
        self.value
    }

    /// The kept value.
    pub fn value(&self) -> (r: &T)
        ensures
            *r == self.inner(),
    {
        &self.value
    }
}

impl<T: IntoEncode + Clone> EncodeClone<T> {
    /// A type-erased copy of the kept value.
    pub fn to_bound(&self) -> (r: BoundValue)
        ensures
            exists|c: T| cloned(self.inner(), c) && r@ == c.encoded_model(),
    {
        let c = self.value.clone();
        c.into_encode_owned()
    }
}

} // verus!
