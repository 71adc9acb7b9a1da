use vstd::prelude::*;

use crate::bytes::{be_bytes, le_bytes, push_all, push_be, push_le};
use crate::error::Error;
use crate::value::{scalar_type_of, BoundValue, Scalar, ScalarModel, ScalarType, TypeModel, ValueModel};
use crate::value::IsNull;
use vstd::utf8::encode_utf8;

verus! {

/// The column types of the protocol with separate null markers.
#[derive(Debug, Clone, Copy, PartialEq, Eq, Structural)]
pub enum ColumnType {
    Decimal,
    Tiny,
    Short,
    Long,
    Float,
    Double,
    Null,
    Timestamp,
    LongLong,
    Int24,
    Date,
    Time,
    Datetime,
    Year,
    VarChar,
    Bit,
    Json,
    NewDecimal,
    Enum,
    SetOf,
    TinyBlob,
    MediumBlob,
    LongBlob,
    Blob,
    VarString,
    String,
    Geometry,
}

/// The column flag of unsigned integer types.
pub const UNSIGNED_FLAG: u16 = 32;

/// The column flag of binary (non-text) types.
pub const BINARY_FLAG: u16 = 128;

/// Type information of a value of the protocol with separate null markers.
#[derive(Debug, Clone, Copy, PartialEq, Eq, Structural)]
pub struct MySqlTypeInfo {
    pub column_type: ColumnType,
    pub flags: u16,
}

/// The declared type that a value of scalar type `t` is sent with.
pub open spec fn mysql_type_model(t: TypeModel) -> MySqlTypeInfo {
    match t {
        TypeModel::Bool => MySqlTypeInfo { column_type: ColumnType::Tiny, flags: 0 },
        TypeModel::I8 => MySqlTypeInfo { column_type: ColumnType::Tiny, flags: 0 },
        TypeModel::I16 => MySqlTypeInfo { column_type: ColumnType::Short, flags: 0 },
        TypeModel::I32 => MySqlTypeInfo { column_type: ColumnType::Long, flags: 0 },
        TypeModel::I64 => MySqlTypeInfo { column_type: ColumnType::LongLong, flags: 0 },
        TypeModel::U8 => MySqlTypeInfo { column_type: ColumnType::Tiny, flags: UNSIGNED_FLAG },
        TypeModel::U16 => MySqlTypeInfo { column_type: ColumnType::Short, flags: UNSIGNED_FLAG },
        TypeModel::U32 => MySqlTypeInfo { column_type: ColumnType::Long, flags: UNSIGNED_FLAG },
        TypeModel::U64 => MySqlTypeInfo { column_type: ColumnType::LongLong, flags: UNSIGNED_FLAG },
        TypeModel::Real => MySqlTypeInfo { column_type: ColumnType::Float, flags: 0 },
        TypeModel::Double => MySqlTypeInfo { column_type: ColumnType::Double, flags: 0 },
        TypeModel::Text => MySqlTypeInfo { column_type: ColumnType::VarString, flags: 0 },
        TypeModel::Blob => MySqlTypeInfo { column_type: ColumnType::Blob, flags: BINARY_FLAG },
        TypeModel::Uuid => MySqlTypeInfo { column_type: ColumnType::Blob, flags: BINARY_FLAG },
        TypeModel::Custom(_) => MySqlTypeInfo { column_type: ColumnType::VarString, flags: 0 },
    }
}

/// The declared type recorded for a bound value (sequences never encode).
pub open spec fn mysql_value_type(v: ValueModel) -> MySqlTypeInfo {
    match v {
        ValueModel::Null(t) => mysql_type_model(t),
        ValueModel::Scalar(s) => mysql_type_model(scalar_type_of(s)),
        ValueModel::Vector { .. } => MySqlTypeInfo { column_type: ColumnType::Blob, flags: BINARY_FLAG },
    }
}

/// The declared type that a value of scalar type `t` is sent with, computed.
pub fn mysql_type_of(t: &ScalarType) -> (r: MySqlTypeInfo)
    ensures
        r == mysql_type_model(t@),
{
    match t {
        ScalarType::Bool => MySqlTypeInfo { column_type: ColumnType::Tiny, flags: 0 },
        ScalarType::I8 => MySqlTypeInfo { column_type: ColumnType::Tiny, flags: 0 },
        ScalarType::I16 => MySqlTypeInfo { column_type: ColumnType::Short, flags: 0 },
        ScalarType::I32 => MySqlTypeInfo { column_type: ColumnType::Long, flags: 0 },
        ScalarType::I64 => MySqlTypeInfo { column_type: ColumnType::LongLong, flags: 0 },
        ScalarType::U8 => MySqlTypeInfo { column_type: ColumnType::Tiny, flags: UNSIGNED_FLAG },
        ScalarType::U16 => MySqlTypeInfo { column_type: ColumnType::Short, flags: UNSIGNED_FLAG },
        ScalarType::U32 => MySqlTypeInfo { column_type: ColumnType::Long, flags: UNSIGNED_FLAG },
        ScalarType::U64 => MySqlTypeInfo { column_type: ColumnType::LongLong, flags: UNSIGNED_FLAG },
        ScalarType::Real => MySqlTypeInfo { column_type: ColumnType::Float, flags: 0 },
        ScalarType::Double => MySqlTypeInfo { column_type: ColumnType::Double, flags: 0 },
        ScalarType::Text => MySqlTypeInfo { column_type: ColumnType::VarString, flags: 0 },
        ScalarType::Blob => MySqlTypeInfo { column_type: ColumnType::Blob, flags: BINARY_FLAG },
        ScalarType::Uuid => MySqlTypeInfo { column_type: ColumnType::Blob, flags: BINARY_FLAG },
        ScalarType::Custom(_) => MySqlTypeInfo { column_type: ColumnType::VarString, flags: 0 },
    }
}

/// A length-encoded integer: one byte below 251, else a marker byte and 2, 3
/// or 8 little-endian bytes.
pub open spec fn lenenc(n: nat) -> Seq<u8> {
    if n < 251 {
        seq![n as u8]
    } else if n < 65536 {
        seq![0xfcu8] + le_bytes(n as u128, 2)
    } else if n < 16777216 {
        seq![0xfdu8] + le_bytes(n as u128, 3)
    } else {
        seq![0xfeu8] + le_bytes(n as u128, 8)
    }
}

/// The binary representation of a scalar.
pub open spec fn mysql_scalar_bytes(s: ScalarModel) -> Seq<u8> {
    match s {
        ScalarModel::Bool(b) => seq![if b { 1u8 } else { 0u8 }],
        ScalarModel::I8(x) => seq![x as u8],
        ScalarModel::I16(x) => le_bytes(x as u16 as u128, 2),
        ScalarModel::I32(x) => le_bytes(x as u32 as u128, 4),
        ScalarModel::I64(x) => le_bytes(x as u64 as u128, 8),
        ScalarModel::U8(x) => seq![x],
        ScalarModel::U16(x) => le_bytes(x as u128, 2),
        ScalarModel::U32(x) => le_bytes(x as u128, 4),
        ScalarModel::U64(x) => le_bytes(x as u128, 8),
        ScalarModel::Real(b) => le_bytes(b as u128, 4),
        ScalarModel::Double(b) => le_bytes(b as u128, 8),
        ScalarModel::Text(t) => lenenc(encode_utf8(t).len()) + encode_utf8(t),
        ScalarModel::Blob(b) => lenenc(b.len()) + b,
        ScalarModel::Uuid(u) => lenenc(16) + be_bytes(u, 16),
        ScalarModel::Custom { bytes, .. } => lenenc(bytes.len()) + bytes,
    }
}

/// Appends a length-encoded integer.
pub fn push_lenenc(buf: &mut Vec<u8>, n: usize)
    ensures
        final(buf)@ == old(buf)@ + lenenc(n as nat),
{
    if n < 251 {
        buf.push(n as u8);
    } else if n < 65536 {
        buf.push(0xfcu8);
        push_le(buf, n as u128, 2);
    } else if n < 16777216 {
        buf.push(0xfdu8);
        push_le(buf, n as u128, 3);
    } else {
        buf.push(0xfeu8);
        push_le(buf, n as u128, 8);
    }
    assert(final(buf)@ =~= old(buf)@ + lenenc(n as nat));
}

/// Appends the binary representation of a scalar.
pub fn push_mysql_scalar(buf: &mut Vec<u8>, s: &Scalar)
    ensures
        final(buf)@ == old(buf)@ + mysql_scalar_bytes(s@),
{
    match s {
        Scalar::Bool(b) => {
            buf.push(if *b { 1u8 } else { 0u8 });
            assert(final(buf)@ =~= old(buf)@ + mysql_scalar_bytes(s@));
        },
        Scalar::I8(x) => {
            buf.push(*x as u8);
            assert(final(buf)@ =~= old(buf)@ + mysql_scalar_bytes(s@));
        },
        Scalar::U8(x) => {
            buf.push(*x);
            assert(final(buf)@ =~= old(buf)@ + mysql_scalar_bytes(s@));
        },
        Scalar::I16(x) => push_le(buf, *x as u16 as u128, 2),
        Scalar::I32(x) => push_le(buf, *x as u32 as u128, 4),
        Scalar::I64(x) => push_le(buf, *x as u64 as u128, 8),
        Scalar::U16(x) => push_le(buf, *x as u128, 2),
        Scalar::U32(x) => push_le(buf, *x as u128, 4),
        Scalar::U64(x) => push_le(buf, *x as u128, 8),
        Scalar::Real(x) => push_le(buf, *x as u128, 4),
        Scalar::Double(x) => push_le(buf, *x as u128, 8),
        Scalar::Text(t) => {
            let b = t.as_str().as_bytes();
            push_lenenc(buf, b.len());
            push_all(buf, b);
            assert(final(buf)@ =~= old(buf)@ + mysql_scalar_bytes(s@));
        },
        Scalar::Blob(b) => {
            push_lenenc(buf, b.len());
            push_all(buf, b.as_slice());
            assert(final(buf)@ =~= old(buf)@ + mysql_scalar_bytes(s@));
        },
        Scalar::Uuid(u) => {
            push_lenenc(buf, 16);
            push_be(buf, *u, 16);
            assert(final(buf)@ =~= old(buf)@ + mysql_scalar_bytes(s@));
        },
        Scalar::Custom { bytes, .. } => {
            push_lenenc(buf, bytes.len());
            push_all(buf, bytes.as_slice());
            assert(final(buf)@ =~= old(buf)@ + mysql_scalar_bytes(s@));
        },
    }
}

/// Bit `k` (least significant first) of byte `b`.
pub open spec fn bit_of(b: u8, k: int) -> bool {
    (b >> (k as u8)) & 1u8 == 1u8
}

/// A bitmap of one bit per value, least significant bit first within each byte.
#[derive(Debug, Clone)]
pub struct NullBitMap {
    bytes: Vec<u8>,
    length: usize,
}

impl NullBitMap {
    /// The bits pushed so far, in order.
    pub closed spec fn bits(&self) -> Seq<bool> {
        Seq::new(self.length as nat, |i: int| bit_of(self.bytes@[i / 8], i % 8))
    }

    /// Exactly the bytes needed, with every unused bit clear.
    pub closed spec fn wf(&self) -> bool {
        &&& self.bytes@.len() == (self.length + 7) / 8
        &&& forall|i: int|
            self.length <= i < self.bytes@.len() * 8 ==> !bit_of(#[trigger] self.bytes@[i / 8], i % 8)
    }

    /// The packed bytes.
    pub fn as_bytes(&self) -> (r: &[u8])
        requires
            self.wf(),
        ensures
            r@.len() == (self.bits().len() + 7) / 8,
            forall|i: int| 0 <= i < self.bits().len() ==> bit_of(r@[i / 8], i % 8) == self.bits()[i],
            forall|i: int| self.bits().len() <= i < r@.len() * 8 ==> !bit_of(#[trigger] r@[i / 8], i % 8),
    {
        self.bytes.as_slice()
    }

    /// Appends one bit: set when the value is `NULL`.
    pub fn push(&mut self, is_null: IsNull)
        requires
            old(self).wf(),
            old(self).bits().len() < usize::MAX,
        ensures
            final(self).wf(),
            final(self).bits() == old(self).bits().push(is_null == IsNull::Yes),
    {
        let byte_index = self.length / 8;
        let bit_offset = self.length % 8;
        if bit_offset == 0 {
            self.bytes.push(0u8);
        }
        let v: u8 = if is_null.is_null() { 1 } else { 0 };
        let b = self.bytes[byte_index];
        let nb = b | (v << (bit_offset as u8));
        self.bytes.set(byte_index, nb);
        self.length = self.length + 1;
        proof {
            let off = bit_offset as u8;
            assert forall|k: u8| k < 8 && k != off implies #[trigger] ((nb >> k) & 1u8) == ((b >> k) & 1u8) by {
                lemma_other_bit(b, off, v, k);
            }
            assert(bit_offset == 0 ==> b == 0u8);
            assert(!bit_of(b, bit_offset as int)) by {
                if bit_offset != 0 {
                    let l = old(self).length as int;
                    assert(l < ((l + 7) / 8) * 8) by (nonlinear_arith)
                        requires
                            l % 8 != 0,
                            l >= 0,
                    ;
                    assert(!bit_of(old(self).bytes@[l / 8], l % 8));
                } else {
                    lemma_zero_bits(off);
                }
            }
            lemma_this_bit(b, off, v);
            assert forall|i: int| 0 <= i < self.length implies #[trigger] self.bits()[i] == old(self).bits().push(
                is_null == IsNull::Yes,
            )[i] by {
                if i / 8 != byte_index as int {
                    assert(self.bytes@[i / 8] == old(self).bytes@[i / 8]);
                } else if i % 8 != bit_offset as int {
                    assert(((nb >> ((i % 8) as u8)) & 1u8) == ((b >> ((i % 8) as u8)) & 1u8));
                }
            }
            assert(self.bits() =~= old(self).bits().push(is_null == IsNull::Yes));
            assert forall|i: int| self.length <= i < self.bytes@.len() * 8 implies !bit_of(
                #[trigger] self.bytes@[i / 8],
                i % 8,
            ) by {
                if i / 8 == byte_index as int {
                    assert(((nb >> ((i % 8) as u8)) & 1u8) == ((b >> ((i % 8) as u8)) & 1u8));
                    if bit_offset == 0 {
                        lemma_zero_bits(((i % 8) as u8));
                    }
                } else {
                    assert(self.bytes@[i / 8] == old(self).bytes@[i / 8]);
                }
            }
        }
    }
}

proof fn lemma_other_bit(b: u8, off: u8, v: u8, k: u8)
    requires
        off < 8,
        k < 8,
        k != off,
        v <= 1,
    ensures
        (((b | (v << off)) >> k) & 1u8) == ((b >> k) & 1u8),
{
    assert((((b | (v << off)) >> k) & 1u8) == ((b >> k) & 1u8)) by (bit_vector)
        requires
            off < 8,
            k < 8,
            k != off,
            v <= 1,
    ;
}

proof fn lemma_this_bit(b: u8, off: u8, v: u8)
    requires
        off < 8,
        v <= 1,
        (b >> off) & 1u8 != 1u8,
    ensures
        (((b | (v << off)) >> off) & 1u8) == v,
{
    assert((((b | (v << off)) >> off) & 1u8) == v) by (bit_vector)
        requires
            off < 8,
            v <= 1,
            (b >> off) & 1u8 != 1u8,
    ;
}

proof fn lemma_zero_bits(k: u8)
    requires
        k < 8,
    ensures
        ((0u8 >> k) & 1u8) == 0u8,
{
    assert(((0u8 >> k) & 1u8) == 0u8) by (bit_vector)
        requires
            k < 8,
    ;
}

impl Default for NullBitMap {
    fn default() -> (r: NullBitMap)
        ensures
            r.wf(),
            r.bits().len() == 0,
    {
        NullBitMap { bytes: Vec::new(), length: 0 }
    }
}

/// What encoding value `v` appends, and whether it is `NULL`; `None` when it
/// cannot be encoded (a sequence has no single-value form here).
pub open spec fn mysql_encoded(v: ValueModel) -> Option<(Seq<u8>, bool)> {
    match v {
        ValueModel::Null(_) => Some((Seq::empty(), true)),
        ValueModel::Scalar(s) => Some((mysql_scalar_bytes(s), false)),
        ValueModel::Vector { .. } => None,
    }
}

/// Encodes a value onto `buf`.
pub fn encode_mysql(value: &BoundValue, buf: &mut Vec<u8>) -> (r: Result<IsNull, Error>)
    ensures
        match mysql_encoded(value@) {
            Some((b, n)) => r == Ok::<IsNull, Error>(if n { IsNull::Yes } else { IsNull::No })
                && final(buf)@ == old(buf)@ + b,
            None => r is Err && r->Err_0 is Encode && final(buf)@.len() >= old(buf)@.len()
                && final(buf)@.subrange(0, old(buf)@.len() as int) == old(buf)@,
        },
{
    match value {
        BoundValue::Null(_) => {
            assert(old(buf)@ + Seq::<u8>::empty() =~= old(buf)@);
            Ok(IsNull::Yes)
        },
        BoundValue::Scalar(s) => {
            push_mysql_scalar(buf, s);
            Ok(IsNull::No)
        },
        BoundValue::Vector { .. } => {
            assert(buf@.subrange(0, buf@.len() as int) =~= buf@);
            Err(Error::Encode("a sequence cannot be bound as one MySQL value".to_owned()))
        },
    }
}

/// The declared type recorded for a bound value, computed.
pub fn mysql_type_of_value(v: &BoundValue) -> (r: MySqlTypeInfo)
    ensures
        r == mysql_value_type(v@),
{
    match v {
        BoundValue::Null(t) => mysql_type_of(t),
        BoundValue::Scalar(s) => mysql_type_of(&crate::value::type_of_scalar(s)),
        BoundValue::Vector { .. } => MySqlTypeInfo { column_type: ColumnType::Blob, flags: BINARY_FLAG },
    }
}

/// The mathematical form of a `MySqlArgumentsPositional`.
pub struct MySqlPositionalModel {
    pub values: Seq<u8>,
    pub types: Seq<MySqlTypeInfo>,
    pub nulls: Seq<bool>,
}

/// A strictly positional argument list of the protocol with separate null
/// markers: parallel encoded bytes, declared types and null bitmap.
#[derive(Debug, Clone)]
pub struct MySqlArgumentsPositional {
    values: Vec<u8>,
    types: Vec<MySqlTypeInfo>,
    null_bitmap: NullBitMap,
}

impl View for MySqlArgumentsPositional {
    type V = MySqlPositionalModel;

    closed spec fn view(&self) -> MySqlPositionalModel {
        MySqlPositionalModel { values: self.values@, types: self.types@, nulls: self.null_bitmap.bits() }
    }
}

impl MySqlArgumentsPositional {
    pub closed spec fn wf(&self) -> bool {
        &&& self.null_bitmap.wf()
        &&& self.null_bitmap.bits().len() == self.types@.len()
    }

    /// An empty argument list.
    pub fn new() -> (r: MySqlArgumentsPositional)
        ensures
            r.wf(),
            r@.values.len() == 0,
            r@.types.len() == 0,
            r@.nulls.len() == 0,
    {
        MySqlArgumentsPositional { values: Vec::new(), types: Vec::new(), null_bitmap: NullBitMap::default() }
    }

    /// The encoded values.
    pub fn values(&self) -> (r: &[u8])
        ensures
            r@ == self@.values,
    {
        self.values.as_slice()
    }

    /// The declared types.
    pub fn types(&self) -> (r: &[MySqlTypeInfo])
        ensures
            r@ == self@.types,
    {
        self.types.as_slice()
    }

    /// The packed null bitmap.
    pub fn null_bitmap(&self) -> (r: &[u8])
        requires
            self.wf(),
        ensures
            r@.len() == (self@.nulls.len() + 7) / 8,
            forall|i: int| 0 <= i < self@.nulls.len() ==> bit_of(r@[i / 8], i % 8) == self@.nulls[i],
            forall|i: int| self@.nulls.len() <= i < r@.len() * 8 ==> !bit_of(#[trigger] r@[i / 8], i % 8),
    {
        self.null_bitmap.as_bytes()
    }

    /// A sizing hint; it changes nothing observable.
    pub fn reserve(&mut self, len: usize, size: usize)
        ensures
            final(self)@ == old(self)@,
    {
        self.types.reserve(len);
        self.values.reserve(size);
    }

    /// The number of values added.
    pub fn len(&self) -> (r: usize)
        ensures
            r == self@.types.len(),
    {
        self.types.len()
    }

    /// Appends a value: its bytes, its declared type and its null bit. If its
    /// encoding fails, the list is left exactly as it was.
    pub fn add(&mut self, value: &BoundValue) -> (r: Result<(), Error>)
        requires
            old(self).wf(),
            old(self)@.types.len() < usize::MAX,
        ensures
            final(self).wf(),
            match mysql_encoded(value@) {
                Some((b, n)) => r is Ok && final(self)@ == (MySqlPositionalModel {
                    values: old(self)@.values + b,
                    types: old(self)@.types.push(mysql_value_type(value@)),
                    nulls: old(self)@.nulls.push(n),
                }),
                None => r is Err && r->Err_0 is Encode && final(self)@ == old(self)@,
            },
    {
        let ty = mysql_type_of_value(value);
        let value_length_before_encoding = self.values.len();
        let is_null = match encode_mysql(value, &mut self.values) {
            Ok(is_null) => is_null,
            Err(error) => {
                self.values.truncate(value_length_before_encoding);
                assert(self.values@ =~= old(self).values@);
                return Err(error);
            },
        };
        self.types.push(ty);
        self.null_bitmap.push(is_null);
        Ok(())
    }
}

impl Default for MySqlArgumentsPositional {
    fn default() -> (r: MySqlArgumentsPositional)
        ensures
            r.wf(),
            r@.values.len() == 0,
            r@.types.len() == 0,
            r@.nulls.len() == 0,
    {
        MySqlArgumentsPositional::new()
    }
}

/// An empty positional list.
pub open spec fn empty_positional() -> MySqlPositionalModel {
    MySqlPositionalModel { values: Seq::empty(), types: Seq::empty(), nulls: Seq::empty() }
}

/// `m` after appending `v`, or `None` when `v` does not encode.
pub open spec fn mysql_added(m: MySqlPositionalModel, v: ValueModel) -> Option<MySqlPositionalModel> {
    match mysql_encoded(v) {
        None => None,
        Some((b, n)) => Some(
            MySqlPositionalModel {
                values: m.values + b,
                types: m.types.push(mysql_value_type(v)),
                nulls: m.nulls.push(n),
            },
        ),
    }
}

/// A fresh positional list after appending each of `vals` in order, or
/// `None` when one of them does not encode.
pub open spec fn mysql_fold(vals: Seq<ValueModel>) -> Option<MySqlPositionalModel>
    decreases vals.len(),
{
    if vals.len() == 0 {
        Some(empty_positional())
    } else {
        match mysql_fold(vals.drop_last()) {
            None => None,
            Some(m) => mysql_added(m, vals.last()),
        }
    }
}

proof fn lemma_mysql_fold_step(vals: Seq<ValueModel>, k: int)
    requires
        0 <= k < vals.len(),
    ensures
        mysql_fold(vals.subrange(0, k + 1)) == (match mysql_fold(vals.subrange(0, k)) {
            None => None,
            Some(m) => mysql_added(m, vals[k]),
        }),
{
    assert(vals.subrange(0, k + 1).drop_last() =~= vals.subrange(0, k));
}

proof fn lemma_mysql_fold_none(vals: Seq<ValueModel>, k: int)
    requires
        0 <= k <= vals.len(),
        mysql_fold(vals.subrange(0, k)) is None,
    ensures
        mysql_fold(vals) is None,
    decreases vals.len() - k,
{
    if k < vals.len() {
        lemma_mysql_fold_step(vals, k);
        lemma_mysql_fold_none(vals, k + 1);
    } else {
        assert(vals.subrange(0, k) =~= vals);
    }
}

impl MySqlArgumentsPositional {
    /// A fresh list holding `vals` in order, or the first encode failure.
    pub fn from_values(vals: &[BoundValue]) -> (r: Result<MySqlArgumentsPositional, Error>)
        ensures
            match mysql_fold(vals@.map_values(|v: BoundValue| v@)) {
                Some(m) => r is Ok && r->Ok_0@ == m && r->Ok_0.wf(),
                None => r is Err && r->Err_0 is Encode,
            },
    {
        let ghost vm = vals@.map_values(|v: BoundValue| v@);
        let mut out = MySqlArgumentsPositional::new();
        let mut k: usize = 0;
        proof {
            assert(vm.subrange(0, 0) =~= Seq::<ValueModel>::empty());
            assert(out@.values =~= Seq::<u8>::empty());
            assert(out@.types =~= Seq::<MySqlTypeInfo>::empty());
            assert(out@.nulls =~= Seq::<bool>::empty());
        }
        while k < vals.len()
            invariant
                k <= vals@.len(),
                vm == vals@.map_values(|v: BoundValue| v@),
                out.wf(),
                out@.types.len() == k,
                mysql_fold(vm.subrange(0, k as int)) == Some(out@),
            decreases vals@.len() - k,
        {
            proof {
                lemma_mysql_fold_step(vm, k as int);
            }
            match out.add(&vals[k]) {
                Err(e) => {
                    proof {
                        lemma_mysql_fold_none(vm, k + 1);
                    }
                    return Err(e);
                },
                Ok(()) => {},
            }
            k = k + 1;
        }
        assert(vm.subrange(0, vm.len() as int) =~= vm);
        Ok(out)
    }
}

} // verus!
