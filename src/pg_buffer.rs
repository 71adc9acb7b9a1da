use vstd::prelude::*;

use crate::bytes::{be_bytes, be_i32, lemma_be_bytes_len, push_be, write_be_u32_at, I32_MAX};
use crate::error::Error;
use crate::bytes::push_all;
use crate::pg_types::{
    pg_array_type_model, pg_supports, pg_supports_type, pg_type_model, spec_oid, PgArrayOf,
    PgTypeInfo, PgTypeModel,
};
use crate::value::{
    scalar_type_of, scalars_model, type_of_scalar, types_match, BoundValue, Scalar, ScalarModel,
    ScalarType, TypeModel, ValueModel,
};
use vstd::utf8::encode_utf8;

verus! {

/// What a deferred fix-up writes once the parameter types are known.
#[derive(Debug, Clone, Copy, PartialEq, Eq)]
pub enum PatchKind {
    /// The server identifier of the owning parameter's type, 4 bytes in network order.
    ParameterOid,
}

/// A fix-up of the bytes at `buf_offset`, applied once the type of parameter
/// `arg_index` is known.
#[derive(Debug, Clone, Copy, PartialEq, Eq)]
pub struct Patch {
    pub buf_offset: usize,
    pub arg_index: usize,
    pub kind: PatchKind,
}

/// What a type hole is filled with: the identifier of a named type, or of the
/// array type of a named element type.
#[derive(Debug, Clone, PartialEq, Eq)]
pub enum HoleKind {
    Type { name: String },
    Array(PgArrayOf),
}

/// A 4-byte slot at `offset` that a server type identifier fills later.
#[derive(Debug, Clone, PartialEq, Eq)]
pub struct TypeHole {
    pub offset: usize,
    pub kind: HoleKind,
}

/// The mathematical form of a `HoleKind`.
pub enum HoleKindModel {
    Type(Seq<char>),
    Array(Seq<char>),
}

/// The mathematical form of a `TypeHole`.
pub struct HoleModel {
    pub offset: nat,
    pub kind: HoleKindModel,
}

impl View for HoleKind {
    type V = HoleKindModel;

    open spec fn view(&self) -> HoleKindModel {
        match self {
            HoleKind::Type { name } => HoleKindModel::Type(name@),
            HoleKind::Array(a) => HoleKindModel::Array(a.elem_name@),
        }
    }
}

impl View for TypeHole {
    type V = HoleModel;

    open spec fn view(&self) -> HoleModel {
        HoleModel { offset: self.offset as nat, kind: self.kind@ }
    }
}

/// The mathematical form of a `PgArgumentBuffer`.
pub struct PgBufferModel {
    pub bytes: Seq<u8>,
    pub count: nat,
    pub patches: Seq<Patch>,
    pub holes: Seq<HoleModel>,
}

/// `a` is `b` with only appends: every sequence of `b` is a prefix of `a`'s.
pub open spec fn extends(a: PgBufferModel, b: PgBufferModel) -> bool {
    &&& appended_to(a, b)
    &&& a.count == b.count
}

/// `a` is `b` with bytes, patches and type holes appended; the value count
/// may have changed.
pub open spec fn appended_to(a: PgBufferModel, b: PgBufferModel) -> bool {
    &&& b.bytes.len() <= a.bytes.len()
    &&& a.bytes.subrange(0, b.bytes.len() as int) == b.bytes
    &&& b.patches.len() <= a.patches.len()
    &&& a.patches.subrange(0, b.patches.len() as int) == b.patches
    &&& b.holes.len() <= a.holes.len()
    &&& a.holes.subrange(0, b.holes.len() as int) == b.holes
}

/// Type holes lie inside the bytes, in increasing order, without overlap.
pub open spec fn holes_wf(bytes_len: nat, holes: Seq<HoleModel>) -> bool {
    &&& forall|i: int| 0 <= i < holes.len() ==> #[trigger] holes[i].offset + 4 <= bytes_len
    &&& forall|i: int, j: int|
        0 <= i < j < holes.len() ==> #[trigger] holes[i].offset + 4 <= #[trigger] holes[j].offset
}

/// The binary parameter block of the protocol with server-typed parameters.
///
/// Each value is a 4-byte network-order signed length (-1 for NULL) followed
/// by that many bytes. Patches and type holes are resolved before sending.
#[derive(Debug, Clone)]
pub struct PgArgumentBuffer {
    buffer: Vec<u8>,
    count: usize,
    patches: Vec<Patch>,
    type_holes: Vec<TypeHole>,
}

/// The sizes of a buffer at one moment, to roll back to.
pub struct PgArgumentBufferSnapshot {
    buffer_length: usize,
    count: usize,
    patches_length: usize,
    type_holes_length: usize,
    state: Ghost<PgBufferModel>,
}

impl PgArgumentBufferSnapshot {
    /// The buffer's state when the snapshot was taken.
    pub closed spec fn state(&self) -> PgBufferModel {
        self.state@
    }

    pub closed spec fn wf(&self) -> bool {
        &&& self.buffer_length == self.state@.bytes.len()
        &&& self.count == self.state@.count
        &&& self.patches_length == self.state@.patches.len()
        &&& self.type_holes_length == self.state@.holes.len()
        &&& holes_wf(self.state@.bytes.len(), self.state@.holes)
    }
}

impl View for PgArgumentBuffer {
    type V = PgBufferModel;

    closed spec fn view(&self) -> PgBufferModel {
        PgBufferModel {
            bytes: self.buffer@,
            count: self.count as nat,
            patches: self.patches@,
            holes: self.type_holes@.map_values(|h: TypeHole| h@),
        }
    }
}

impl PgArgumentBuffer {
    pub open spec fn wf(&self) -> bool {
        holes_wf(self@.bytes.len(), self@.holes)
    }

    /// An empty buffer.
    pub fn new() -> (r: PgArgumentBuffer)
        ensures
            r.wf(),
            r@.bytes.len() == 0,
            r@.count == 0,
            r@.patches.len() == 0,
            r@.holes.len() == 0,
    {
        let r = PgArgumentBuffer {
            buffer: Vec::new(),
            count: 0,
            patches: Vec::new(),
            type_holes: Vec::new(),
        };
        assert(r@.holes =~= Seq::<HoleModel>::empty());
        r
    }

    /// The encoded bytes.
    pub fn as_bytes(&self) -> (r: &[u8])
        ensures
            r@ == self@.bytes,
    {
        self.buffer.as_slice()
    }

    /// The byte length.
    pub fn len(&self) -> (r: usize)
        ensures
            r == self@.bytes.len(),
    {
        self.buffer.len()
    }

    /// The number of values counted into this buffer.
    pub fn count(&self) -> (r: usize)
        ensures
            r == self@.count,
    {
        self.count
    }

    /// The pending type holes.
    pub fn holes(&self) -> (r: &[TypeHole])
        ensures
            r@.map_values(|h: TypeHole| h@) == self@.holes,
    {
        self.type_holes.as_slice()
    }

    /// The pending patches.
    pub fn patches(&self) -> (r: &[Patch])
        ensures
            r@ == self@.patches,
    {
        self.patches.as_slice()
    }

    /// Whether no patch and no type hole is pending.
    pub fn is_resolved(&self) -> (r: bool)
        ensures
            r == (self@.patches.len() == 0 && self@.holes.len() == 0),
    {
        self.patches.len() == 0 && self.type_holes.len() == 0
    }

    /// A sizing hint; it changes nothing observable.
    pub fn reserve(&mut self, additional: usize)
        ensures
            final(self)@ == old(self)@,
    {
        self.buffer.reserve(additional);
    }

    /// Appends `n` zero bytes.
    fn push_zeros(&mut self, n: usize)
        ensures
            final(self)@ == (PgBufferModel {
                bytes: old(self)@.bytes + Seq::new(n as nat, |i: int| 0u8),
                ..old(self)@
            }),
    {
        let mut i: usize = 0;
        while i < n
            invariant
                i <= n,
                self@ == (PgBufferModel {
                    bytes: old(self)@.bytes + Seq::new(i as nat, |k: int| 0u8),
                    ..old(self)@
                }),
            decreases n - i,
        {
            self.buffer.push(0u8);
            i = i + 1;
            assert(self@.bytes =~= old(self)@.bytes + Seq::new(i as nat, |k: int| 0u8));
        }
    }

    /// Appends bytes through the underlying byte vector.
    fn push_raw_be(&mut self, v: u128, n: usize)
        ensures
            final(self)@ == (PgBufferModel {
                bytes: old(self)@.bytes + be_bytes(v, n as nat),
                ..old(self)@
            }),
    {
        push_be(&mut self.buffer, v, n);
    }

    /// Records the state to roll back to.
    pub fn snapshot(&self) -> (r: PgArgumentBufferSnapshot)
        requires
            self.wf(),
        ensures
            r.wf(),
            r.state() == self@,
    {
        PgArgumentBufferSnapshot {
            buffer_length: self.buffer.len(),
            count: self.count,
            patches_length: self.patches.len(),
            type_holes_length: self.type_holes.len(),
            state: Ghost(self@),
        }
    }

    /// Restores bytes, value count, patches and type holes to the state recorded
    /// in `snapshot`; since then the buffer has only been appended to.
    pub fn reset_to_snapshot(&mut self, snapshot: PgArgumentBufferSnapshot)
        requires
            snapshot.wf(),
            appended_to(old(self)@, snapshot.state()),
        ensures
            final(self)@ == snapshot.state(),
            final(self).wf(),
    {
        self.buffer.truncate(snapshot.buffer_length);
        self.count = snapshot.count;
        self.patches.truncate(snapshot.patches_length);
        self.type_holes.truncate(snapshot.type_holes_length);
        assert(self@.bytes =~= snapshot.state().bytes);
        assert(self@.patches =~= snapshot.state().patches);
        assert(self@.holes =~= snapshot.state().holes);
    }

    /// Registers a fix-up at the current offset, owned by the value being encoded.
    pub fn patch(&mut self, kind: PatchKind)
        ensures
            final(self)@ == (PgBufferModel {
                patches: old(self)@.patches.push(
                    Patch { buf_offset: old(self)@.bytes.len() as usize, arg_index: old(self)@.count as usize, kind },
                ),
                ..old(self)@
            }),
    {
        let offset = self.buffer.len();
        let arg_index = self.count;
        self.patches.push(Patch { buf_offset: offset, arg_index, kind });
    }

    /// Reserves a zeroed 4-byte slot for the identifier of the type named `name`.
    pub fn patch_type_by_name(&mut self, name: &String)
        requires
            old(self).wf(),
        ensures
            final(self).wf(),
            final(self)@ == (PgBufferModel {
                bytes: old(self)@.bytes + Seq::new(4, |i: int| 0u8),
                holes: old(self)@.holes.push(
                    HoleModel { offset: old(self)@.bytes.len(), kind: HoleKindModel::Type(name@) },
                ),
                ..old(self)@
            }),
    {
        let hole = TypeHole { offset: self.buffer.len(), kind: HoleKind::Type { name: name.clone() } };
        self.push_hole(hole);
    }

    /// Reserves a zeroed 4-byte slot for the identifier of the array type of `array`.
    pub fn patch_array_type(&mut self, array: PgArrayOf)
        requires
            old(self).wf(),
        ensures
            final(self).wf(),
            final(self)@ == (PgBufferModel {
                bytes: old(self)@.bytes + Seq::new(4, |i: int| 0u8),
                holes: old(self)@.holes.push(
                    HoleModel { offset: old(self)@.bytes.len(), kind: HoleKindModel::Array(array.elem_name@) },
                ),
                ..old(self)@
            }),
    {
        let hole = TypeHole { offset: self.buffer.len(), kind: HoleKind::Array(array) };
        self.push_hole(hole);
    }

    fn push_hole(&mut self, hole: TypeHole)
        requires
            old(self).wf(),
            hole.offset == old(self)@.bytes.len(),
        ensures
            final(self).wf(),
            final(self)@ == (PgBufferModel {
                bytes: old(self)@.bytes + Seq::new(4, |i: int| 0u8),
                holes: old(self)@.holes.push(hole@),
                ..old(self)@
            }),
    {
        self.push_zeros(4);
        self.type_holes.push(hole);
        assert(self@.holes =~= old(self)@.holes.push(hole@));
        assert(self@.bytes.len() == old(self)@.bytes.len() + 4);
    }
}

/// Why a value failed to encode.
pub enum PgFail {
    /// The type has no representation in this protocol.
    Unsupported,
    /// A sequence element whose type is not the sequence's element type.
    Mismatch,
    /// A length beyond the 32-bit signed wire length.
    Overflow,
}

/// `e` is the error that the library reports for failure `f`.
pub open spec fn fail_matches(e: Error, f: PgFail) -> bool {
    match f {
        PgFail::Overflow => e is Overflow,
        _ => e is Encode,
    }
}

/// The binary representation of a scalar, if the protocol has one.
pub open spec fn pg_scalar_bytes(s: ScalarModel) -> Option<Seq<u8>> {
    match s {
        ScalarModel::Bool(b) => Some(seq![if b { 1u8 } else { 0u8 }]),
        ScalarModel::I8(x) => Some(seq![x as u8]),
        ScalarModel::I16(x) => Some(be_bytes(x as u16 as u128, 2)),
        ScalarModel::I32(x) => Some(be_bytes(x as u32 as u128, 4)),
        ScalarModel::I64(x) => Some(be_bytes(x as u64 as u128, 8)),
        ScalarModel::Real(b) => Some(be_bytes(b as u128, 4)),
        ScalarModel::Double(b) => Some(be_bytes(b as u128, 8)),
        ScalarModel::Text(t) => Some(encode_utf8(t)),
        ScalarModel::Blob(b) => Some(b),
        ScalarModel::Uuid(u) => Some(be_bytes(u, 16)),
        ScalarModel::Custom { bytes, .. } => Some(bytes),
        _ => None,
    }
}

/// A scalar with its length prefix.
pub open spec fn pg_prefixed(s: ScalarModel) -> Result<Seq<u8>, PgFail> {
    match pg_scalar_bytes(s) {
        None => Err(PgFail::Unsupported),
        Some(b) => if b.len() > I32_MAX {
            Err(PgFail::Overflow)
        } else {
            Ok(be_i32(b.len() as i32) + b)
        },
    }
}

/// The elements of an array, each with its length prefix; the first failing
/// element decides the failure.
pub open spec fn pg_elements(elem: TypeModel, items: Seq<ScalarModel>) -> Result<Seq<u8>, PgFail>
    decreases items.len(),
{
    if items.len() == 0 {
        Ok(Seq::empty())
    } else {
        match pg_elements(elem, items.drop_last()) {
            Err(e) => Err(e),
            Ok(prev) => if scalar_type_of(items.last()) != elem {
                Err(PgFail::Mismatch)
            } else {
                match pg_prefixed(items.last()) {
                    Err(e) => Err(e),
                    Ok(b) => Ok(prev + b),
                }
            },
        }
    }
}

/// The element type slot of an array header: the identifier, or a zeroed hole.
pub open spec fn pg_oid_slot(elem: TypeModel) -> Seq<u8> {
    match spec_oid(pg_type_model(elem)) {
        Some(o) => be_bytes(o as u128, 4),
        None => Seq::new(4, |i: int| 0u8),
    }
}

/// The header of a one-dimensional array of `n` elements.
pub open spec fn pg_array_header(elem: TypeModel, n: nat) -> Seq<u8> {
    be_i32(1) + be_i32(0) + pg_oid_slot(elem) + be_i32(n as i32) + be_i32(1)
}

/// The array payload, when its elements encode.
pub open spec fn pg_array_payload(elem: TypeModel, items: Seq<ScalarModel>) -> Result<Seq<u8>, PgFail> {
    if !pg_supports(elem) {
        Err(PgFail::Unsupported)
    } else if items.len() > I32_MAX {
        Err(PgFail::Overflow)
    } else {
        match pg_elements(elem, items) {
            Err(e) => Err(e),
            Ok(body) => {
                let payload = pg_array_header(elem, items.len()) + body;
                if payload.len() > I32_MAX {
                    Err(PgFail::Overflow)
                } else {
                    Ok(payload)
                }
            },
        }
    }
}

/// The buffer after appending value `v`, or why `v` fails to encode.
pub open spec fn pg_encoded(m: PgBufferModel, v: ValueModel) -> Result<PgBufferModel, PgFail> {
    match v {
        ValueModel::Null(_) => Ok(PgBufferModel { bytes: m.bytes + be_i32(-1i32), ..m }),
        ValueModel::Scalar(s) => match pg_prefixed(s) {
            Err(e) => Err(e),
            Ok(b) => Ok(PgBufferModel { bytes: m.bytes + b, ..m }),
        },
        ValueModel::Vector { elem, items } => match pg_array_payload(elem, items) {
            Err(e) => Err(e),
            Ok(payload) => Ok(
                PgBufferModel {
                    bytes: m.bytes + be_i32(payload.len() as i32) + payload,
                    holes: match elem {
                        TypeModel::Custom(n) => m.holes.push(
                            HoleModel { offset: m.bytes.len() + 12, kind: HoleKindModel::Type(n) },
                        ),
                        _ => m.holes,
                    },
                    ..m
                },
            ),
        },
    }
}

/// The PostgreSQL type recorded for a bound value.
pub open spec fn pg_value_type(v: ValueModel) -> PgTypeModel {
    match v {
        ValueModel::Null(t) => pg_type_model(t),
        ValueModel::Scalar(s) => pg_type_model(scalar_type_of(s)),
        ValueModel::Vector { elem, .. } => pg_array_type_model(elem),
    }
}

proof fn lemma_extends_refl(m: PgBufferModel)
    ensures
        extends(m, m),
{
    assert(m.bytes.subrange(0, m.bytes.len() as int) =~= m.bytes);
    assert(m.patches.subrange(0, m.patches.len() as int) =~= m.patches);
    assert(m.holes.subrange(0, m.holes.len() as int) =~= m.holes);
}

proof fn lemma_extends_append(m: PgBufferModel, x: Seq<u8>)
    ensures
        extends(PgBufferModel { bytes: m.bytes + x, ..m }, m),
{
    lemma_extends_refl(m);
    assert((m.bytes + x).subrange(0, m.bytes.len() as int) =~= m.bytes);
}

proof fn lemma_extends_trans(a: PgBufferModel, b: PgBufferModel, c: PgBufferModel)
    requires
        extends(a, b),
        extends(b, c),
    ensures
        extends(a, c),
{
    assert(a.bytes.subrange(0, c.bytes.len() as int) =~= b.bytes.subrange(0, c.bytes.len() as int));
    assert(a.patches.subrange(0, c.patches.len() as int) =~= b.patches.subrange(0, c.patches.len() as int));
    assert(a.holes.subrange(0, c.holes.len() as int) =~= b.holes.subrange(0, c.holes.len() as int));
}

proof fn lemma_elements_step(elem: TypeModel, items: Seq<ScalarModel>, j: int)
    requires
        0 <= j < items.len(),
    ensures
        pg_elements(elem, items.subrange(0, j + 1)) == (match pg_elements(elem, items.subrange(0, j)) {
            Err(e) => Err(e),
            Ok(prev) => if scalar_type_of(items[j]) != elem {
                Err(PgFail::Mismatch)
            } else {
                match pg_prefixed(items[j]) {
                    Err(e) => Err(e),
                    Ok(b) => Ok(prev + b),
                }
            },
        }),
{
    assert(items.subrange(0, j + 1).drop_last() =~= items.subrange(0, j));
}

proof fn lemma_elements_prefix_err(elem: TypeModel, items: Seq<ScalarModel>, k: int)
    requires
        0 <= k <= items.len(),
        pg_elements(elem, items.subrange(0, k)) is Err,
    ensures
        pg_elements(elem, items) == pg_elements(elem, items.subrange(0, k)),
    decreases items.len() - k,
{
    if k < items.len() {
        lemma_elements_step(elem, items, k);
        lemma_elements_prefix_err(elem, items, k + 1);
    } else {
        assert(items.subrange(0, k) =~= items);
    }
}

/// Checks that an encoded length fits the 32-bit signed wire length.
pub fn value_size_int4_checked(size: usize) -> (r: Result<i32, Error>)
    ensures
        size <= I32_MAX ==> r == Ok::<i32, Error>(size as i32),
        size > I32_MAX ==> r == Err::<i32, Error>(Error::Overflow(size)),
{
    if size <= I32_MAX {
        Ok(size as i32)
    } else {
        Err(Error::Overflow(size))
    }
}

/// A lower bound of a scalar's encoded length, known before encoding.
fn scalar_size_hint(s: &Scalar) -> (r: usize)
    ensures
        pg_scalar_bytes(s@) is Some ==> r <= pg_scalar_bytes(s@)->0.len(),
        pg_scalar_bytes(s@) is None ==> r == 0,
{
    match s {
        Scalar::Blob(b) => b.len(),
        Scalar::Custom { bytes, .. } => bytes.len(),
        _ => 0,
    }
}

impl PgArgumentBuffer {
    /// Appends the binary representation of a scalar, without length prefix.
    fn write_scalar(&mut self, s: &Scalar) -> (r: Result<(), Error>)
        ensures
            match pg_scalar_bytes(s@) {
                Some(b) => r is Ok && final(self)@ == (PgBufferModel { bytes: old(self)@.bytes + b, ..old(self)@ }),
                None => r is Err && r->Err_0 is Encode && final(self)@ == old(self)@,
            },
    {
        match s {
            Scalar::Bool(b) => {
                let v: u128 = if *b { 1 } else { 0 };
                self.push_raw_be(v, 1);
                assert(be_bytes(v / 256, 0) =~= Seq::<u8>::empty());
                assert(be_bytes(v, 1) =~= seq![if *b { 1u8 } else { 0u8 }]);
            },
            Scalar::I8(x) => {
                let v: u128 = *x as u8 as u128;
                self.push_raw_be(v, 1);
                assert(be_bytes(v / 256, 0) =~= Seq::<u8>::empty());
                assert(v % 256 == v);
                assert(be_bytes(v, 1) =~= seq![*x as u8]);
            },
            Scalar::I16(x) => self.push_raw_be(*x as u16 as u128, 2),
            Scalar::I32(x) => self.push_raw_be(*x as u32 as u128, 4),
            Scalar::I64(x) => self.push_raw_be(*x as u64 as u128, 8),
            Scalar::Real(x) => self.push_raw_be(*x as u128, 4),
            Scalar::Double(x) => self.push_raw_be(*x as u128, 8),
            Scalar::Uuid(x) => self.push_raw_be(*x, 16),
            Scalar::Text(t) => {
                let b = t.as_str().as_bytes();
                push_all(&mut self.buffer, b);
            },
            Scalar::Blob(b) => push_all(&mut self.buffer, b.as_slice()),
            Scalar::Custom { bytes, .. } => push_all(&mut self.buffer, bytes.as_slice()),
            _ => {
                return Err(Error::Encode("PostgreSQL has no unsigned integer types".to_owned()));
            },
        }
        Ok(())
    }

    /// Overwrites the 4-byte slot at `offset` with the length of what follows it.
    fn finish_length(&mut self, offset: usize, Ghost(payload): Ghost<Seq<u8>>) -> (r: Result<(), Error>)
        requires
            old(self).wf(),
            offset + 4 <= old(self)@.bytes.len(),
            old(self)@.bytes.subrange(offset + 4, old(self)@.bytes.len() as int) == payload,
            forall|i: int| 0 <= i < old(self)@.holes.len() ==> (#[trigger] old(self)@.holes[i]).offset + 4
                <= offset || old(self)@.holes[i].offset >= offset + 4,
        ensures
            payload.len() <= I32_MAX ==> r is Ok && final(self)@ == (PgBufferModel {
                bytes: old(self)@.bytes.subrange(0, offset as int) + be_i32(payload.len() as i32)
                    + payload,
                ..old(self)@
            }),
            payload.len() > I32_MAX ==> r is Err && r->Err_0 is Overflow && final(self)@ == old(self)@,
            final(self).wf(),
    {
        let n = self.buffer.len() - offset - 4;
        let len = value_size_int4_checked(n)?;
        write_be_u32_at(&mut self.buffer, offset, len as u32);
        assert(self@.bytes =~= old(self)@.bytes.subrange(0, offset as int) + be_i32(payload.len() as i32)
            + payload);
        proof {
            lemma_be_bytes_len(len as u32 as u128, 4);
        }
        Ok(())
    }

    /// Appends a scalar with its length prefix.
    fn encode_scalar(&mut self, s: &Scalar) -> (r: Result<(), Error>)
        requires
            old(self).wf(),
        ensures
            final(self).wf(),
            match pg_prefixed(s@) {
                Ok(b) => r is Ok && final(self)@ == (PgBufferModel { bytes: old(self)@.bytes + b, ..old(self)@ }),
                Err(f) => r is Err && fail_matches(r->Err_0, f) && extends(final(self)@, old(self)@),
            },
    {
        let hint = scalar_size_hint(s);
        if hint > I32_MAX {
            proof {
                lemma_extends_refl(old(self)@);
            }
            return Err(Error::Overflow(hint));
        }
        let offset = self.buffer.len();
        self.push_zeros(4);
        let ghost mid = self@;
        proof {
            lemma_extends_append(old(self)@, Seq::new(4, |i: int| 0u8));
        }
        match self.write_scalar(s) {
            Err(e) => {
                return Err(e);
            },
            Ok(()) => {},
        }
        proof {
            let b = pg_scalar_bytes(s@)->0;
            assert(self@.bytes.subrange(offset + 4, self@.bytes.len() as int) =~= b);
            assert(mid.bytes.subrange(0, offset as int) =~= old(self)@.bytes);
            assert(self@.bytes.subrange(0, offset as int) =~= old(self)@.bytes);
        }
        let r = self.finish_length(offset, Ghost(pg_scalar_bytes(s@)->0));
        proof {
            if r is Ok {
                let b = pg_scalar_bytes(s@)->0;
                assert(self@.bytes =~= old(self)@.bytes + (be_i32(b.len() as i32) + b));
            }
        }
        r
    }

    /// Appends a value: its length prefix, then its bytes; `NULL` is a length
    /// of -1. A value that fails to encode leaves the buffer exactly as it was.
    pub fn encode_ref(&mut self, value: &BoundValue) -> (r: Result<(), Error>)
        requires
            old(self).wf(),
        ensures
            final(self).wf(),
            match pg_encoded(old(self)@, value@) {
                Ok(m) => r is Ok && final(self)@ == m,
                Err(f) => r is Err && fail_matches(r->Err_0, f) && final(self)@ == old(self)@,
            },
    {
        let snapshot = self.snapshot();
        let r = self.encode_partial(value);
        if r.is_err() {
            self.reset_to_snapshot(snapshot);
        }
        r
    }

    /// Appends a value; on failure a partial value may remain.
    fn encode_partial(&mut self, value: &BoundValue) -> (r: Result<(), Error>)
        requires
            old(self).wf(),
        ensures
            final(self).wf(),
            match pg_encoded(old(self)@, value@) {
                Ok(m) => r is Ok && final(self)@ == m,
                Err(f) => r is Err && fail_matches(r->Err_0, f) && extends(final(self)@, old(self)@),
            },
    {
        match value {
            BoundValue::Null(_) => {
                self.push_raw_be((-1i32) as u32 as u128, 4);
                Ok(())
            },
            BoundValue::Scalar(s) => {
                let r = self.encode_scalar(s);
                r
            },
            BoundValue::Vector { elem, items } => self.encode_array(elem, items),
        }
    }

    /// Appends a value given by value; see `encode_ref`.
    pub fn encode(&mut self, value: BoundValue) -> (r: Result<(), Error>)
        requires
            old(self).wf(),
        ensures
            final(self).wf(),
            match pg_encoded(old(self)@, value@) {
                Ok(m) => r is Ok && final(self)@ == m,
                Err(f) => r is Err && fail_matches(r->Err_0, f) && final(self)@ == old(self)@,
            },
    {
        self.encode_ref(&value)
    }

    fn encode_array(&mut self, elem: &ScalarType, items: &Vec<Scalar>) -> (r: Result<(), Error>)
        requires
            old(self).wf(),
        ensures
            final(self).wf(),
            match pg_encoded(old(self)@, ValueModel::Vector { elem: elem@, items: scalars_model(items@) }) {
                Ok(m) => r is Ok && final(self)@ == m,
                Err(f) => r is Err && fail_matches(r->Err_0, f) && extends(final(self)@, old(self)@),
            },
    {
        let ghost ms = scalars_model(items@);
        proof {
            lemma_extends_refl(old(self)@);
        }
        if !pg_supports_type(elem) {
            return Err(Error::Encode("PostgreSQL has no unsigned integer types".to_owned()));
        }
        if items.len() > I32_MAX {
            return Err(Error::Overflow(items.len()));
        }
        let offset = self.buffer.len();
        self.push_zeros(4);
        self.push_raw_be(1, 4);
        self.push_raw_be(0, 4);
        let ty = PgTypeInfo::of_scalar(elem);
        match ty.oid() {
            Some(o) => {
                proof {
                    lemma_be_bytes_len(o as u128, 4);
                }
                self.push_raw_be(o as u128, 4)
            },
            None => {
                match elem {
                    ScalarType::Custom(name) => self.patch_type_by_name(name),
                    _ => self.push_zeros(4),
                }
            },
        }
        self.push_raw_be((items.len() as i32) as u32 as u128, 4);
        self.push_raw_be(1, 4);
        let ghost header_end = self@;
        proof {
            lemma_be_bytes_len(1, 4);
            lemma_be_bytes_len(0, 4);
            lemma_be_bytes_len((items.len() as i32) as u32 as u128, 4);
            lemma_be_bytes_len((-1i32) as u32 as u128, 4);
            assert(be_i32(1) == be_bytes(1, 4));
            assert(be_i32(0) == be_bytes(0, 4));
            assert(self@.bytes =~= old(self)@.bytes + Seq::new(4, |i: int| 0u8) + pg_array_header(
                elem@,
                ms.len(),
            ));
            assert(extends(header_end, old(self)@)) by {
                assert(header_end.bytes.subrange(0, old(self)@.bytes.len() as int) =~= old(self)@.bytes);
                assert(header_end.patches =~= old(self)@.patches);
                assert(header_end.holes.subrange(0, old(self)@.holes.len() as int) =~= old(self)@.holes);
            }
            assert(ms.subrange(0, 0) =~= Seq::<ScalarModel>::empty());
            assert(self@.bytes =~= header_end.bytes + pg_elements(elem@, ms.subrange(0, 0))->Ok_0);
        }
        let mut j: usize = 0;
        while j < items.len()
            invariant
                ms == scalars_model(items@),
                pg_supports(elem@),
                ms.len() <= I32_MAX,
                j <= items@.len(),
                offset == old(self)@.bytes.len(),
                header_end.bytes.len() == offset + 24,
                self.wf(),
                pg_elements(elem@, ms.subrange(0, j as int)) is Ok,
                self@ == (PgBufferModel {
                    bytes: header_end.bytes + pg_elements(elem@, ms.subrange(0, j as int))->Ok_0,
                    ..header_end
                }),
                extends(header_end, old(self)@),
                header_end.holes.len() <= old(self)@.holes.len() + 1,
                forall|i: int| 0 <= i < header_end.holes.len() ==> (#[trigger] header_end.holes[i]).offset + 4
                    <= offset || header_end.holes[i].offset >= offset + 4,
            decreases items@.len() - j,
        {
            proof {
                lemma_elements_step(elem@, ms, j as int);
            }
            let t = type_of_scalar(&items[j]);
            assert(ms[j as int] == items@[j as int]@);
            if !types_match(&t, elem) {
                proof {
                    lemma_elements_prefix_err(elem@, ms, j + 1);
                    lemma_extends_append(header_end, pg_elements(elem@, ms.subrange(0, j as int))->Ok_0);
                    lemma_extends_trans(self@, header_end, old(self)@);
                    assert(pg_elements(elem@, ms.subrange(0, j + 1)) is Err);
                    assert(pg_elements(elem@, ms) == Err::<Seq<u8>, PgFail>(PgFail::Mismatch));
                    assert(pg_array_payload(elem@, ms) == Err::<Seq<u8>, PgFail>(PgFail::Mismatch));
                }
                return Err(Error::Encode("a sequence element has another type than the sequence".to_owned()));
            }
            let ghost before = self@;
            let step = self.encode_scalar(&items[j]);
            match step {
                Err(e) => {
                    proof {
                        lemma_elements_prefix_err(elem@, ms, j + 1);
                        lemma_extends_append(header_end, pg_elements(elem@, ms.subrange(0, j as int))->Ok_0);
                        lemma_extends_trans(before, header_end, old(self)@);
                        lemma_extends_trans(self@, before, old(self)@);
                    }
                    return Err(e);
                },
                Ok(()) => {},
            }
            j = j + 1;
            proof {
                assert(self@.bytes =~= header_end.bytes + pg_elements(elem@, ms.subrange(0, j as int))->Ok_0);
            }
        }
        proof {
            assert(ms.subrange(0, ms.len() as int) =~= ms);
            let body = pg_elements(elem@, ms)->Ok_0;
            let payload = pg_array_header(elem@, ms.len()) + body;
            assert(self@.bytes.subrange(offset + 4, self@.bytes.len() as int) =~= payload);
            assert(self@.bytes.subrange(0, offset as int) =~= old(self)@.bytes);
        }
        let ghost before_len = self@;
        let r = self.finish_length(offset, Ghost(pg_array_header(elem@, ms.len()) + pg_elements(elem@, ms)->Ok_0));
        proof {
            let payload = pg_array_header(elem@, ms.len()) + pg_elements(elem@, ms)->Ok_0;
            if r is Ok {
                assert(self@.bytes =~= old(self)@.bytes + be_i32(payload.len() as i32) + payload);
                if elem@ is Custom {
                    assert(self@.holes =~= old(self)@.holes.push(HoleModel { offset: old(self)@.bytes.len() + 12, kind: HoleKindModel::Type(elem@->Custom_0) }));
                } else {
                    assert(self@.holes =~= old(self)@.holes);
                }
            } else {
                assert(self@.bytes.subrange(0, old(self)@.bytes.len() as int) =~= before_len.bytes.subrange(0, old(self)@.bytes.len() as int));
            }
        }
        r
    }
}

/// `bytes` with `bytes[at..at + 4]` replaced by the network-order bytes of `v`.
pub open spec fn write_at(bytes: Seq<u8>, at: nat, v: u32) -> Seq<u8> {
    bytes.subrange(0, at as int) + be_bytes(v as u128, 4) + bytes.subrange((at + 4) as int, bytes.len() as int)
}

/// `bytes` after the writes `w`, in order.
pub open spec fn apply_writes(bytes: Seq<u8>, w: Seq<(nat, u32)>) -> Seq<u8>
    decreases w.len(),
{
    if w.len() == 0 {
        bytes
    } else {
        write_at(apply_writes(bytes, w.drop_last()), w.last().0, w.last().1)
    }
}

/// The identifier that patch `p` writes: that of its parameter's type.
pub open spec fn patch_oid(p: Patch, params: Seq<PgTypeModel>) -> Option<u32> {
    if p.arg_index < params.len() {
        spec_oid(params[p.arg_index as int])
    } else {
        None
    }
}

/// Every patch lies inside the bytes and has a parameter type with a known identifier.
pub open spec fn patches_ok(m: PgBufferModel, params: Seq<PgTypeModel>) -> bool {
    forall|i: int|
        0 <= i < m.patches.len() ==> (#[trigger] m.patches[i]).buf_offset + 4 <= m.bytes.len()
            && patch_oid(m.patches[i], params) is Some
}

/// The writes of all patches, in registration order.
pub open spec fn patch_writes(m: PgBufferModel, params: Seq<PgTypeModel>) -> Seq<(nat, u32)> {
    Seq::new(
        m.patches.len(),
        |i: int| (m.patches[i].buf_offset as nat, patch_oid(m.patches[i], params)->0),
    )
}

/// The writes that fill every type hole with its looked-up identifier.
pub open spec fn hole_writes(m: PgBufferModel, oids: Seq<u32>) -> Seq<(nat, u32)> {
    Seq::new(m.holes.len(), |i: int| (m.holes[i].offset, oids[i]))
}

/// The bytes once patches, then type holes, are resolved.
pub open spec fn resolved_bytes(m: PgBufferModel, params: Seq<PgTypeModel>, oids: Seq<u32>) -> Seq<u8> {
    apply_writes(apply_writes(m.bytes, patch_writes(m, params)), hole_writes(m, oids))
}

proof fn lemma_writes_step(bytes: Seq<u8>, w: Seq<(nat, u32)>, k: int)
    requires
        0 <= k < w.len(),
    ensures
        apply_writes(bytes, w.subrange(0, k + 1)) == write_at(
            apply_writes(bytes, w.subrange(0, k)),
            w[k].0,
            w[k].1,
        ),
{
    assert(w.subrange(0, k + 1).drop_last() =~= w.subrange(0, k));
}

proof fn lemma_write_at_len(bytes: Seq<u8>, at: nat, v: u32)
    requires
        at + 4 <= bytes.len(),
    ensures
        write_at(bytes, at, v).len() == bytes.len(),
{
    lemma_be_bytes_len(v as u128, 4);
}

proof fn lemma_apply_len(bytes: Seq<u8>, w: Seq<(nat, u32)>)
    requires
        forall|i: int| 0 <= i < w.len() ==> (#[trigger] w[i]).0 + 4 <= bytes.len(),
    ensures
        apply_writes(bytes, w).len() == bytes.len(),
    decreases w.len(),
{
    if w.len() > 0 {
        lemma_apply_len(bytes, w.drop_last());
        lemma_write_at_len(apply_writes(bytes, w.drop_last()), w.last().0, w.last().1);
    }
}

proof fn lemma_holes_prefix(base: Seq<u8>, m: PgBufferModel, oids: Seq<u32>, k: int)
    requires
        holes_wf(base.len(), m.holes),
        oids.len() == m.holes.len(),
        0 <= k <= m.holes.len(),
    ensures
        apply_writes(base, hole_writes(m, oids).subrange(0, k)).len() == base.len(),
        forall|i: int|
            0 <= i < k ==> apply_writes(base, hole_writes(m, oids).subrange(0, k)).subrange(
                m.holes[i].offset as int,
                (m.holes[i].offset + 4) as int,
            ) == be_bytes(#[trigger] oids[i] as u128, 4),
    decreases k,
{
    let hw = hole_writes(m, oids);
    if k == 0 {
        assert(hw.subrange(0, 0) =~= Seq::<(nat, u32)>::empty());
    } else {
        let j = k - 1;
        lemma_holes_prefix(base, m, oids, j);
        let prev = apply_writes(base, hw.subrange(0, j));
        lemma_writes_step(base, hw, j);
        lemma_write_at_len(prev, hw[j].0, hw[j].1);
        lemma_be_bytes_len(oids[j] as u128, 4);
        let next = apply_writes(base, hw.subrange(0, k));
        assert forall|i: int| 0 <= i < k implies next.subrange(
            m.holes[i].offset as int,
            (m.holes[i].offset + 4) as int,
        ) == be_bytes(#[trigger] oids[i] as u128, 4) by {
            if i < j {
                assert(m.holes[i].offset + 4 <= m.holes[j].offset);
                assert(next.subrange(m.holes[i].offset as int, (m.holes[i].offset + 4) as int)
                    =~= prev.subrange(m.holes[i].offset as int, (m.holes[i].offset + 4) as int));
            } else {
                assert(next.subrange(m.holes[i].offset as int, (m.holes[i].offset + 4) as int)
                    =~= be_bytes(oids[i] as u128, 4));
            }
        }
    }
}

/// Once resolved, every type hole's slot holds the identifier looked up for
/// it, and the block keeps its length.
pub proof fn lemma_holes_filled(m: PgBufferModel, params: Seq<PgTypeModel>, oids: Seq<u32>)
    requires
        holes_wf(m.bytes.len(), m.holes),
        patches_ok(m, params),
        oids.len() == m.holes.len(),
    ensures
        resolved_bytes(m, params, oids).len() == m.bytes.len(),
        forall|i: int|
            0 <= i < m.holes.len() ==> resolved_bytes(m, params, oids).subrange(
                m.holes[i].offset as int,
                (m.holes[i].offset + 4) as int,
            ) == be_bytes(#[trigger] oids[i] as u128, 4),
{
    let pw = patch_writes(m, params);
    assert forall|i: int| 0 <= i < pw.len() implies (#[trigger] pw[i]).0 + 4 <= m.bytes.len() by {
        assert(m.patches[i].buf_offset + 4 <= m.bytes.len());
    }
    lemma_apply_len(m.bytes, pw);
    let base = apply_writes(m.bytes, pw);
    let hw = hole_writes(m, oids);
    lemma_holes_prefix(base, m, oids, m.holes.len() as int);
    assert(hw.subrange(0, m.holes.len() as int) =~= hw);
}

/// The mathematical form of a `PgArgumentsInner`.
pub struct PgInnerModel {
    pub types: Seq<PgTypeModel>,
    pub buffer: PgBufferModel,
}

/// A strictly positional argument list of the protocol with server-typed
/// parameters: the type of each parameter and the encoded parameter block.
#[derive(Debug, Clone)]
pub struct PgArgumentsInner {
    types: Vec<PgTypeInfo>,
    buffer: PgArgumentBuffer,
}

impl View for PgArgumentsInner {
    type V = PgInnerModel;

    closed spec fn view(&self) -> PgInnerModel {
        PgInnerModel { types: self.types@.map_values(|t: PgTypeInfo| t@), buffer: self.buffer@ }
    }
}

/// The PostgreSQL type recorded for a bound value, computed.
pub fn pg_type_of_value(v: &BoundValue) -> (r: PgTypeInfo)
    ensures
        r@ == pg_value_type(v@),
{
    match v {
        BoundValue::Null(t) => PgTypeInfo::of_scalar(t),
        BoundValue::Scalar(s) => PgTypeInfo::of_scalar(&type_of_scalar(s)),
        BoundValue::Vector { elem, .. } => PgTypeInfo::array_of_scalar(elem),
    }
}

impl PgArgumentsInner {
    pub open spec fn wf(&self) -> bool {
        &&& holes_wf(self@.buffer.bytes.len(), self@.buffer.holes)
        &&& self@.buffer.count == self@.types.len()
    }

    /// An empty argument list.
    pub fn new() -> (r: PgArgumentsInner)
        ensures
            r.wf(),
            r@.types.len() == 0,
            r@.buffer.bytes.len() == 0,
            r@.buffer.patches.len() == 0,
            r@.buffer.holes.len() == 0,
    {
        let r = PgArgumentsInner { types: Vec::new(), buffer: PgArgumentBuffer::new() };
        assert(r@.types =~= Seq::<PgTypeModel>::empty());
        r
    }

    /// The parameter block.
    pub fn buffer(&self) -> (r: &PgArgumentBuffer)
        ensures
            r@ == self@.buffer,
    {
        &self.buffer
    }

    /// The type of each parameter.
    pub fn types(&self) -> (r: &[PgTypeInfo])
        ensures
            r@.map_values(|t: PgTypeInfo| t@) == self@.types,
    {
        self.types.as_slice()
    }

    /// A sizing hint; it changes nothing observable.
    pub fn reserve(&mut self, additional: usize, size: usize)
        ensures
            final(self)@ == old(self)@,
    {
        self.buffer.reserve(additional);
    }

    /// Appends a value as the next parameter. If its encoding fails, the list
    /// is left exactly as it was.
    pub fn add_ref(&mut self, value: &BoundValue) -> (r: Result<(), Error>)
        requires
            old(self).wf(),
        ensures
            final(self).wf(),
            match pg_encoded(old(self)@.buffer, value@) {
                Ok(m) => r is Ok && final(self)@ == (PgInnerModel {
                    types: old(self)@.types.push(pg_value_type(value@)),
                    buffer: PgBufferModel { count: m.count + 1, ..m },
                }),
                Err(f) => r is Err && fail_matches(r->Err_0, f) && final(self)@ == old(self)@,
            },
    {
        let type_info = pg_type_of_value(value);
        match self.buffer.encode_ref(value) {
            Err(error) => {
                return Err(error);
            },
            Ok(()) => {},
        }
        self.types.push(type_info);
        self.buffer.count = self.types.len();
        assert(self@.types =~= old(self)@.types.push(pg_value_type(value@)));
        Ok(())
    }

    /// Appends a value given by value; see `add_ref`.
    pub fn add(&mut self, value: BoundValue) -> (r: Result<(), Error>)
        requires
            old(self).wf(),
        ensures
            final(self).wf(),
            match pg_encoded(old(self)@.buffer, value@) {
                Ok(m) => r is Ok && final(self)@ == (PgInnerModel {
                    types: old(self)@.types.push(pg_value_type(value@)),
                    buffer: PgBufferModel { count: m.count + 1, ..m },
                }),
                Err(f) => r is Err && fail_matches(r->Err_0, f) && final(self)@ == old(self)@,
            },
    {
        self.add_ref(&value)
    }

    /// The number of parameters added.
    pub fn len(&self) -> (r: usize)
        ensures
            r == self@.types.len(),
    {
        self.types.len()
    }

    /// Resolves every patch against the parameter types, then fills every type
    /// hole with the identifier looked up for it (`oids[i]` for hole `i`).
    /// Afterwards nothing is pending, and the block can be sent.
    pub fn apply_patches(&mut self, parameters: &[PgTypeInfo], oids: &[u32]) -> (r: Result<(), Error>)
        requires
            old(self).wf(),
        ensures
            final(self).wf(),
            r is Ok <==> (patches_ok(old(self)@.buffer, parameters@.map_values(|t: PgTypeInfo| t@))
                && oids@.len() == old(self)@.buffer.holes.len()),
            r is Ok ==> final(self)@ == (PgInnerModel {
                buffer: PgBufferModel {
                    bytes: resolved_bytes(
                        old(self)@.buffer,
                        parameters@.map_values(|t: PgTypeInfo| t@),
                        oids@,
                    ),
                    patches: Seq::empty(),
                    holes: Seq::empty(),
                    ..old(self)@.buffer
                },
                ..old(self)@
            }),
            r is Err ==> r->Err_0 is Lookup && final(self)@ == old(self)@,
    {
        let ghost params = parameters@.map_values(|t: PgTypeInfo| t@);
        let ghost m = old(self)@.buffer;
        let n = self.buffer.buffer.len();
        let mut k: usize = 0;
        while k < self.buffer.patches.len()
            invariant
                k <= m.patches.len(),
                old(self).wf(),
                self@ == old(self)@,
                m == self@.buffer,
                n == m.bytes.len(),
                params == parameters@.map_values(|t: PgTypeInfo| t@),
                forall|i: int|
                    0 <= i < k ==> (#[trigger] m.patches[i]).buf_offset + 4 <= m.bytes.len()
                        && patch_oid(m.patches[i], params) is Some,
            decreases m.patches.len() - k,
        {
            let p = self.buffer.patches[k];
            if p.arg_index >= parameters.len() || p.buf_offset > n || n - p.buf_offset < 4 {
                return Err(Error::Lookup("a patch has no parameter or lies outside the buffer".to_owned()));
            }
            if parameters[p.arg_index].oid().is_none() {
                return Err(Error::Lookup("a patch's parameter type has no known identifier".to_owned()));
            }
            k = k + 1;
        }
        if oids.len() != self.buffer.type_holes.len() {
            return Err(Error::Lookup("the looked-up identifiers do not match the type holes".to_owned()));
        }
        let ghost pw = patch_writes(m, params);
        let mut k: usize = 0;
        while k < self.buffer.patches.len()
            invariant
                k <= m.patches.len(),
                pw == patch_writes(m, params),
                patches_ok(m, params),
                params == parameters@.map_values(|t: PgTypeInfo| t@),
                self.buffer.patches@ == m.patches,
                self.buffer.type_holes@.map_values(|h: TypeHole| h@) == m.holes,
                self.buffer.count == m.count,
                self.types == old(self).types,
                self.buffer.buffer@ == apply_writes(m.bytes, pw.subrange(0, k as int)),
                self.buffer.buffer@.len() == m.bytes.len(),
            decreases m.patches.len() - k,
        {
            let p = self.buffer.patches[k];
            let oid = match parameters[p.arg_index].oid() {
                Some(o) => o,
                None => 0,
            };
            proof {
                lemma_writes_step(m.bytes, pw, k as int);
                lemma_write_at_len(self.buffer.buffer@, pw[k as int].0, pw[k as int].1);
            }
            write_be_u32_at(&mut self.buffer.buffer, p.buf_offset, oid);
            k = k + 1;
        }
        assert(pw.subrange(0, pw.len() as int) =~= pw);
        let ghost base = self.buffer.buffer@;
        let ghost hw = hole_writes(m, oids@);
        proof {
            assert(hw.subrange(0, 0) =~= Seq::<(nat, u32)>::empty());
        }
        let mut k: usize = 0;
        while k < self.buffer.type_holes.len()
            invariant
                k <= m.holes.len(),
                hw == hole_writes(m, oids@),
                oids@.len() == m.holes.len(),
                holes_wf(m.bytes.len(), m.holes),
                self.buffer.type_holes@.map_values(|h: TypeHole| h@) == m.holes,
                self.buffer.patches@ == m.patches,
                self.buffer.count == m.count,
                self.types == old(self).types,
                base.len() == m.bytes.len(),
                self.buffer.buffer@ == apply_writes(base, hw.subrange(0, k as int)),
                self.buffer.buffer@.len() == m.bytes.len(),
            decreases m.holes.len() - k,
        {
            let at = self.buffer.type_holes[k].offset;
            proof {
                assert(m.holes[k as int].offset == at);
                lemma_writes_step(base, hw, k as int);
                lemma_write_at_len(self.buffer.buffer@, hw[k as int].0, hw[k as int].1);
            }
            write_be_u32_at(&mut self.buffer.buffer, at, oids[k]);
            k = k + 1;
        }
        assert(hw.subrange(0, hw.len() as int) =~= hw);
        self.buffer.patches.clear();
        self.buffer.type_holes.clear();
        assert(self@.buffer.patches =~= Seq::<Patch>::empty());
        assert(self@.buffer.holes =~= Seq::<HoleModel>::empty());
        Ok(())
    }
}

/// An empty positional list.
pub open spec fn empty_inner() -> PgInnerModel {
    PgInnerModel {
        types: Seq::empty(),
        buffer: PgBufferModel { bytes: Seq::empty(), count: 0, patches: Seq::empty(), holes: Seq::empty() },
    }
}

/// `m` after appending `v` as the next parameter, or why `v` fails to encode.
pub open spec fn pg_added(m: PgInnerModel, v: ValueModel) -> Result<PgInnerModel, PgFail> {
    match pg_encoded(m.buffer, v) {
        Err(f) => Err(f),
        Ok(b) => Ok(PgInnerModel { types: m.types.push(pg_value_type(v)), buffer: PgBufferModel { count: b.count + 1, ..b } }),
    }
}

/// A fresh positional list after appending each of `vals` in order, or the
/// failure of the first value that does not encode.
pub open spec fn pg_fold(vals: Seq<ValueModel>) -> Result<PgInnerModel, PgFail>
    decreases vals.len(),
{
    if vals.len() == 0 {
        Ok(empty_inner())
    } else {
        match pg_fold(vals.drop_last()) {
            Err(f) => Err(f),
            Ok(m) => pg_added(m, vals.last()),
        }
    }
}

proof fn lemma_pg_fold_step(vals: Seq<ValueModel>, k: int)
    requires
        0 <= k < vals.len(),
    ensures
        pg_fold(vals.subrange(0, k + 1)) == (match pg_fold(vals.subrange(0, k)) {
            Err(f) => Err(f),
            Ok(m) => pg_added(m, vals[k]),
        }),
{
    assert(vals.subrange(0, k + 1).drop_last() =~= vals.subrange(0, k));
}

proof fn lemma_pg_fold_err(vals: Seq<ValueModel>, k: int)
    requires
        0 <= k <= vals.len(),
        pg_fold(vals.subrange(0, k)) is Err,
    ensures
        pg_fold(vals) == pg_fold(vals.subrange(0, k)),
    decreases vals.len() - k,
{
    if k < vals.len() {
        lemma_pg_fold_step(vals, k);
        lemma_pg_fold_err(vals, k + 1);
    } else {
        assert(vals.subrange(0, k) =~= vals);
    }
}

impl PgArgumentsInner {
    /// A fresh list holding `vals` in order, or the first encode failure.
    pub fn from_values(vals: &[BoundValue]) -> (r: Result<PgArgumentsInner, Error>)
        ensures
            match pg_fold(vals@.map_values(|v: BoundValue| v@)) {
                Ok(m) => r is Ok && r->Ok_0@ == m && r->Ok_0.wf(),
                Err(f) => r is Err && fail_matches(r->Err_0, f),
            },
    {
        let ghost vm = vals@.map_values(|v: BoundValue| v@);
        let mut out = PgArgumentsInner::new();
        let mut k: usize = 0;
        proof {
            assert(vm.subrange(0, 0) =~= Seq::<ValueModel>::empty());
            assert(out@.types =~= Seq::<PgTypeModel>::empty());
            assert(out@.buffer.bytes =~= Seq::<u8>::empty());
            assert(out@.buffer.patches =~= Seq::<Patch>::empty());
            assert(out@.buffer.holes =~= Seq::<HoleModel>::empty());
        }
        while k < vals.len()
            invariant
                k <= vals@.len(),
                vm == vals@.map_values(|v: BoundValue| v@),
                out.wf(),
                pg_fold(vm.subrange(0, k as int)) == Ok::<PgInnerModel, PgFail>(out@),
            decreases vals@.len() - k,
        {
            proof {
                lemma_pg_fold_step(vm, k as int);
            }
            match out.add_ref(&vals[k]) {
                Err(e) => {
                    proof {
                        lemma_pg_fold_err(vm, k + 1);
                    }
                    return Err(e);
                },
                Ok(()) => {},
            }
            k = k + 1;
        }
        assert(vm.subrange(0, vm.len() as int) =~= vm);
        Ok(out)
    }
}

/// Every successfully encoded value is its 4-byte length prefix followed by
/// exactly that many bytes, or the `NULL` sentinel -1 with no bytes after it;
/// what was in the buffer before stays as it was.
pub proof fn lemma_length_prefix(m: PgBufferModel, v: ValueModel)
    requires
        pg_encoded(m, v) is Ok,
    ensures
        ({
            let out = pg_encoded(m, v)->Ok_0.bytes;
            let n = m.bytes.len() as int;
            &&& out.len() >= n + 4
            &&& out.subrange(0, n) == m.bytes
            &&& v is Null ==> out.len() == n + 4 && out.subrange(n, n + 4) == be_i32(-1i32)
            &&& !(v is Null) ==> out.len() - n - 4 <= I32_MAX && out.subrange(n, n + 4) == be_i32(
                (out.len() - n - 4) as i32,
            )
        }),
{
    let out = pg_encoded(m, v)->Ok_0.bytes;
    let n = m.bytes.len() as int;
    lemma_be_bytes_len((-1i32) as u32 as u128, 4);
    match v {
        ValueModel::Null(_) => {
            assert(out.subrange(0, n) =~= m.bytes);
            assert(out.subrange(n, n + 4) =~= be_i32(-1i32));
        },
        ValueModel::Scalar(s) => {
            let b = pg_scalar_bytes(s)->0;
            lemma_be_bytes_len(b.len() as i32 as u32 as u128, 4);
            assert(out =~= m.bytes + be_i32(b.len() as i32) + b);
            assert(out.subrange(0, n) =~= m.bytes);
            assert(out.subrange(n, n + 4) =~= be_i32(b.len() as i32));
        },
        ValueModel::Vector { elem, items } => {
            let p = pg_array_payload(elem, items)->Ok_0;
            lemma_be_bytes_len(p.len() as i32 as u32 as u128, 4);
            assert(out =~= m.bytes + be_i32(p.len() as i32) + p);
            assert(out.subrange(0, n) =~= m.bytes);
            assert(out.subrange(n, n + 4) =~= be_i32(p.len() as i32));
        },
    }
}

impl PgArgumentsInner {
    /// The parameter block, once nothing is pending; `None` while a patch or
    /// a type hole awaits resolution.
    pub fn bytes_to_send(&self) -> (r: Option<&[u8]>)
        ensures
            r is Some <==> (self@.buffer.patches.len() == 0 && self@.buffer.holes.len() == 0),
            r is Some ==> r->0@ == self@.buffer.bytes,
    {
        if self.buffer.is_resolved() {
            Some(self.buffer.as_bytes())
        } else {
            None
        }
    }
}

} // verus!
