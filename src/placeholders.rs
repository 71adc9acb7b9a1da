use vstd::prelude::*;

use crate::arguments::{bag_lookup, kind_of, resolve_err_is, ArgumentBag, ArgumentKind, BagModel, ResolveFail};
use crate::database::ParamIndexing;
use crate::error::Error;
use crate::value::{vector_item, BoundValue, ValueModel};
use crate::index::{ArgumentIndex, IndexModel};
use crate::text::{chars_of, decimal, push_chars, push_decimal, string_from_chars};

verus! {

/// One placeholder occurrence: what it refers to, whether it asks for vector
/// expansion (a trailing `*`), and its span `start..end` in the SQL (in chars).
#[derive(Debug)]
pub struct Placeholder {
    pub index: ArgumentIndex,
    pub kleene: bool,
    pub start: usize,
    pub end: usize,
}

/// The mathematical form of a `Placeholder`.
pub struct PlaceModel {
    pub index: IndexModel,
    pub kleene: bool,
    pub start: nat,
    pub end: nat,
}

impl View for Placeholder {
    type V = PlaceModel;

    open spec fn view(&self) -> PlaceModel {
        PlaceModel { index: self.index@, kleene: self.kleene, start: self.start as nat, end: self.end as nat }
    }
}

pub open spec fn is_digit(c: char) -> bool {
    '0' <= c && c <= '9'
}

pub open spec fn is_ident_start(c: char) -> bool {
    ('a' <= c && c <= 'z') || ('A' <= c && c <= 'Z') || c == '_'
}

pub open spec fn is_ident_char(c: char) -> bool {
    is_ident_start(c) || is_digit(c)
}

/// The end of the run of digits (or of name characters) that starts at `j`.
pub open spec fn run_end(s: Seq<char>, j: nat, ident: bool) -> nat
    decreases s.len() - j,
{
    if j < s.len() && (if ident {
        is_ident_char(s[j as int])
    } else {
        is_digit(s[j as int])
    }) {
        run_end(s, j + 1, ident)
    } else {
        j
    }
}

/// The number that the digits `s[a..b]` spell.
pub open spec fn digits_value(s: Seq<char>, a: nat, b: nat) -> nat
    decreases b - a,
{
    if b <= a {
        0
    } else {
        digits_value(s, a, (b - 1) as nat) * 10 + ((s[b - 1] as u32) - 48) as nat
    }
}

/// Whether an expansion marker `*` stands at `j`.
pub open spec fn kleene_at(s: Seq<char>, j: nat) -> bool {
    j < s.len() && s[j as int] == '*'
}

/// Where an occurrence that ends its reference at `j` ends.
pub open spec fn after(s: Seq<char>, j: nat) -> nat {
    if kleene_at(s, j) {
        j + 1
    } else {
        j
    }
}

/// What the scanner finds at one position.
pub enum StepModel {
    /// Literal text up to `next`.
    Skip(nat),
    /// A placeholder, the position after it, and the next implicit index.
    Place(PlaceModel, nat, nat),
    /// Malformed placeholder syntax over `start..end`.
    Fail(nat, nat),
}

/// One scanning step at position `i`; `implicit` counts the `?` seen so far.
///
/// - `?` refers to the next implicit position;
/// - `$n` refers to the one-based position `n` (`$` without digits, `$0`,
///   or a number beyond the machine word is malformed);
/// - `:name` refers to a name; `::` is literal text;
/// - a `*` right after a placeholder asks for vector expansion.
pub open spec fn scan_step(s: Seq<char>, i: nat, implicit: nat) -> StepModel {
    let c = s[i as int];
    if c == '?' {
        StepModel::Place(
            PlaceModel {
                index: IndexModel::Positioned(implicit as usize),
                kleene: kleene_at(s, i + 1),
                start: i,
                end: after(s, i + 1),
            },
            after(s, i + 1),
            implicit + 1,
        )
    } else if c == '$' {
        let j = run_end(s, i + 1, false);
        let v = digits_value(s, i + 1, j);
        if j == i + 1 {
            StepModel::Fail(i, i + 1)
        } else if v == 0 || v > usize::MAX {
            StepModel::Fail(i, j)
        } else {
            StepModel::Place(
                PlaceModel {
                    index: IndexModel::Positioned((v - 1) as usize),
                    kleene: kleene_at(s, j),
                    start: i,
                    end: after(s, j),
                },
                after(s, j),
                implicit,
            )
        }
    } else if c == ':' && i + 1 < s.len() && s[(i + 1) as int] == ':' {
        StepModel::Skip(i + 2)
    } else if c == ':' && i + 1 < s.len() && is_ident_start(s[(i + 1) as int]) {
        let j = run_end(s, i + 1, true);
        StepModel::Place(
            PlaceModel {
                index: IndexModel::Named(s.subrange((i + 1) as int, j as int)),
                kleene: kleene_at(s, j),
                start: i,
                end: after(s, j),
            },
            after(s, j),
            implicit,
        )
    } else {
        StepModel::Skip(i + 1)
    }
}

/// `r` with `ps` in front of its occurrences.
pub open spec fn prepend_all(ps: Seq<PlaceModel>, r: Result<Seq<PlaceModel>, (nat, nat)>) -> Result<
    Seq<PlaceModel>,
    (nat, nat),
> {
    match r {
        Ok(rest) => Ok(ps + rest),
        Err(e) => Err(e),
    }
}

/// The placeholder occurrences of `s[i..]`, left to right, or the first
/// malformed span.
pub open spec fn scan(s: Seq<char>, i: nat, implicit: nat) -> Result<Seq<PlaceModel>, (nat, nat)>
    decreases s.len() - i,
{
    if i >= s.len() {
        Ok(Seq::empty())
    } else {
        match scan_step(s, i, implicit) {
            StepModel::Fail(a, b) => Err((a, b)),
            StepModel::Skip(next) => if i < next <= s.len() {
                scan(s, next, implicit)
            } else {
                Ok(Seq::empty())
            },
            StepModel::Place(p, next, imp) => if i < next <= s.len() {
                prepend_all(seq![p], scan(s, next, imp))
            } else {
                Ok(Seq::empty())
            },
        }
    }
}

proof fn lemma_run_end(s: Seq<char>, j: nat, ident: bool)
    requires
        j <= s.len(),
    ensures
        j <= run_end(s, j, ident) <= s.len(),
        forall|k: int|
            j <= k < run_end(s, j, ident) ==> (if ident {
                is_ident_char(#[trigger] s[k])
            } else {
                is_digit(s[k])
            }),
        run_end(s, j, ident) < s.len() ==> !(if ident {
            is_ident_char(s[run_end(s, j, ident) as int])
        } else {
            is_digit(s[run_end(s, j, ident) as int])
        }),
    decreases s.len() - j,
{
    if j < s.len() && (if ident {
        is_ident_char(s[j as int])
    } else {
        is_digit(s[j as int])
    }) {
        lemma_run_end(s, j + 1, ident);
    }
}

proof fn lemma_step_bounds(s: Seq<char>, i: nat, implicit: nat)
    requires
        i < s.len(),
    ensures
        match scan_step(s, i, implicit) {
            StepModel::Skip(next) => i < next <= s.len(),
            StepModel::Place(p, next, imp) => i < next <= s.len() && p.start == i && p.end == next
                && (imp == implicit || imp == implicit + 1),
            StepModel::Fail(a, b) => true,
        },
{
    lemma_run_end(s, i + 1, false);
    if i + 1 < s.len() {
        lemma_run_end(s, i + 1, true);
    }
}

proof fn lemma_prepend(ps: Seq<PlaceModel>, p: PlaceModel, r: Result<Seq<PlaceModel>, (nat, nat)>)
    ensures
        prepend_all(ps, prepend_all(seq![p], r)) == prepend_all(ps.push(p), r),
{
    if r is Ok {
        assert(ps + (seq![p] + r->Ok_0) =~= ps.push(p) + r->Ok_0);
    }
}

/// One scanning step, as found by `next_step`.
pub enum Step {
    Skip(usize),
    Place(Placeholder, usize, usize),
    Fail(usize, usize),
}

pub open spec fn step_model(st: Step) -> StepModel {
    match st {
        Step::Skip(n) => StepModel::Skip(n as nat),
        Step::Place(p, n, imp) => StepModel::Place(p@, n as nat, imp as nat),
        Step::Fail(a, b) => StepModel::Fail(a as nat, b as nat),
    }
}

fn is_digit_char(c: char) -> (r: bool)
    ensures
        r == is_digit(c),
{
    '0' <= c && c <= '9'
}

fn is_ident_start_char(c: char) -> (r: bool)
    ensures
        r == is_ident_start(c),
{
    ('a' <= c && c <= 'z') || ('A' <= c && c <= 'Z') || c == '_'
}

/// The end of the digit run at `j`, its value, and whether the value exceeds
/// the machine word (the value is then meaningless).
fn digit_run(s: &Vec<char>, j: usize) -> (r: (usize, usize, bool))
    requires
        j <= s@.len(),
    ensures
        r.0 == run_end(s@, j as nat, false),
        !r.2 ==> r.1 == digits_value(s@, j as nat, r.0 as nat),
        r.2 ==> digits_value(s@, j as nat, r.0 as nat) > usize::MAX,
{
    let mut k: usize = j;
    let mut val: usize = 0;
    let mut overflow = false;
    while k < s.len() && is_digit_char(s[k])
        invariant
            j <= k <= s@.len(),
            run_end(s@, j as nat, false) == run_end(s@, k as nat, false),
            !overflow ==> val == digits_value(s@, j as nat, k as nat),
            overflow ==> digits_value(s@, j as nat, k as nat) > usize::MAX,
        decreases s@.len() - k,
    {
        let c = s[k];
        let d = (c as u32 - 48) as usize;
        let ghost prev = digits_value(s@, j as nat, k as nat);
        assert(digits_value(s@, j as nat, (k + 1) as nat) == prev * 10 + d);
        if !overflow {
            if val > (usize::MAX - d) / 10 {
                overflow = true;
                assert(prev * 10 + d > usize::MAX) by (nonlinear_arith)
                    requires
                        prev == val,
                        val > (usize::MAX - d) / 10,
                        d <= 9,
                ;
            } else {
                assert(val * 10 + d <= usize::MAX) by (nonlinear_arith)
                    requires
                        val <= (usize::MAX - d) / 10,
                        d <= 9,
                ;
                val = val * 10 + d;
            }
        } else {
            assert(prev * 10 + d > usize::MAX) by (nonlinear_arith)
                requires
                    prev > usize::MAX,
                    d >= 0,
            ;
        }
        k = k + 1;
    }
    (k, val, overflow)
}

/// The end of the run of name characters at `j`.
fn ident_run(s: &Vec<char>, j: usize) -> (r: usize)
    requires
        j <= s@.len(),
    ensures
        r == run_end(s@, j as nat, true),
{
    let mut k: usize = j;
    while k < s.len() && (is_ident_start_char(s[k]) || is_digit_char(s[k]))
        invariant
            j <= k <= s@.len(),
            run_end(s@, j as nat, true) == run_end(s@, k as nat, true),
        decreases s@.len() - k,
    {
        k = k + 1;
    }
    k
}

fn after_at(s: &Vec<char>, j: usize) -> (r: (bool, usize))
    requires
        j <= s@.len(),
    ensures
        r.0 == kleene_at(s@, j as nat),
        r.1 == after(s@, j as nat),
{
    if j < s.len() && s[j] == '*' {
        (true, j + 1)
    } else {
        (false, j)
    }
}

/// One scanning step at `i`.
fn next_step(s: &Vec<char>, i: usize, implicit: usize) -> (r: Step)
    requires
        i < s@.len(),
        implicit <= i,
    ensures
        step_model(r) == scan_step(s@, i as nat, implicit as nat),
{
    proof {
        lemma_step_bounds(s@, i as nat, implicit as nat);
        lemma_run_end(s@, (i + 1) as nat, false);
    }
    let n = s.len();
    assert(i + 1 <= n);
    let c = s[i];
    if c == '?' {
        let (kleene, end) = after_at(s, i + 1);
        Step::Place(
            Placeholder { index: ArgumentIndex::Positioned(implicit), kleene, start: i, end },
            end,
            implicit + 1,
        )
    } else if c == '$' {
        let (j, v, overflow) = digit_run(s, i + 1);
        if j == i + 1 {
            Step::Fail(i, i + 1)
        } else if overflow || v == 0 {
            Step::Fail(i, j)
        } else {
            let (kleene, end) = after_at(s, j);
            Step::Place(Placeholder { index: ArgumentIndex::Positioned(v - 1), kleene, start: i, end }, end, implicit)
        }
    } else if c == ':' && i + 1 < s.len() && s[i + 1] == ':' {
        Step::Skip(i + 2)
    } else if c == ':' && i + 1 < s.len() && is_ident_start_char(s[i + 1]) {
        proof {
            lemma_run_end(s@, (i + 1) as nat, true);
        }
        let j = ident_run(s, i + 1);
        let mut name_chars: Vec<char> = Vec::new();
        push_chars(&mut name_chars, s.as_slice(), i + 1, j);
        assert(name_chars@ =~= s@.subrange((i + 1) as int, j as int));
        let name = string_from_chars(name_chars.as_slice());
        let (kleene, end) = after_at(s, j);
        Step::Place(Placeholder { index: ArgumentIndex::Named(name), kleene, start: i, end }, end, implicit)
    } else {
        Step::Skip(i + 1)
    }
}

/// Occurrences lie inside the SQL, in order, without overlap.
pub open spec fn places_wf(len: nat, places: Seq<PlaceModel>) -> bool {
    &&& forall|k: int| 0 <= k < places.len() ==> (#[trigger] places[k]).start < places[k].end <= len
    &&& forall|k: int| 0 < k < places.len() ==> places[k - 1].end <= (#[trigger] places[k]).start
}

/// SQL split into literal text and placeholder occurrences.
#[derive(Debug)]
pub struct ParsedQuery {
    sql: Vec<char>,
    places: Vec<Placeholder>,
}

/// The mathematical form of a `ParsedQuery`.
pub struct ParsedModel {
    pub sql: Seq<char>,
    pub places: Seq<PlaceModel>,
}

impl View for ParsedQuery {
    type V = ParsedModel;

    closed spec fn view(&self) -> ParsedModel {
        ParsedModel { sql: self.sql@, places: self.places@.map_values(|p: Placeholder| p@) }
    }
}

impl ParsedQuery {
    pub open spec fn wf(&self) -> bool {
        places_wf(self@.sql.len(), self@.places)
    }

    /// The occurrences, left to right.
    pub fn places(&self) -> (r: &[Placeholder])
        ensures
            r@.map_values(|p: Placeholder| p@) == self@.places,
    {
        self.places.as_slice()
    }

    pub(crate) fn sql_chars(&self) -> (r: &[char])
        ensures
            r@ == self@.sql,
    {
        self.sql.as_slice()
    }
}

/// Splits SQL into literal text and placeholder occurrences, or reports the
/// first malformed placeholder.
pub fn parse_query(sql: &str) -> (r: Result<ParsedQuery, Error>)
    ensures
        match scan(sql@, 0, 0) {
            Ok(ps) => r is Ok && r->Ok_0@ == (ParsedModel { sql: sql@, places: ps }) && r->Ok_0.wf(),
            Err((a, b)) => r is Err && r->Err_0 is Parse && r->Err_0->start == a && r->Err_0->end == b,
        },
{
    let s = chars_of(sql);
    let mut places: Vec<Placeholder> = Vec::new();
    let mut i: usize = 0;
    let mut implicit: usize = 0;
    assert(prepend_all(Seq::empty(), scan(s@, 0, 0)) == scan(s@, 0, 0)) by {
        if scan(s@, 0, 0) is Ok {
            assert(Seq::<PlaceModel>::empty() + scan(s@, 0, 0)->Ok_0 =~= scan(s@, 0, 0)->Ok_0);
        }
    }
    assert(places@.map_values(|p: Placeholder| p@) =~= Seq::<PlaceModel>::empty());
    while i < s.len()
        invariant
            i <= s@.len(),
            implicit <= i,
            s@ == sql@,
            scan(s@, 0, 0) == prepend_all(places@.map_values(|p: Placeholder| p@), scan(s@, i as nat, implicit as nat)),
            places_wf(i as nat, places@.map_values(|p: Placeholder| p@)),
        decreases s@.len() - i,
    {
        proof {
            lemma_step_bounds(s@, i as nat, implicit as nat);
        }
        let ghost pm = places@.map_values(|p: Placeholder| p@);
        match next_step(&s, i, implicit) {
            Step::Fail(a, b) => {
                return Err(Error::Parse { start: a, end: b, message: "malformed placeholder".to_owned() });
            },
            Step::Skip(n) => {
                i = n;
            },
            Step::Place(p, n, imp) => {
                let ghost pv = p@;
                proof {
                    lemma_prepend(pm, pv, scan(s@, n as nat, imp as nat));
                }
                places.push(p);
                assert(places@.map_values(|p: Placeholder| p@) =~= pm.push(pv));
                i = n;
                implicit = imp;
            },
        }
    }
    proof {
        let pm = places@.map_values(|p: Placeholder| p@);
        assert(pm + Seq::<PlaceModel>::empty() =~= pm);
    }
    Ok(ParsedQuery { sql: s, places })
}

/// The values that one occurrence stands for: its value, or each element of
/// a sequence when expansion was asked for.
pub open spec fn resolve_values(bag: BagModel, p: PlaceModel) -> Result<Seq<ValueModel>, ResolveFail> {
    match kind_of(bag, p.index, p.kleene) {
        Err(f) => Err(f),
        Ok(ArgumentKind::Scalar) => Ok(seq![bag_lookup(bag, p.index)->0]),
        Ok(ArgumentKind::Vector(n)) => Ok(
            Seq::new(n as nat, |j: int| vector_item(bag_lookup(bag, p.index)->0, j)),
        ),
    }
}

/// The backend-native placeholder for one-based position `pos`.
pub open spec fn render_one(ch: char, ix: ParamIndexing, pos: nat) -> Seq<char> {
    match ix {
        ParamIndexing::Implicit => seq![ch],
        ParamIndexing::OneIndexed => seq![ch] + decimal(pos),
    }
}

/// `count` placeholders for positions `first..first + count`, joined by `", "`.
pub open spec fn render_run(ch: char, ix: ParamIndexing, first: nat, count: nat) -> Seq<char>
    decreases count,
{
    if count == 0 {
        Seq::empty()
    } else {
        render_run(ch, ix, first, (count - 1) as nat) + (if count > 1 {
            seq![',', ' ']
        } else {
            Seq::empty()
        }) + render_one(ch, ix, (first + count - 1) as nat)
    }
}

/// Where the literal text before occurrence `k` starts.
pub open spec fn prev_end(places: Seq<PlaceModel>, k: int) -> nat {
    if k <= 0 {
        0
    } else {
        places[k - 1].end
    }
}

/// The rewritten SQL up to the end of occurrence `k - 1`, and the values of
/// the first `k` occurrences, in order.
pub open spec fn expand_prefix(q: ParsedModel, bag: BagModel, ch: char, ix: ParamIndexing, k: nat) -> Result<
    (Seq<char>, Seq<ValueModel>),
    ResolveFail,
>
    decreases k,
{
    if k == 0 {
        Ok((Seq::empty(), Seq::empty()))
    } else {
        match expand_prefix(q, bag, ch, ix, (k - 1) as nat) {
            Err(f) => Err(f),
            Ok((out, vals)) => match resolve_values(bag, q.places[k - 1]) {
                Err(f) => Err(f),
                Ok(vs) => Ok(
                    (
                        out + q.sql.subrange(prev_end(q.places, k - 1) as int, q.places[k - 1].start as int)
                            + render_run(ch, ix, vals.len() + 1, vs.len()),
                        vals + vs,
                    ),
                ),
            },
        }
    }
}

/// The rewritten SQL and its strictly positional values, or the first
/// occurrence that does not resolve.
pub open spec fn expand_spec(q: ParsedModel, bag: BagModel, ch: char, ix: ParamIndexing) -> Result<
    (Seq<char>, Seq<ValueModel>),
    ResolveFail,
> {
    let n = q.places.len();
    match expand_prefix(q, bag, ch, ix, n) {
        Err(f) => Err(f),
        Ok((out, vals)) => Ok((out + q.sql.subrange(prev_end(q.places, n as int) as int, q.sql.len() as int), vals)),
    }
}

/// The models of a list of values.
pub open spec fn values_model(vals: Seq<BoundValue>) -> Seq<ValueModel> {
    vals.map_values(|v: BoundValue| v@)
}

proof fn lemma_expand_err(q: ParsedModel, bag: BagModel, ch: char, ix: ParamIndexing, k: nat, n: nat)
    requires
        k <= n,
        expand_prefix(q, bag, ch, ix, k) is Err,
    ensures
        expand_prefix(q, bag, ch, ix, n) == expand_prefix(q, bag, ch, ix, k),
    decreases n - k,
{
    if k < n {
        lemma_expand_err(q, bag, ch, ix, k, (n - 1) as nat);
    }
}

proof fn lemma_expand_step(
    q: ParsedModel,
    bag: BagModel,
    ch: char,
    ix: ParamIndexing,
    k: nat,
    out: Seq<char>,
    vals: Seq<ValueModel>,
)
    requires
        k < q.places.len(),
        expand_prefix(q, bag, ch, ix, k) == Ok::<(Seq<char>, Seq<ValueModel>), ResolveFail>((out, vals)),
    ensures
        match resolve_values(bag, q.places[k as int]) {
            Err(f) => expand_prefix(q, bag, ch, ix, k + 1) == Err::<(Seq<char>, Seq<ValueModel>), ResolveFail>(f),
            Ok(vs) => expand_prefix(q, bag, ch, ix, k + 1) == Ok::<(Seq<char>, Seq<ValueModel>), ResolveFail>(
                (
                    out + q.sql.subrange(prev_end(q.places, k as int) as int, q.places[k as int].start as int)
                        + render_run(ch, ix, vals.len() + 1, vs.len()),
                    vals + vs,
                ),
            ),
        },
{
}

/// Appends the backend-native placeholder for one-based position `pos`.
fn render_one_into(out: &mut Vec<char>, ch: char, ix: ParamIndexing, pos: usize)
    ensures
        final(out)@ == old(out)@ + render_one(ch, ix, pos as nat),
{
    out.push(ch);
    match ix {
        ParamIndexing::Implicit => {},
        ParamIndexing::OneIndexed => push_decimal(out, pos),
    }
    assert(final(out)@ =~= old(out)@ + render_one(ch, ix, pos as nat));
}

/// The values that an occurrence of value `v` resolved as `kind` stands for.
pub open spec fn occurrence_values(v: ValueModel, kind: ArgumentKind) -> Seq<ValueModel> {
    match kind {
        ArgumentKind::Scalar => seq![v],
        ArgumentKind::Vector(n) => Seq::new(n as nat, |t: int| vector_item(v, t)),
    }
}

/// Appends the placeholders and the values of one occurrence.
fn append_values(
    out: &mut Vec<char>,
    vals: &mut Vec<BoundValue>,
    v: &BoundValue,
    kind: ArgumentKind,
    ch: char,
    ix: ParamIndexing,
)
    requires
        kind is Vector ==> crate::value::spec_vector_len(v@) == Some(kind->Vector_0 as nat),
    ensures
        values_model(final(vals)@) == values_model(old(vals)@) + occurrence_values(v@, kind),
        final(out)@ == old(out)@ + render_run(
            ch,
            ix,
            old(vals)@.len() + 1,
            occurrence_values(v@, kind).len(),
        ),
{
    let ghost out1 = old(out)@;
    let ghost vals0 = values_model(old(vals)@);
    match kind {
        ArgumentKind::Scalar => {
            vals.push(v.copy());
            render_one_into(out, ch, ix, vals.len());
            proof {
                assert(values_model(vals@) =~= vals0 + seq![v@]);
                assert(render_run(ch, ix, vals0.len() + 1, 0) =~= Seq::<char>::empty());
                assert(render_run(ch, ix, vals0.len() + 1, 1) =~= render_one(ch, ix, vals0.len() + 1));
                assert(out@ =~= out1 + render_run(ch, ix, vals0.len() + 1, 1));
            }
        },
        ArgumentKind::Vector(n) => {
            let mut j: usize = 0;
            assert(out1 + render_run(ch, ix, vals0.len() + 1, 0) =~= out1);
            assert(values_model(vals@) =~= vals0 + Seq::new(0, |t: int| vector_item(v@, t)));
            while j < n
                invariant
                    j <= n,
                    crate::value::spec_vector_len(v@) == Some(n as nat),
                    vals0.len() == old(vals)@.len(),
                    vals@.len() == vals0.len() + j,
                    out@ == out1 + render_run(ch, ix, vals0.len() + 1, j as nat),
                    values_model(vals@) == vals0 + Seq::new(j as nat, |t: int| vector_item(v@, t)),
                decreases n - j,
            {
                if j > 0 {
                    out.push(',');
                    out.push(' ');
                }
                let ghost before = values_model(vals@);
                let item = v.item(j);
                vals.push(item);
                assert(values_model(vals@) =~= before.push(vector_item(v@, j as int)));
                render_one_into(out, ch, ix, vals.len());
                j = j + 1;
                proof {
                    assert(out@ =~= out1 + render_run(ch, ix, vals0.len() + 1, j as nat));
                    assert(values_model(vals@) =~= vals0 + Seq::new(j as nat, |t: int| vector_item(v@, t)));
                }
            }
        },
    }
}

/// Appends the literal text before occurrence `p`, then its placeholders, and
/// lists its values.
fn expand_occurrence(
    out: &mut Vec<char>,
    vals: &mut Vec<BoundValue>,
    sql: &[char],
    prev: usize,
    p: &Placeholder,
    bag: &ArgumentBag,
    ch: char,
    ix: ParamIndexing,
    has_expansion: &mut bool,
) -> (r: Result<(), Error>)
    requires
        prev <= p.start <= sql@.len(),
    ensures
        match resolve_values(bag@, p@) {
            Err(f) => r is Err && resolve_err_is(r->Err_0, f),
            Ok(vs) => r is Ok && values_model(final(vals)@) == values_model(old(vals)@) + vs
                && final(out)@ == old(out)@ + sql@.subrange(prev as int, p.start as int) + render_run(
                ch,
                ix,
                old(vals)@.len() + 1,
                vs.len(),
            ),
        },
{
    let kind = bag.get_kind(&p.index, p.kleene, has_expansion)?;
    let v = match bag.get(&p.index) {
        Some(v) => v,
        None => {
            return Err(Error::UnknownArgument(p.index.copy()));
        },
    };
    let ghost out0 = out@;
    let _ = v.vector_len();
    push_chars(out, sql, prev, p.start);
    append_values(out, vals, v, kind, ch, ix);
    proof {
        let vs = occurrence_values(v@, kind);
        assert(resolve_values(bag@, p@) == Ok::<Seq<ValueModel>, ResolveFail>(vs));
        assert(out@ =~= out0 + sql@.subrange(prev as int, p.start as int) + render_run(ch, ix, old(vals)@.len() + 1, vs.len()));
    }
    Ok(())
}

/// Rewrites a parsed query into backend-native placeholder syntax (character
/// `ch`, numbered as `ix` says) and lists the value of each new position.
///
/// Occurrences are handled in textual order; a name used twice is listed
/// twice; an expanded sequence becomes one position per element. Any
/// occurrence that does not resolve fails the whole rewrite.
pub fn expand_plan(q: &ParsedQuery, bag: &ArgumentBag, ch: char, ix: ParamIndexing) -> (r: Result<(String, Vec<BoundValue>), Error>)
    requires
        q.wf(),
    ensures
        match expand_spec(q@, bag@, ch, ix) {
            Ok((sql, vals)) => r is Ok && r->Ok_0.0@ == sql && values_model(r->Ok_0.1@) == vals,
            Err(f) => r is Err && resolve_err_is(r->Err_0, f),
        },
{
    let ghost qm = q@;
    let mut has_expansion = false;
    let mut out: Vec<char> = Vec::new();
    let mut vals: Vec<BoundValue> = Vec::new();
    let mut prev: usize = 0;
    let mut k: usize = 0;
    assert(values_model(vals@) =~= Seq::<ValueModel>::empty());
    while k < q.places.len()
        invariant
            qm == q@,
            q.wf(),
            k <= qm.places.len(),
            prev == prev_end(qm.places, k as int),
            prev <= qm.sql.len(),
            expand_prefix(qm, bag@, ch, ix, k as nat) == Ok::<(Seq<char>, Seq<ValueModel>), ResolveFail>(
                (out@, values_model(vals@)),
            ),
        decreases qm.places.len() - k,
    {
        let p = &q.places[k];
        assert(qm.places[k as int] == p@);
        let ghost out0 = out@;
        let ghost vals0 = values_model(vals@);
        proof {
            lemma_expand_step(qm, bag@, ch, ix, k as nat, out0, vals0);
        }
        match expand_occurrence(&mut out, &mut vals, q.sql.as_slice(), prev, p, bag, ch, ix, &mut has_expansion) {
            Err(e) => {
                proof {
                    lemma_expand_err(qm, bag@, ch, ix, (k + 1) as nat, qm.places.len());
                }
                return Err(e);
            },
            Ok(()) => {},
        }
        prev = p.end;
        k = k + 1;
    }
    push_chars(&mut out, q.sql.as_slice(), prev, q.sql.len());
    Ok((string_from_chars(out.as_slice()), vals))
}

proof fn lemma_expand_prefix_ok(q: ParsedModel, bag: BagModel, ch: char, ix: ParamIndexing, k: nat)
    requires
        k <= q.places.len(),
        forall|j: int| 0 <= j < k ==> (#[trigger] resolve_values(bag, q.places[j])) is Ok,
    ensures
        expand_prefix(q, bag, ch, ix, k) is Ok,
    decreases k,
{
    if k > 0 {
        lemma_expand_prefix_ok(q, bag, ch, ix, (k - 1) as nat);
        assert(resolve_values(bag, q.places[k - 1]) is Ok);
    }
}

/// An occurrence whose index the bag lacks fails the whole rewrite with the
/// unknown-argument error for that index, once the occurrences before it
/// resolve: no rewritten SQL and no values come out.
pub proof fn lemma_unknown_reference(q: ParsedModel, bag: BagModel, ch: char, ix: ParamIndexing, k: int)
    requires
        0 <= k < q.places.len(),
        bag_lookup(bag, q.places[k].index) is None,
        forall|j: int| 0 <= j < k ==> (#[trigger] resolve_values(bag, q.places[j])) is Ok,
    ensures
        expand_spec(q, bag, ch, ix) == Err::<(Seq<char>, Seq<ValueModel>), ResolveFail>(
            ResolveFail::Unknown(q.places[k].index),
        ),
{
    lemma_expand_prefix_ok(q, bag, ch, ix, k as nat);
    let pre = expand_prefix(q, bag, ch, ix, k as nat)->Ok_0;
    lemma_expand_step(q, bag, ch, ix, k as nat, pre.0, pre.1);
    lemma_expand_err(q, bag, ch, ix, (k + 1) as nat, q.places.len());
}

/// A name that occurs twice (without expansion) becomes two positions of
/// their own, at the places of the two occurrences, both holding the value
/// bound under that name.
pub proof fn lemma_named_reuse(q: ParsedModel, bag: BagModel, ch: char, ix: ParamIndexing, name: Seq<char>)
    requires
        places_wf(q.sql.len(), q.places),
        q.places.len() == 2,
        q.places[0].index == IndexModel::Named(name),
        q.places[1].index == IndexModel::Named(name),
        !q.places[0].kleene,
        !q.places[1].kleene,
        bag.named.contains_key(name),
    ensures
        expand_spec(q, bag, ch, ix) == Ok::<(Seq<char>, Seq<ValueModel>), ResolveFail>(
            (
                q.sql.subrange(0, q.places[0].start as int) + render_one(ch, ix, 1)
                    + q.sql.subrange(q.places[0].end as int, q.places[1].start as int) + render_one(ch, ix, 2)
                    + q.sql.subrange(q.places[1].end as int, q.sql.len() as int),
                seq![bag.named[name], bag.named[name]],
            ),
        ),
{
    let v = bag.named[name];
    assert(resolve_values(bag, q.places[0]) == Ok::<Seq<ValueModel>, ResolveFail>(seq![v]));
    assert(resolve_values(bag, q.places[1]) == Ok::<Seq<ValueModel>, ResolveFail>(seq![v]));
    let e0 = expand_prefix(q, bag, ch, ix, 0);
    assert(e0 == Ok::<(Seq<char>, Seq<ValueModel>), ResolveFail>((Seq::empty(), Seq::empty())));
    lemma_expand_step(q, bag, ch, ix, 0, Seq::empty(), Seq::empty());
    assert(render_run(ch, ix, 1, 0) =~= Seq::<char>::empty());
    assert(render_run(ch, ix, 2, 0) =~= Seq::<char>::empty());
    assert(render_run(ch, ix, 1, 1) =~= render_one(ch, ix, 1));
    assert(render_run(ch, ix, 2, 1) =~= render_one(ch, ix, 2));
    let e1 = expand_prefix(q, bag, ch, ix, 1)->Ok_0;
    assert(e1.1 =~= seq![v]);
    assert(e1.0 =~= q.sql.subrange(0, q.places[0].start as int) + render_one(ch, ix, 1));
    lemma_expand_step(q, bag, ch, ix, 1, e1.0, e1.1);
    let e2 = expand_prefix(q, bag, ch, ix, 2)->Ok_0;
    assert(e2.1 =~= seq![v, v]);
    assert(expand_spec(q, bag, ch, ix)->Ok_0.0 =~= q.sql.subrange(0, q.places[0].start as int) + render_one(
        ch,
        ix,
        1,
    ) + q.sql.subrange(q.places[0].end as int, q.places[1].start as int) + render_one(ch, ix, 2)
        + q.sql.subrange(q.places[1].end as int, q.sql.len() as int));
}

} // verus!
