//! The layout calculator: deterministic sizes, alignments and offsets for
//! composite types, so emitted structures are bit-compatible with the
//! reference binary layout.
//!
//! Sizes are computed in bytes for a 32-bit target address space; a layout
//! that would not fit in it is rejected.

use vstd::prelude::*;
use crate::error::Error;
use crate::model::{
    BuiltinType, Document, IntRepr, RecordKind, RecordMember, RecordType, TypeDef, TypeRef,
    VariantCase, VariantType, spec_tag_repr, tag_repr_for,
};

verus! {

broadcast use vstd::std_specs::vec::axiom_vec_index_decreases;

/// No computed layout may exceed the 32-bit target address space.
pub const MAX_LAYOUT_SIZE: u64 = 0xFFFF_FFFF;

#[derive(Clone, Copy, PartialEq, Eq, Structural, Debug)]
pub struct SizeAlign {
    pub size: u64,
    pub align: u64,
}

pub open spec fn max2(a: int, b: int) -> int {
    if a >= b {
        a
    } else {
        b
    }
}

/// The first offset at or after `off` that is a multiple of `a`.
pub open spec fn align_up_spec(off: int, a: int) -> int {
    if a <= 1 {
        off
    } else if off % a == 0 {
        off
    } else {
        off + a - (off % a)
    }
}

pub proof fn lemma_align_up(off: int, a: int)
    requires
        off >= 0,
        a >= 1,
    ensures
        align_up_spec(off, a) % a == 0,
        off <= align_up_spec(off, a) < off + a,
{
    if a == 1 {
        assert(align_up_spec(off, a) % a == 0);
    } else if off % a == 0 {
    } else {
        let r = off % a;
        assert(0 <= r < a) by (nonlinear_arith)
            requires
                a >= 2,
                off >= 0,
                r == off % a,
        ;
        assert((off + a - r) % a == 0) by (nonlinear_arith)
            requires
                a >= 2,
                off >= 0,
                r == off % a,
        ;
    }
}

pub fn align_up(off: u64, a: u64) -> (r: u64)
    requires
        a <= 8,
        off <= u64::MAX - 8,
    ensures
        r as int == align_up_spec(off as int, a as int),
        off <= r <= off + 7,
{
    if a <= 1 {
        off
    } else {
        let rem = off % a;
        if rem == 0 {
            off
        } else {
            off + (a - rem)
        }
    }
}

pub open spec fn builtin_sa(b: BuiltinType) -> (int, int) {
    match b {
        BuiltinType::U8 | BuiltinType::S8 => (1, 1),
        BuiltinType::U16 | BuiltinType::S16 => (2, 2),
        BuiltinType::U32 | BuiltinType::S32 | BuiltinType::F32 | BuiltinType::Char
            | BuiltinType::Usize => (4, 4),
        BuiltinType::U64 | BuiltinType::S64 | BuiltinType::F64 => (8, 8),
    }
}

pub open spec fn repr_sa(r: IntRepr) -> (int, int) {
    match r {
        IntRepr::U8 => (1, 1),
        IntRepr::U16 => (2, 2),
        IntRepr::U32 => (4, 4),
        IntRepr::U64 => (8, 8),
    }
}

/// Size and alignment of the type `t` refers to. Unresolvable references are
/// given the empty layout; `ok_tref` says when that cannot happen.
pub open spec fn sa_tref(doc: Document, t: TypeRef, bound: nat) -> (int, int)
    decreases bound, t, 0int,
{
    match t {
        TypeRef::Value(td) => sa_td(doc, *td, bound),
        TypeRef::Name(j) => if j < bound && j < doc.types.len() {
            sa_tref(doc, doc.types[j as int].tref, j as nat)
        } else {
            (0, 1)
        },
    }
}

pub open spec fn sa_td(doc: Document, td: TypeDef, bound: nat) -> (int, int)
    decreases bound, td, 0int,
{
    match td {
        TypeDef::Builtin(b) => builtin_sa(b),
        TypeDef::Handle => (4, 4),
        TypeDef::Pointer { .. } => (4, 4),
        TypeDef::List(_) => (8, 4),
        TypeDef::Record(r) => sa_record(doc, r, bound),
        TypeDef::Variant(v) => sa_variant(doc, v, bound),
    }
}

/// The running (size, align) after the first `i` members, before any final
/// rounding: each member is placed at the next offset aligned for it.
pub open spec fn sa_members(doc: Document, ms: Vec<RecordMember>, i: int, bound: nat) -> (
    int,
    int,
)
    decreases bound, ms, i,
{
    if i <= 0 || i > ms.len() {
        (0, 0)
    } else {
        let prev = sa_members(doc, ms, i - 1, bound);
        let m = sa_tref(doc, ms[i - 1].tref, bound);
        (align_up_spec(prev.0, m.1) + m.0, max2(prev.1, m.1))
    }
}

/// The byte offset of member `i`.
pub open spec fn member_offset(doc: Document, ms: Vec<RecordMember>, i: int, bound: nat) -> int {
    align_up_spec(sa_members(doc, ms, i, bound).0, sa_tref(doc, ms[i].tref, bound).1)
}

pub open spec fn sa_record(doc: Document, r: RecordType, bound: nat) -> (int, int)
    decreases bound, r, 0int,
{
    match r.kind {
        RecordKind::Bitflags(rep) => repr_sa(rep),
        _ => {
            let f = sa_members(doc, r.members, r.members.len() as int, bound);
            let a = max2(f.1, 1);
            (align_up_spec(f.0, a), a)
        },
    }
}

/// The widest payload over the first `i` cases: (max size, max alignment).
pub open spec fn var_max(doc: Document, cs: Vec<VariantCase>, i: int, bound: nat) -> (int, int)
    decreases bound, cs, i,
{
    if i <= 0 || i > cs.len() {
        (0, 1)
    } else {
        let prev = var_max(doc, cs, i - 1, bound);
        match cs[i - 1].tref {
            None => prev,
            Some(t) => {
                let p = sa_tref(doc, t, bound);
                (max2(prev.0, p.0), max2(prev.1, p.1))
            },
        }
    }
}

/// Offset of the payload region: the first offset at or after the tag that
/// is aligned for the widest payload.
pub open spec fn variant_payload_offset(doc: Document, v: VariantType, bound: nat) -> int {
    let tag = repr_sa(spec_tag_repr(v.cases.len() as nat));
    let pm = var_max(doc, v.cases, v.cases.len() as int, bound);
    align_up_spec(tag.0, pm.1)
}

pub open spec fn sa_variant(doc: Document, v: VariantType, bound: nat) -> (int, int)
    decreases bound, v, 0int,
{
    let tag = repr_sa(spec_tag_repr(v.cases.len() as nat));
    let pm = var_max(doc, v.cases, v.cases.len() as int, bound);
    let po = align_up_spec(tag.0, pm.1);
    let oa = max2(tag.1, pm.1);
    (align_up_spec(po + pm.0, oa), oa)
}

/// When layout computation succeeds: every reference resolves and every
/// accumulated size stays within the target address space.
pub open spec fn ok_tref(doc: Document, t: TypeRef, bound: nat) -> bool
    decreases bound, t, 0int,
{
    match t {
        TypeRef::Value(td) => ok_td(doc, *td, bound),
        TypeRef::Name(j) => j < bound && j < doc.types.len() && ok_tref(
            doc,
            doc.types[j as int].tref,
            j as nat,
        ),
    }
}

pub open spec fn ok_td(doc: Document, td: TypeDef, bound: nat) -> bool
    decreases bound, td, 0int,
{
    match td {
        TypeDef::Builtin(_) => true,
        TypeDef::Handle => true,
        TypeDef::Pointer { .. } => true,
        TypeDef::List(_) => true,
        TypeDef::Record(r) => ok_record(doc, r, bound),
        TypeDef::Variant(v) => ok_variant(doc, v, bound),
    }
}

pub open spec fn ok_members(doc: Document, ms: Vec<RecordMember>, i: int, bound: nat) -> bool
    decreases bound, ms, i,
{
    if i <= 0 || i > ms.len() {
        true
    } else {
        &&& ok_members(doc, ms, i - 1, bound)
        &&& ok_tref(doc, ms[i - 1].tref, bound)
        &&& sa_members(doc, ms, i, bound).0 <= MAX_LAYOUT_SIZE
    }
}

pub open spec fn ok_record(doc: Document, r: RecordType, bound: nat) -> bool
    decreases bound, r, 0int,
{
    match r.kind {
        RecordKind::Bitflags(_) => true,
        _ => ok_members(doc, r.members, r.members.len() as int, bound) && sa_record(
            doc,
            r,
            bound,
        ).0 <= MAX_LAYOUT_SIZE,
    }
}

pub open spec fn ok_cases(doc: Document, cs: Vec<VariantCase>, i: int, bound: nat) -> bool
    decreases bound, cs, i,
{
    if i <= 0 || i > cs.len() {
        true
    } else {
        &&& ok_cases(doc, cs, i - 1, bound)
        &&& match cs[i - 1].tref {
            None => true,
            Some(t) => ok_tref(doc, t, bound),
        }
    }
}

pub open spec fn ok_variant(doc: Document, v: VariantType, bound: nat) -> bool
    decreases bound, v, 0int,
{
    ok_cases(doc, v.cases, v.cases.len() as int, bound) && sa_variant(doc, v, bound).0
        <= MAX_LAYOUT_SIZE
}

proof fn lemma_ok_members_mono(doc: Document, ms: Vec<RecordMember>, i: int, k: int, bound: nat)
    requires
        0 <= i <= k <= ms.len(),
        !ok_members(doc, ms, i, bound),
    ensures
        !ok_members(doc, ms, k, bound),
    decreases k,
{
    if k > i {
        lemma_ok_members_mono(doc, ms, i, k - 1, bound);
    }
}

/// Success of the whole member fold carries down to every prefix.
pub proof fn lemma_ok_members_down(doc: Document, ms: Vec<RecordMember>, i: int, k: int, bound: nat)
    requires
        0 <= i <= k <= ms.len(),
        ok_members(doc, ms, k, bound),
    ensures
        ok_members(doc, ms, i, bound),
    decreases k,
{
    if k > i {
        lemma_ok_members_down(doc, ms, i, k - 1, bound);
    }
}

/// Success of the whole case fold carries down to every prefix.
pub proof fn lemma_ok_cases_down(doc: Document, cs: Vec<VariantCase>, i: int, k: int, bound: nat)
    requires
        0 <= i <= k <= cs.len(),
        ok_cases(doc, cs, k, bound),
    ensures
        ok_cases(doc, cs, i, bound),
    decreases k,
{
    if k > i {
        lemma_ok_cases_down(doc, cs, i, k - 1, bound);
    }
}

proof fn lemma_ok_cases_mono(doc: Document, cs: Vec<VariantCase>, i: int, k: int, bound: nat)
    requires
        0 <= i <= k <= cs.len(),
        !ok_cases(doc, cs, i, bound),
    ensures
        !ok_cases(doc, cs, k, bound),
    decreases k,
{
    if k > i {
        lemma_ok_cases_mono(doc, cs, i, k - 1, bound);
    }
}

/// Every computed alignment is at least one byte and at most eight.
pub proof fn lemma_sa_align_range(doc: Document, t: TypeRef, bound: nat)
    ensures
        1 <= sa_tref(doc, t, bound).1 <= 8,
    decreases bound, t, 0int,
{
    match t {
        TypeRef::Value(td) => {
            lemma_sa_td_align_range(doc, *td, bound);
        },
        TypeRef::Name(j) => {
            if j < bound && j < doc.types.len() {
                lemma_sa_align_range(doc, doc.types[j as int].tref, j as nat);
            }
        },
    }
}

proof fn lemma_sa_td_align_range(doc: Document, td: TypeDef, bound: nat)
    ensures
        1 <= sa_td(doc, td, bound).1 <= 8,
    decreases bound, td, 0int,
{
    match td {
        TypeDef::Record(r) => {
            match r.kind {
                RecordKind::Bitflags(_) => {},
                _ => {
                    lemma_sa_members_align_range(doc, r.members, r.members.len() as int, bound);
                },
            }
        },
        TypeDef::Variant(v) => {
            lemma_var_max_align_range(doc, v.cases, v.cases.len() as int, bound);
        },
        _ => {},
    }
}

proof fn lemma_sa_members_align_range(doc: Document, ms: Vec<RecordMember>, i: int, bound: nat)
    ensures
        0 <= sa_members(doc, ms, i, bound).1 <= 8,
    decreases bound, ms, i,
{
    if 0 < i <= ms.len() {
        lemma_sa_members_align_range(doc, ms, i - 1, bound);
        lemma_sa_align_range(doc, ms[i - 1].tref, bound);
    }
}

proof fn lemma_var_max_align_range(doc: Document, cs: Vec<VariantCase>, i: int, bound: nat)
    ensures
        1 <= var_max(doc, cs, i, bound).1 <= 8,
    decreases bound, cs, i,
{
    if 0 < i <= cs.len() {
        lemma_var_max_align_range(doc, cs, i - 1, bound);
        match cs[i - 1].tref {
            None => {},
            Some(t) => {
                lemma_sa_align_range(doc, t, bound);
            },
        }
    }
}

/// Sizes are never negative.
pub proof fn lemma_sa_size_nonneg(doc: Document, t: TypeRef, bound: nat)
    ensures
        sa_tref(doc, t, bound).0 >= 0,
    decreases bound, t, 0int,
{
    match t {
        TypeRef::Value(td) => {
            lemma_sa_td_size_nonneg(doc, *td, bound);
        },
        TypeRef::Name(j) => {
            if j < bound && j < doc.types.len() {
                lemma_sa_size_nonneg(doc, doc.types[j as int].tref, j as nat);
            }
        },
    }
}

proof fn lemma_sa_td_size_nonneg(doc: Document, td: TypeDef, bound: nat)
    ensures
        sa_td(doc, td, bound).0 >= 0,
    decreases bound, td, 0int,
{
    match td {
        TypeDef::Record(r) => {
            match r.kind {
                RecordKind::Bitflags(_) => {},
                _ => {
                    lemma_sa_members_size_nonneg(doc, r.members, r.members.len() as int, bound);
                    lemma_sa_members_align_range(doc, r.members, r.members.len() as int, bound);
                    let f = sa_members(doc, r.members, r.members.len() as int, bound);
                    lemma_align_up(f.0, max2(f.1, 1));
                },
            }
        },
        TypeDef::Variant(v) => {
            lemma_var_max_size_nonneg(doc, v.cases, v.cases.len() as int, bound);
            lemma_var_max_align_range(doc, v.cases, v.cases.len() as int, bound);
            let tag = repr_sa(spec_tag_repr(v.cases.len() as nat));
            let pm = var_max(doc, v.cases, v.cases.len() as int, bound);
            lemma_align_up(tag.0, pm.1);
            let po = align_up_spec(tag.0, pm.1);
            lemma_align_up(po + pm.0, max2(tag.1, pm.1));
        },
        _ => {},
    }
}

proof fn lemma_sa_members_size_nonneg(doc: Document, ms: Vec<RecordMember>, i: int, bound: nat)
    ensures
        sa_members(doc, ms, i, bound).0 >= 0,
    decreases bound, ms, i,
{
    if 0 < i <= ms.len() {
        lemma_sa_members_size_nonneg(doc, ms, i - 1, bound);
        lemma_sa_size_nonneg(doc, ms[i - 1].tref, bound);
        lemma_sa_align_range(doc, ms[i - 1].tref, bound);
        let prev = sa_members(doc, ms, i - 1, bound);
        let m = sa_tref(doc, ms[i - 1].tref, bound);
        lemma_align_up(prev.0, m.1);
    }
}

proof fn lemma_var_max_size_nonneg(doc: Document, cs: Vec<VariantCase>, i: int, bound: nat)
    ensures
        var_max(doc, cs, i, bound).0 >= 0,
    decreases bound, cs, i,
{
    if 0 < i <= cs.len() {
        lemma_var_max_size_nonneg(doc, cs, i - 1, bound);
        match cs[i - 1].tref {
            None => {},
            Some(t) => {
                lemma_sa_size_nonneg(doc, t, bound);
            },
        }
    }
}

pub fn builtin_layout(b: &BuiltinType) -> (r: SizeAlign)
    ensures
        r.size as int == builtin_sa(*b).0,
        r.align as int == builtin_sa(*b).1,
{
    match b {
        BuiltinType::U8 | BuiltinType::S8 => SizeAlign { size: 1, align: 1 },
        BuiltinType::U16 | BuiltinType::S16 => SizeAlign { size: 2, align: 2 },
        BuiltinType::U32 | BuiltinType::S32 | BuiltinType::F32 | BuiltinType::Char
            | BuiltinType::Usize => SizeAlign { size: 4, align: 4 },
        BuiltinType::U64 | BuiltinType::S64 | BuiltinType::F64 => SizeAlign { size: 8, align: 8 },
    }
}

pub fn repr_layout(r: &IntRepr) -> (s: SizeAlign)
    ensures
        s.size as int == repr_sa(*r).0,
        s.align as int == repr_sa(*r).1,
{
    match r {
        IntRepr::U8 => SizeAlign { size: 1, align: 1 },
        IntRepr::U16 => SizeAlign { size: 2, align: 2 },
        IntRepr::U32 => SizeAlign { size: 4, align: 4 },
        IntRepr::U64 => SizeAlign { size: 8, align: 8 },
    }
}

/// Size and alignment of the type `t` refers to, following aliases below
/// `bound` only. Fails exactly when a reference does not resolve or a layout
/// leaves the target address space.
pub fn tref_layout(doc: &Document, t: &TypeRef, bound: usize) -> (r: Result<SizeAlign, Error>)
    requires
        bound <= doc.types.len(),
    ensures
        match r {
            Ok(sa) => {
                &&& ok_tref(*doc, *t, bound as nat)
                &&& sa.size as int == sa_tref(*doc, *t, bound as nat).0
                &&& sa.align as int == sa_tref(*doc, *t, bound as nat).1
                &&& sa.size <= MAX_LAYOUT_SIZE
                &&& 1 <= sa.align <= 8
            },
            Err(e) => !ok_tref(*doc, *t, bound as nat) && e == Error::MalformedInput,
        },
    decreases bound, *t,
{
    match t {
        TypeRef::Value(td) => td_layout(doc, &**td, bound),
        TypeRef::Name(j) => {
            if *j >= bound {
                return Err(Error::MalformedInput);
            }
            let nt: &crate::model::NamedType = &doc.types[*j];
            tref_layout(doc, &nt.tref, *j)
        },
    }
}

pub fn td_layout(doc: &Document, td: &TypeDef, bound: usize) -> (r: Result<SizeAlign, Error>)
    requires
        bound <= doc.types.len(),
    ensures
        match r {
            Ok(sa) => {
                &&& ok_td(*doc, *td, bound as nat)
                &&& sa.size as int == sa_td(*doc, *td, bound as nat).0
                &&& sa.align as int == sa_td(*doc, *td, bound as nat).1
                &&& sa.size <= MAX_LAYOUT_SIZE
                &&& 1 <= sa.align <= 8
            },
            Err(e) => !ok_td(*doc, *td, bound as nat) && e == Error::MalformedInput,
        },
    decreases bound, *td,
{
    match td {
        TypeDef::Builtin(b) => Ok(builtin_layout(b)),
        TypeDef::Handle => Ok(SizeAlign { size: 4, align: 4 }),
        TypeDef::Pointer { .. } => Ok(SizeAlign { size: 4, align: 4 }),
        TypeDef::List(_) => Ok(SizeAlign { size: 8, align: 4 }),
        TypeDef::Record(r) => {
            match record_layout(doc, r, bound) {
                Ok(rl) => Ok(SizeAlign { size: rl.size, align: rl.align }),
                Err(e) => Err(e),
            }
        },
        TypeDef::Variant(v) => {
            match variant_layout(doc, v, bound) {
                Ok(vl) => Ok(SizeAlign { size: vl.size, align: vl.align }),
                Err(e) => Err(e),
            }
        },
    }
}

pub struct RecordLayout {
    pub size: u64,
    pub align: u64,
    pub offsets: Vec<u64>,
}

/// Layout of a record: members in declared order, each at the next offset
/// aligned for it, total size rounded up to the largest member alignment.
/// A bitflags record is laid out as its integer representation.
pub fn record_layout(doc: &Document, r: &RecordType, bound: usize) -> (res: Result<
    RecordLayout,
    Error,
>)
    requires
        bound <= doc.types.len(),
    ensures
        match res {
            Ok(rl) => {
                &&& ok_record(*doc, *r, bound as nat)
                &&& rl.size as int == sa_record(*doc, *r, bound as nat).0
                &&& rl.align as int == sa_record(*doc, *r, bound as nat).1
                &&& rl.size <= MAX_LAYOUT_SIZE
                &&& 1 <= rl.align <= 8
                &&& !(r.kind is Bitflags) ==> {
                    &&& rl.offsets.len() == r.members.len()
                    &&& forall|i: int|
                        0 <= i < r.members.len() ==> #[trigger] rl.offsets[i] as int
                            == member_offset(*doc, r.members, i, bound as nat)
                }
            },
            Err(e) => !ok_record(*doc, *r, bound as nat) && e == Error::MalformedInput,
        },
    decreases bound, *r,
{
    match &r.kind {
        RecordKind::Bitflags(rep) => {
            let sa = repr_layout(rep);
            return Ok(RecordLayout { size: sa.size, align: sa.align, offsets: Vec::new() });
        },
        _ => {},
    }
    proof {
        assert(!(r.kind is Bitflags));
    }
    let ghost gdoc = *doc;
    let ghost gms = r.members;
    let ghost gbound = bound as nat;
    let n = r.members.len();
    let mut size: u64 = 0;
    let mut align: u64 = 0;
    let mut offsets: Vec<u64> = Vec::new();
    let mut i: usize = 0;
    while i < n
        invariant
            bound <= doc.types.len(),
            gdoc == *doc,
            gms == r.members,
            gbound == bound as nat,
            n == r.members.len(),
            !(r.kind is Bitflags),
            i <= n,
            ok_members(gdoc, gms, i as int, gbound),
            size as int == sa_members(gdoc, gms, i as int, gbound).0,
            align as int == sa_members(gdoc, gms, i as int, gbound).1,
            size <= MAX_LAYOUT_SIZE,
            align <= 8,
            offsets.len() == i,
            forall|k: int|
                0 <= k < i ==> #[trigger] offsets[k] as int == member_offset(gdoc, gms, k, gbound),
        decreases n - i,
    {
        let m: &RecordMember = &r.members[i];
        let m_sa = match tref_layout(doc, &m.tref, bound) {
            Ok(sa) => sa,
            Err(e) => {
                proof {
                    assert(!ok_members(gdoc, gms, i as int + 1, gbound));
                    lemma_ok_members_mono(gdoc, gms, i as int + 1, n as int, gbound);
                }
                return Err(Error::MalformedInput);
            },
        };
        let off = align_up(size, m_sa.align);
        let new_size = off + m_sa.size;
        if new_size > MAX_LAYOUT_SIZE {
            proof {
                assert(!ok_members(gdoc, gms, i as int + 1, gbound));
                lemma_ok_members_mono(gdoc, gms, i as int + 1, n as int, gbound);
            }
            return Err(Error::MalformedInput);
        }
        offsets.push(off);
        size = new_size;
        if m_sa.align > align {
            align = m_sa.align;
        }
        i = i + 1;
    }
    let fin_align = if align < 1 {
        1
    } else {
        align
    };
    let total = align_up(size, fin_align);
    if total > MAX_LAYOUT_SIZE {
        return Err(Error::MalformedInput);
    }
    Ok(RecordLayout { size: total, align: fin_align, offsets })
}

pub struct VariantLayout {
    pub tag_repr: IntRepr,
    pub tag_size: u64,
    pub payload_offset: u64,
    pub size: u64,
    pub align: u64,
}

/// Layout of a tagged variant: the tag at the front, the payload region at
/// the first aligned offset after it, the whole rounded to the overall
/// alignment.
pub fn variant_layout(doc: &Document, v: &VariantType, bound: usize) -> (res: Result<
    VariantLayout,
    Error,
>)
    requires
        bound <= doc.types.len(),
    ensures
        match res {
            Ok(vl) => {
                &&& ok_variant(*doc, *v, bound as nat)
                &&& vl.tag_repr == spec_tag_repr(v.cases.len() as nat)
                &&& vl.tag_size as int == repr_sa(vl.tag_repr).0
                &&& vl.payload_offset as int == variant_payload_offset(*doc, *v, bound as nat)
                &&& vl.size as int == sa_variant(*doc, *v, bound as nat).0
                &&& vl.align as int == sa_variant(*doc, *v, bound as nat).1
                &&& vl.tag_size <= vl.payload_offset <= vl.size
                &&& vl.size <= MAX_LAYOUT_SIZE
                &&& 1 <= vl.align <= 8
            },
            Err(e) => !ok_variant(*doc, *v, bound as nat) && e == Error::MalformedInput,
        },
    decreases bound, *v,
{
    let ghost gdoc = *doc;
    let ghost gcs = v.cases;
    let ghost gbound = bound as nat;
    let n = v.cases.len();
    let mut pmax_size: u64 = 0;
    let mut pmax_align: u64 = 1;
    let mut i: usize = 0;
    while i < n
        invariant
            bound <= doc.types.len(),
            gdoc == *doc,
            gcs == v.cases,
            gbound == bound as nat,
            n == v.cases.len(),
            i <= n,
            ok_cases(gdoc, gcs, i as int, gbound),
            pmax_size as int == var_max(gdoc, gcs, i as int, gbound).0,
            pmax_align as int == var_max(gdoc, gcs, i as int, gbound).1,
            pmax_size <= MAX_LAYOUT_SIZE,
            1 <= pmax_align <= 8,
        decreases n - i,
    {
        let c: &VariantCase = &v.cases[i];
        match &c.tref {
            None => {},
            Some(t) => {
                let p_sa = match tref_layout(doc, t, bound) {
                    Ok(sa) => sa,
                    Err(e) => {
                        proof {
                            assert(!ok_cases(gdoc, gcs, i as int + 1, gbound));
                            lemma_ok_cases_mono(gdoc, gcs, i as int + 1, n as int, gbound);
                        }
                        return Err(Error::MalformedInput);
                    },
                };
                if p_sa.size > pmax_size {
                    pmax_size = p_sa.size;
                }
                if p_sa.align > pmax_align {
                    pmax_align = p_sa.align;
                }
            },
        }
        i = i + 1;
    }
    let tag_repr = tag_repr_for(n);
    let tag = repr_layout(&tag_repr);
    let po = align_up(tag.size, pmax_align);
    let oa = if tag.align > pmax_align {
        tag.align
    } else {
        pmax_align
    };
    let total = align_up(po + pmax_size, oa);
    if total > MAX_LAYOUT_SIZE {
        return Err(Error::MalformedInput);
    }
    proof {
        lemma_align_up(po as int + pmax_size as int, oa as int);
    }
    Ok(VariantLayout { tag_repr, tag_size: tag.size, payload_offset: po, size: total, align: oa })
}

/// The sum of a sequence of byte counts.
pub open spec fn sum_ints(s: Seq<int>) -> int
    decreases s.len(),
{
    if s.len() == 0 {
        0
    } else {
        s[0] + sum_ints(s.skip(1))
    }
}

/// The widest padding field that may stand at `off` within `gap` free bytes:
/// it must not outrun the gap, and it must itself be naturally aligned.
pub open spec fn pad_width_at(off: int, gap: int) -> int {
    if off % 8 == 0 && gap >= 8 {
        8
    } else if off % 4 == 0 && gap >= 4 {
        4
    } else if off % 2 == 0 && gap >= 2 {
        2
    } else {
        1
    }
}

/// The greedy decomposition of a `gap`-byte hole starting at `off` into
/// naturally aligned padding fields of 8, 4, 2 or 1 bytes.
pub open spec fn pad_widths(off: int, gap: int) -> Seq<int>
    decreases gap,
{
    if gap <= 0 {
        Seq::empty()
    } else {
        let w = pad_width_at(off, gap);
        seq![w] + pad_widths(off + w, gap - w)
    }
}

/// The padding fields cover the hole exactly.
pub proof fn lemma_pad_widths_sum(off: int, gap: int)
    requires
        gap >= 0,
    ensures
        sum_ints(pad_widths(off, gap)) == gap,
    decreases gap,
{
    if gap > 0 {
        let w = pad_width_at(off, gap);
        lemma_pad_widths_sum(off + w, gap - w);
        let s = pad_widths(off, gap);
        assert(s.skip(1) =~= pad_widths(off + w, gap - w));
    }
}

/// Layout soundness, sizes: whatever the type, its computed size is a
/// multiple of its computed alignment.
pub proof fn lemma_size_divides_align(doc: Document, t: TypeRef, bound: nat)
    ensures
        sa_tref(doc, t, bound).1 >= 1,
        sa_tref(doc, t, bound).0 % sa_tref(doc, t, bound).1 == 0,
    decreases bound, t, 0int,
{
    match t {
        TypeRef::Value(td) => {
            lemma_td_size_divides_align(doc, *td, bound);
        },
        TypeRef::Name(j) => {
            if j < bound && j < doc.types.len() {
                lemma_size_divides_align(doc, doc.types[j as int].tref, j as nat);
            }
        },
    }
}

proof fn lemma_td_size_divides_align(doc: Document, td: TypeDef, bound: nat)
    ensures
        sa_td(doc, td, bound).1 >= 1,
        sa_td(doc, td, bound).0 % sa_td(doc, td, bound).1 == 0,
    decreases bound, td, 0int,
{
    match td {
        TypeDef::Record(r) => {
            match r.kind {
                RecordKind::Bitflags(_) => {},
                _ => {
                    let n = r.members.len() as int;
                    lemma_sa_members_size_nonneg(doc, r.members, n, bound);
                    lemma_sa_members_align_range(doc, r.members, n, bound);
                    let f = sa_members(doc, r.members, n, bound);
                    lemma_align_up(f.0, max2(f.1, 1));
                },
            }
        },
        TypeDef::Variant(v) => {
            let n = v.cases.len() as int;
            lemma_var_max_size_nonneg(doc, v.cases, n, bound);
            lemma_var_max_align_range(doc, v.cases, n, bound);
            let tag = repr_sa(spec_tag_repr(v.cases.len() as nat));
            let pm = var_max(doc, v.cases, n, bound);
            lemma_align_up(tag.0, pm.1);
            let po = align_up_spec(tag.0, pm.1);
            lemma_align_up(po + pm.0, max2(tag.1, pm.1));
        },
        TypeDef::Builtin(b) => {
            assert(sa_td(doc, td, bound) == builtin_sa(b));
            assert(sa_td(doc, td, bound).0 % sa_td(doc, td, bound).1 == 0);
        },
        TypeDef::Handle => {
            assert(sa_td(doc, td, bound) == (4int, 4int));
            assert(sa_td(doc, td, bound).0 % sa_td(doc, td, bound).1 == 0);
        },
        TypeDef::Pointer { .. } => {
            assert(sa_td(doc, td, bound) == (4int, 4int));
            assert(sa_td(doc, td, bound).0 % sa_td(doc, td, bound).1 == 0);
        },
        TypeDef::List(_) => {
            assert(sa_td(doc, td, bound) == (8int, 4int));
            assert(sa_td(doc, td, bound).0 % sa_td(doc, td, bound).1 == 0);
        },
    }
}

/// Layout soundness, records: every member sits at an offset aligned for
/// it, at or after the end of the previous member; the space before it is
/// exactly the emitted padding; and the rounded total covers the last
/// member.
pub proof fn lemma_record_layout_sound(doc: Document, r: RecordType, bound: nat)
    ensures
        forall|i: int|
            0 <= i < r.members.len() ==> #[trigger] member_offset(doc, r.members, i, bound)
                % sa_tref(doc, r.members[i].tref, bound).1 == 0,
        forall|i: int|
            0 <= i < r.members.len() ==> sa_members(doc, r.members, i, bound).0
                <= #[trigger] member_offset(doc, r.members, i, bound),
        forall|i: int|
            0 <= i < r.members.len() ==> #[trigger] member_offset(doc, r.members, i, bound)
                + sa_tref(doc, r.members[i].tref, bound).0 == sa_members(doc, r.members, i + 1,
                bound).0,
        forall|i: int|
            0 <= i < r.members.len() ==> sum_ints(
                pad_widths(
                    sa_members(doc, r.members, i, bound).0,
                    #[trigger] member_offset(doc, r.members, i, bound) - sa_members(doc, r.members,
                        i, bound).0,
                ),
            ) == member_offset(doc, r.members, i, bound) - sa_members(doc, r.members, i, bound).0,
        !(r.kind is Bitflags) ==> sa_members(doc, r.members, r.members.len() as int, bound).0
            <= sa_record(doc, r, bound).0,
        !(r.kind is Bitflags) ==> sum_ints(
            pad_widths(
                sa_members(doc, r.members, r.members.len() as int, bound).0,
                sa_record(doc, r, bound).0 - sa_members(doc, r.members, r.members.len() as int,
                    bound).0,
            ),
        ) == sa_record(doc, r, bound).0 - sa_members(doc, r.members, r.members.len() as int,
            bound).0,
{
    assert forall|i: int| 0 <= i < r.members.len() implies {
        &&& #[trigger] member_offset(doc, r.members, i, bound) % sa_tref(doc, r.members[i].tref,
            bound).1 == 0
        &&& sa_members(doc, r.members, i, bound).0 <= member_offset(doc, r.members, i, bound)
        &&& member_offset(doc, r.members, i, bound) + sa_tref(doc, r.members[i].tref, bound).0
            == sa_members(doc, r.members, i + 1, bound).0
        &&& sum_ints(
            pad_widths(
                sa_members(doc, r.members, i, bound).0,
                member_offset(doc, r.members, i, bound) - sa_members(doc, r.members, i, bound).0,
            ),
        ) == member_offset(doc, r.members, i, bound) - sa_members(doc, r.members, i, bound).0
    } by {
        lemma_sa_members_size_nonneg(doc, r.members, i, bound);
        lemma_sa_align_range(doc, r.members[i].tref, bound);
        lemma_align_up(sa_members(doc, r.members, i, bound).0, sa_tref(doc, r.members[i].tref,
            bound).1);
        lemma_pad_widths_sum(
            sa_members(doc, r.members, i, bound).0,
            member_offset(doc, r.members, i, bound) - sa_members(doc, r.members, i, bound).0,
        );
    }
    if !(r.kind is Bitflags) {
        let n = r.members.len() as int;
        lemma_sa_members_size_nonneg(doc, r.members, n, bound);
        lemma_sa_members_align_range(doc, r.members, n, bound);
        let f = sa_members(doc, r.members, n, bound);
        lemma_align_up(f.0, max2(f.1, 1));
        lemma_pad_widths_sum(f.0, sa_record(doc, r, bound).0 - f.0);
    }
}

/// Layout soundness, variants: the payload region starts at or after the
/// tag, aligned for the widest payload; every payload fits before the
/// rounded total; and the tag plus the emitted padding fields cover the
/// whole structure exactly.
pub proof fn lemma_variant_layout_sound(doc: Document, v: VariantType, bound: nat)
    ensures
        repr_sa(spec_tag_repr(v.cases.len() as nat)).0 <= variant_payload_offset(doc, v, bound),
        variant_payload_offset(doc, v, bound) % var_max(doc, v.cases, v.cases.len() as int,
            bound).1 == 0,
        variant_payload_offset(doc, v, bound) + var_max(doc, v.cases, v.cases.len() as int,
            bound).0 <= sa_variant(doc, v, bound).0,
        repr_sa(spec_tag_repr(v.cases.len() as nat)).0 + sum_ints(
            pad_widths(
                repr_sa(spec_tag_repr(v.cases.len() as nat)).0,
                sa_variant(doc, v, bound).0 - repr_sa(spec_tag_repr(v.cases.len() as nat)).0,
            ),
        ) == sa_variant(doc, v, bound).0,
{
    let n = v.cases.len() as int;
    lemma_var_max_size_nonneg(doc, v.cases, n, bound);
    lemma_var_max_align_range(doc, v.cases, n, bound);
    let tag = repr_sa(spec_tag_repr(v.cases.len() as nat));
    let pm = var_max(doc, v.cases, n, bound);
    lemma_align_up(tag.0, pm.1);
    let po = align_up_spec(tag.0, pm.1);
    lemma_align_up(po + pm.0, max2(tag.1, pm.1));
    lemma_pad_widths_sum(tag.0, sa_variant(doc, v, bound).0 - tag.0);
}

} // verus!
