//! The type model: a closed set of semantic type descriptors for an
//! interface document, with alias resolution.
//!
//! Named types may refer to earlier named types only; that order is the
//! well-formedness invariant that makes alias chains finite, and a document
//! that breaks it (for instance with a cyclic alias) is rejected before any
//! code is emitted.

use vstd::prelude::*;
use crate::error::Error;

verus! {

broadcast use vstd::std_specs::vec::axiom_vec_index_decreases;

#[derive(Clone, Copy, PartialEq, Eq, Structural, Debug)]
pub enum BuiltinType {
    U8,
    U16,
    U32,
    U64,
    S8,
    S16,
    S32,
    S64,
    F32,
    F64,
    Char,
    Usize,
}

#[derive(Clone, Copy, PartialEq, Eq, Structural, Debug)]
pub enum IntRepr {
    U8,
    U16,
    U32,
    U64,
}

#[derive(Clone, Copy, PartialEq, Eq, Structural, Debug)]
pub enum RecordKind {
    Tuple,
    Bitflags(IntRepr),
    Other,
}

pub struct RecordMember {
    pub name: String,
    pub tref: TypeRef,
    pub docs: String,
}

pub struct RecordType {
    pub kind: RecordKind,
    pub members: Vec<RecordMember>,
}

pub struct VariantCase {
    pub name: String,
    pub tref: Option<TypeRef>,
    pub docs: String,
}

pub struct VariantType {
    pub cases: Vec<VariantCase>,
}

pub enum TypeDef {
    Builtin(BuiltinType),
    Handle,
    Pointer { mutable: bool },
    List(TypeRef),
    Record(RecordType),
    Variant(VariantType),
}

/// A reference to a type: either an earlier named type, by position in the
/// document, or an anonymous concrete definition.
pub enum TypeRef {
    Name(usize),
    Value(Box<TypeDef>),
}

pub struct NamedType {
    pub name: String,
    pub tref: TypeRef,
    pub docs: String,
}

pub struct FuncParam {
    pub name: String,
    pub tref: TypeRef,
    pub docs: String,
}

pub struct InterfaceFunc {
    pub name: String,
    pub params: Vec<FuncParam>,
    pub results: Vec<FuncParam>,
    pub noreturn: bool,
    pub docs: String,
}

pub struct Module {
    pub name: String,
    pub funcs: Vec<InterfaceFunc>,
    pub docs: String,
}

pub struct Constant {
    pub ty: String,
    pub name: String,
    pub value: u64,
    pub docs: String,
}

pub struct Document {
    pub types: Vec<NamedType>,
    pub modules: Vec<Module>,
    pub constants: Vec<Constant>,
}

/// Every name mentioned in `t` points strictly below `bound`.
pub open spec fn wf_tref(t: TypeRef, bound: nat) -> bool
    decreases t,
{
    match t {
        TypeRef::Name(j) => j < bound,
        TypeRef::Value(td) => wf_td(*td, bound),
    }
}

pub open spec fn wf_td(td: TypeDef, bound: nat) -> bool
    decreases td,
{
    match td {
        TypeDef::Builtin(_) => true,
        TypeDef::Handle => true,
        TypeDef::Pointer { .. } => true,
        TypeDef::List(e) => wf_tref(e, bound),
        TypeDef::Record(r) => forall|i: int|
            0 <= i < r.members.len() ==> wf_tref(#[trigger] r.members[i].tref, bound),
        TypeDef::Variant(v) => forall|i: int|
            0 <= i < v.cases.len() ==> (match #[trigger] v.cases[i].tref {
                Some(t) => wf_tref(t, bound),
                None => true,
            }),
    }
}

pub open spec fn wf_func(f: InterfaceFunc, bound: nat) -> bool {
    &&& forall|i: int| 0 <= i < f.params.len() ==> wf_tref(#[trigger] f.params[i].tref, bound)
    &&& forall|i: int| 0 <= i < f.results.len() ==> wf_tref(#[trigger] f.results[i].tref, bound)
}

/// The document's well-formedness: every type reference resolves to an
/// earlier named type, so alias chains cannot cycle.
pub open spec fn wf_doc(doc: Document) -> bool {
    &&& forall|i: int|
        0 <= i < doc.types.len() ==> wf_tref(#[trigger] doc.types[i].tref, i as nat)
    &&& forall|m: int, f: int|
        0 <= m < doc.modules.len() && 0 <= f < doc.modules[m].funcs.len() ==> wf_func(
            #[trigger] doc.modules[m].funcs[f],
            doc.types.len() as nat,
        )
}

/// Follows alias references until a concrete definition is reached. `bound`
/// is an upper limit on the names that may be followed; a reference at or
/// above it does not resolve.
pub open spec fn leaf_spec(doc: Document, t: TypeRef, bound: nat) -> Option<TypeDef>
    decreases bound, t,
{
    match t {
        TypeRef::Value(td) => Some(*td),
        TypeRef::Name(j) => if j < bound && j < doc.types.len() {
            leaf_spec(doc, doc.types[j as int].tref, j as nat)
        } else {
            None
        },
    }
}

/// Alias resolution: in a well-formed document every non-cyclic alias chain
/// ends, after finitely many hops, in exactly one concrete definition.
pub proof fn lemma_leaf_resolves(doc: Document, t: TypeRef, bound: nat)
    requires
        wf_doc(doc),
        wf_tref(t, bound),
        bound <= doc.types.len(),
    ensures
        leaf_spec(doc, t, bound) is Some,
    decreases bound, t,
{
    match t {
        TypeRef::Value(td) => {},
        TypeRef::Name(j) => {
            assert(wf_tref(doc.types[j as int].tref, j as nat));
            lemma_leaf_resolves(doc, doc.types[j as int].tref, j as nat);
        },
    }
}

impl Document {
    /// Resolves `t` to its concrete definition, or reports a malformed
    /// document when a reference does not resolve.
    pub fn leaf<'a>(&'a self, t: &'a TypeRef) -> (r: Result<&'a TypeDef, Error>)
        ensures
            match r {
                Ok(td) => leaf_spec(*self, *t, self.types.len() as nat) == Some(*td),
                Err(e) => leaf_spec(*self, *t, self.types.len() as nat) is None
                    && e == Error::MalformedInput,
            },
    {
        let mut cur: &TypeRef = t;
        let mut cur_bound: usize = self.types.len();
        loop
            invariant
                cur_bound <= self.types.len(),
                leaf_spec(*self, *t, self.types.len() as nat) == leaf_spec(*self, *cur,
                    cur_bound as nat),
            decreases cur_bound,
        {
            match cur {
                TypeRef::Value(td) => {
                    return Ok(&**td);
                },
                TypeRef::Name(j) => {
                    if *j >= cur_bound {
                        return Err(Error::MalformedInput);
                    }
                    let nt: &NamedType = &self.types[*j];
                    cur = &nt.tref;
                    cur_bound = *j;
                },
            }
        }
    }
}

impl VariantType {
    /// Bool-like: exactly the two payload-free cases `false` then `true`.
    pub open spec fn spec_is_bool(&self) -> bool {
        &&& self.cases.len() == 2
        &&& self.cases[0].name@ == "false"@
        &&& self.cases[1].name@ == "true"@
        &&& self.cases[0].tref is None
        &&& self.cases[1].tref is None
    }

    pub fn is_bool(&self) -> (b: bool)
        ensures
            b == self.spec_is_bool(),
    {
        if self.cases.len() != 2 {
            return false;
        }
        let c0: &VariantCase = &self.cases[0];
        let c1: &VariantCase = &self.cases[1];
        c0.name == String::from_str("false") && c1.name == String::from_str("true")
            && c0.tref.is_none() && c1.tref.is_none()
    }

    /// Enum-like: no case carries a payload.
    pub open spec fn spec_is_enum(&self) -> bool {
        forall|i: int| 0 <= i < self.cases.len() ==> (#[trigger] self.cases[i].tref) is None
    }

    pub fn is_enum(&self) -> (b: bool)
        ensures
            b == self.spec_is_enum(),
    {
        let mut i: usize = 0;
        while i < self.cases.len()
            invariant
                i <= self.cases.len(),
                forall|k: int| 0 <= k < i ==> (#[trigger] self.cases[k].tref) is None,
            decreases self.cases.len() - i,
        {
            if self.cases[i].tref.is_some() {
                return false;
            }
            i = i + 1;
        }
        true
    }

    /// The conventional success/failure shape: exactly the cases `ok` then
    /// `err`, payloads optional.
    pub open spec fn spec_is_expected(&self) -> bool {
        &&& self.cases.len() == 2
        &&& self.cases[0].name@ == "ok"@
        &&& self.cases[1].name@ == "err"@
    }

    pub fn is_expected(&self) -> (b: bool)
        ensures
            b == self.spec_is_expected(),
    {
        if self.cases.len() != 2 {
            return false;
        }
        let c0: &VariantCase = &self.cases[0];
        let c1: &VariantCase = &self.cases[1];
        c0.name == String::from_str("ok") && c1.name == String::from_str("err")
    }
}

fn check_tref(t: &TypeRef, bound: usize) -> (b: bool)
    ensures
        b == wf_tref(*t, bound as nat),
    decreases *t, 0int,
{
    match t {
        TypeRef::Name(j) => *j < bound,
        TypeRef::Value(td) => check_td(&**td, bound),
    }
}

fn check_members(ms: &Vec<RecordMember>, i: usize, bound: usize) -> (b: bool)
    requires
        i <= ms.len(),
    ensures
        b == forall|k: int| i <= k < ms.len() ==> wf_tref(#[trigger] ms[k].tref, bound as nat),
    decreases *ms, ms.len() - i,
{
    if i == ms.len() {
        return true;
    }
    if !check_tref(&ms[i].tref, bound) {
        return false;
    }
    check_members(ms, i + 1, bound)
}

fn check_cases(cs: &Vec<VariantCase>, i: usize, bound: usize) -> (b: bool)
    requires
        i <= cs.len(),
    ensures
        b == forall|k: int|
            i <= k < cs.len() ==> (match #[trigger] cs[k].tref {
                Some(t) => wf_tref(t, bound as nat),
                None => true,
            }),
    decreases *cs, cs.len() - i,
{
    if i == cs.len() {
        return true;
    }
    match &cs[i].tref {
        Some(t) => {
            if !check_tref(t, bound) {
                return false;
            }
        },
        None => {},
    }
    check_cases(cs, i + 1, bound)
}

fn check_td(td: &TypeDef, bound: usize) -> (b: bool)
    ensures
        b == wf_td(*td, bound as nat),
    decreases *td, 0int,
{
    match td {
        TypeDef::Builtin(_) => true,
        TypeDef::Handle => true,
        TypeDef::Pointer { .. } => true,
        TypeDef::List(e) => check_tref(e, bound),
        TypeDef::Record(r) => check_members(&r.members, 0, bound),
        TypeDef::Variant(v) => check_cases(&v.cases, 0, bound),
    }
}

fn check_func(f: &InterfaceFunc, bound: usize) -> (b: bool)
    ensures
        b == wf_func(*f, bound as nat),
{
    let mut i: usize = 0;
    while i < f.params.len()
        invariant
            i <= f.params.len(),
            forall|k: int| 0 <= k < i ==> wf_tref(#[trigger] f.params[k].tref, bound as nat),
        decreases f.params.len() - i,
    {
        if !check_tref(&f.params[i].tref, bound) {
            return false;
        }
        i = i + 1;
    }
    let mut j: usize = 0;
    while j < f.results.len()
        invariant
            forall|k: int| 0 <= k < f.params.len() ==> wf_tref(#[trigger] f.params[k].tref,
                bound as nat),
            j <= f.results.len(),
            forall|k: int| 0 <= k < j ==> wf_tref(#[trigger] f.results[k].tref, bound as nat),
        decreases f.results.len() - j,
    {
        if !check_tref(&f.results[j].tref, bound) {
            return false;
        }
        j = j + 1;
    }
    true
}

impl Document {
    /// Semantic validation: every type reference names an earlier type, so
    /// every alias chain ends in a concrete definition. A document with a
    /// self-referencing or cyclic alias fails here, before anything is
    /// emitted.
    pub fn validate(&self) -> (b: bool)
        ensures
            b == wf_doc(*self),
    {
        let mut i: usize = 0;
        while i < self.types.len()
            invariant
                i <= self.types.len(),
                forall|k: int| 0 <= k < i ==> wf_tref(#[trigger] self.types[k].tref, k as nat),
            decreases self.types.len() - i,
        {
            if !check_tref(&self.types[i].tref, i) {
                return false;
            }
            i = i + 1;
        }
        let bound = self.types.len();
        let mut m: usize = 0;
        while m < self.modules.len()
            invariant
                bound == self.types.len(),
                forall|k: int| 0 <= k < self.types.len() ==> wf_tref(#[trigger] self.types[k].tref,
                    k as nat),
                m <= self.modules.len(),
                forall|a: int, b: int|
                    0 <= a < m && 0 <= b < self.modules[a].funcs.len() ==> wf_func(
                        #[trigger] self.modules[a].funcs[b],
                        bound as nat,
                    ),
            decreases self.modules.len() - m,
        {
            let md: &Module = &self.modules[m];
            let mut fidx: usize = 0;
            while fidx < md.funcs.len()
                invariant
                    bound == self.types.len(),
                    md == self.modules[m as int],
                    m < self.modules.len(),
                    fidx <= md.funcs.len(),
                    forall|a: int, b: int|
                        0 <= a < m && 0 <= b < self.modules[a].funcs.len() ==> wf_func(
                            #[trigger] self.modules[a].funcs[b],
                            bound as nat,
                        ),
                    forall|k: int| 0 <= k < fidx ==> wf_func(#[trigger] md.funcs[k], bound as nat),
                decreases md.funcs.len() - fidx,
            {
                if !check_func(&md.funcs[fidx], bound) {
                    return false;
                }
                fidx = fidx + 1;
            }
            m = m + 1;
        }
        true
    }
}

/// How many distinct tag values each representation can hold.
pub open spec fn repr_range(r: IntRepr) -> nat {
    match r {
        IntRepr::U8 => 0x100,
        IntRepr::U16 => 0x10000,
        IntRepr::U32 => 0x100000000,
        IntRepr::U64 => 0x10000000000000000,
    }
}

pub open spec fn repr_bits(r: IntRepr) -> nat {
    match r {
        IntRepr::U8 => 8,
        IntRepr::U16 => 16,
        IntRepr::U32 => 32,
        IntRepr::U64 => 64,
    }
}

pub open spec fn spec_tag_repr(n: nat) -> IntRepr {
    if n <= 0x100 {
        IntRepr::U8
    } else if n <= 0x10000 {
        IntRepr::U16
    } else if n <= 0x100000000 {
        IntRepr::U32
    } else {
        IntRepr::U64
    }
}

/// The tag representation for a variant of `n` cases: the smallest of the
/// four widths whose unsigned range covers every tag value.
pub fn tag_repr_for(n: usize) -> (r: IntRepr)
    ensures
        r == spec_tag_repr(n as nat),
{
    if n <= 0x100 {
        IntRepr::U8
    } else if n <= 0x10000 {
        IntRepr::U16
    } else if n as u64 <= 0x100000000u64 {
        IntRepr::U32
    } else {
        IntRepr::U64
    }
}

/// Tag width selection: the chosen representation covers the tag values
/// `0 .. n-1`, and no narrower representation does.
pub proof fn lemma_tag_width_minimal(n: nat)
    requires
        n <= 0x10000000000000000,
    ensures
        n <= repr_range(spec_tag_repr(n)),
        forall|r: IntRepr| n <= repr_range(r) ==> repr_bits(r) >= repr_bits(spec_tag_repr(n)),
{
    assert forall|r: IntRepr| n <= repr_range(r) implies repr_bits(r) >= repr_bits(
        spec_tag_repr(n),
    ) by {
        match r {
            IntRepr::U8 => {},
            IntRepr::U16 => {},
            IntRepr::U32 => {},
            IntRepr::U64 => {},
        }
    }
}

} // verus!
