//! The wire signature deriver: flattens a function's parameter and result
//! types into the ordered primitive types that cross the call boundary.
//!
//! Every parameter flattens to one wire value (two for a list: address and
//! length); composites pass the address of their memory block. If the
//! results flatten to more than one wire value, the first is returned
//! directly and each further one is written through a caller-allocated
//! output pointer passed as an extra parameter named after its source
//! result.

use vstd::prelude::*;
use vstd::string::StringExecFns;
use crate::error::Error;
use crate::idents::{snake_of, to_snake};
use crate::model::{
    BuiltinType, Document, FuncParam, IntRepr, InterfaceFunc, RecordKind, TypeDef, TypeRef,
    leaf_spec, spec_tag_repr,
};

verus! {

broadcast use vstd::std_specs::vec::axiom_vec_index_decreases;

#[derive(Clone, Copy, PartialEq, Eq, Structural, Debug)]
pub enum WasmType {
    I32,
    I64,
    F32,
    F64,
}

pub open spec fn wire_of_builtin(b: BuiltinType) -> WasmType {
    match b {
        BuiltinType::U64 | BuiltinType::S64 => WasmType::I64,
        BuiltinType::F32 => WasmType::F32,
        BuiltinType::F64 => WasmType::F64,
        _ => WasmType::I32,
    }
}

pub open spec fn wire_of_repr(r: IntRepr) -> WasmType {
    match r {
        IntRepr::U64 => WasmType::I64,
        _ => WasmType::I32,
    }
}

/// The wire values one parameter of concrete type `td` flattens to.
pub open spec fn param_wires_of(td: TypeDef) -> Seq<WasmType> {
    match td {
        TypeDef::Builtin(b) => seq![wire_of_builtin(b)],
        TypeDef::Handle => seq![WasmType::I32],
        TypeDef::Pointer { .. } => seq![WasmType::I32],
        TypeDef::Variant(_) => seq![WasmType::I32],
        TypeDef::Record(r) => match r.kind {
            RecordKind::Bitflags(rep) => seq![wire_of_repr(rep)],
            _ => seq![WasmType::I32],
        },
        TypeDef::List(_) => seq![WasmType::I32, WasmType::I32],
    }
}

/// The flat wire parameter list contributed by the first `i` parameters.
pub open spec fn params_wires(doc: Document, ps: Vec<FuncParam>, i: int) -> Seq<WasmType>
    decreases i,
{
    if i <= 0 || i > ps.len() {
        Seq::empty()
    } else {
        params_wires(doc, ps, i - 1) + (match leaf_spec(doc, ps[i - 1].tref, doc.types.len()
            as nat) {
            Some(td) => param_wires_of(td),
            None => Seq::empty(),
        })
    }
}

/// The named wire values one result of concrete type `td` flattens to. The
/// name ties each wire value back to the declared result it came from.
pub open spec fn result_pairs_of(name: Seq<char>, td: TypeDef) -> Seq<(Seq<char>, WasmType)> {
    match td {
        TypeDef::Builtin(b) => seq![(name, wire_of_builtin(b))],
        TypeDef::Handle => seq![(name, WasmType::I32)],
        TypeDef::Pointer { .. } => seq![(name, WasmType::I32)],
        TypeDef::Record(r) => match r.kind {
            RecordKind::Bitflags(rep) => seq![(name, wire_of_repr(rep))],
            _ => Seq::empty(),
        },
        TypeDef::Variant(v) => {
            let tag = (name, wire_of_repr(spec_tag_repr(v.cases.len() as nat)));
            if v.spec_is_enum() {
                seq![tag]
            } else if v.spec_is_expected() && v.cases[0].tref is Some {
                seq![tag, (name, WasmType::I32)]
            } else {
                seq![tag]
            }
        },
        TypeDef::List(_) => Seq::empty(),
    }
}

/// Whether one result of concrete type `td` is representable at the
/// boundary. Only the first declared result may be a success/failure
/// variant, since its payload slot already claims the output pointer named
/// after it; plain records and lists never come back across the boundary.
pub open spec fn result_shape_ok(td: TypeDef, first: bool) -> bool {
    match td {
        TypeDef::Builtin(_) => true,
        TypeDef::Handle => true,
        TypeDef::Pointer { .. } => true,
        TypeDef::Record(r) => r.kind is Bitflags,
        TypeDef::Variant(v) => v.spec_is_enum() || (first && v.spec_is_expected()),
        TypeDef::List(_) => false,
    }
}

/// The named wire values of the first `i` results.
pub open spec fn result_pairs(doc: Document, rs: Vec<FuncParam>, i: int) -> Seq<
    (Seq<char>, WasmType),
>
    decreases i,
{
    if i <= 0 || i > rs.len() {
        Seq::empty()
    } else {
        result_pairs(doc, rs, i - 1) + (match leaf_spec(doc, rs[i - 1].tref, doc.types.len()
            as nat) {
            Some(td) => result_pairs_of(rs[i - 1].name@, td),
            None => Seq::empty(),
        })
    }
}

/// The first failure while flattening the first `i` parameters.
pub open spec fn params_fail(doc: Document, ps: Vec<FuncParam>, i: int) -> Option<Error>
    decreases i,
{
    if i <= 0 || i > ps.len() {
        None
    } else {
        match params_fail(doc, ps, i - 1) {
            Some(e) => Some(e),
            None => match leaf_spec(doc, ps[i - 1].tref, doc.types.len() as nat) {
                None => Some(Error::MalformedInput),
                Some(_) => None,
            },
        }
    }
}

/// The first failure while flattening the first `i` results.
pub open spec fn results_fail(doc: Document, rs: Vec<FuncParam>, i: int) -> Option<Error>
    decreases i,
{
    if i <= 0 || i > rs.len() {
        None
    } else {
        match results_fail(doc, rs, i - 1) {
            Some(e) => Some(e),
            None => match leaf_spec(doc, rs[i - 1].tref, doc.types.len() as nat) {
                None => Some(Error::MalformedInput),
                Some(td) => if result_shape_ok(td, i - 1 == 0) {
                    None
                } else {
                    Some(Error::UnsupportedConstruct)
                },
            },
        }
    }
}

/// The first failure while deriving the signature, if any.
pub open spec fn sig_fail(doc: Document, f: InterfaceFunc) -> Option<Error> {
    match params_fail(doc, f.params, f.params.len() as int) {
        Some(e) => Some(e),
        None => results_fail(doc, f.results, f.results.len() as int),
    }
}

/// The directly returned wire type, if any. A function that never returns
/// has none.
pub open spec fn ret_spec(doc: Document, f: InterfaceFunc) -> Option<WasmType> {
    if f.noreturn {
        None
    } else {
        let pairs = result_pairs(doc, f.results, f.results.len() as int);
        if pairs.len() == 0 {
            None
        } else {
            Some(pairs[0].1)
        }
    }
}

/// The output-pointer parameter names, one per flattened result value after
/// the first: the source result's name in snake case with a pointer marker.
pub open spec fn out_ptrs_spec(doc: Document, f: InterfaceFunc) -> Seq<Seq<char>> {
    if f.noreturn {
        Seq::empty()
    } else {
        let pairs = result_pairs(doc, f.results, f.results.len() as int);
        if pairs.len() == 0 {
            Seq::empty()
        } else {
            pairs.skip(1).map_values(|p: (Seq<char>, WasmType)| snake_of(p.0) + "_ptr"@)
        }
    }
}

#[derive(Debug)]
pub struct WireSignature {
    pub params: Vec<WasmType>,
    pub out_ptrs: Vec<String>,
    pub ret: Option<WasmType>,
}

/// Derives the flat wire signature of `f`: lowered parameters in order, the
/// direct return, and the appended output-pointer parameters.
pub fn derive_signature(doc: &Document, f: &InterfaceFunc) -> (r: Result<WireSignature, Error>)
    ensures
        match r {
            Ok(ws) => {
                &&& sig_fail(*doc, *f) is None
                &&& ws.params@ == params_wires(*doc, f.params, f.params.len() as int)
                &&& ws.out_ptrs.deep_view() == out_ptrs_spec(*doc, *f)
                &&& ws.ret == ret_spec(*doc, *f)
            },
            Err(e) => sig_fail(*doc, *f) == Some(e),
        },
{
    let ghost gdoc = *doc;
    let mut params: Vec<WasmType> = Vec::new();
    let mut i: usize = 0;
    let np = f.params.len();
    while i < np
        invariant
            gdoc == *doc,
            np == f.params.len(),
            i <= np,
            params_fail(gdoc, f.params, i as int) is None,
            params@ == params_wires(gdoc, f.params, i as int),
        decreases np - i,
    {
        let p: &FuncParam = &f.params[i];
        let td = match doc.leaf(&p.tref) {
            Ok(td) => td,
            Err(e) => {
                proof {
                    assert(params_fail(gdoc, f.params, i as int + 1) == Some(
                        Error::MalformedInput,
                    ));
                    lemma_params_fail_mono(gdoc, f.params, i as int + 1, np as int);
                }
                return Err(Error::MalformedInput);
            },
        };
        match td {
            TypeDef::Builtin(b) => {
                params.push(wire_of_builtin_exec(b));
            },
            TypeDef::Handle => {
                params.push(WasmType::I32);
            },
            TypeDef::Pointer { .. } => {
                params.push(WasmType::I32);
            },
            TypeDef::Variant(_) => {
                params.push(WasmType::I32);
            },
            TypeDef::Record(r) => {
                match &r.kind {
                    RecordKind::Bitflags(rep) => {
                        params.push(wire_of_repr_exec(rep));
                    },
                    _ => {
                        params.push(WasmType::I32);
                    },
                }
            },
            TypeDef::List(_) => {
                params.push(WasmType::I32);
                params.push(WasmType::I32);
            },
        }
        i = i + 1;
        proof {
            assert(params@ =~= params_wires(gdoc, f.params, i as int));
        }
    }
    let ghost all_pairs = result_pairs(gdoc, f.results, f.results.len() as int);
    let mut pair_names: Vec<String> = Vec::new();
    let mut pair_wires: Vec<WasmType> = Vec::new();
    let mut j: usize = 0;
    let nr = f.results.len();
    while j < nr
        invariant
            gdoc == *doc,
            nr == f.results.len(),
            j <= nr,
            params_fail(gdoc, f.params, f.params.len() as int) is None,
            results_fail(gdoc, f.results, j as int) is None,
            pair_names.len() == pair_wires.len(),
            pair_names.deep_view().zip_with(pair_wires@) =~= result_pairs(gdoc, f.results,
                j as int),
        decreases nr - j,
    {
        let p: &FuncParam = &f.results[j];
        let td = match doc.leaf(&p.tref) {
            Ok(td) => td,
            Err(e) => {
                proof {
                    lemma_results_fail_mono(gdoc, f.results, j as int + 1, nr as int);
                }
                return Err(Error::MalformedInput);
            },
        };
        let shape_ok: bool = match td {
            TypeDef::Builtin(_) => true,
            TypeDef::Handle => true,
            TypeDef::Pointer { .. } => true,
            TypeDef::Record(r) => matches!(&r.kind, RecordKind::Bitflags(_)),
            TypeDef::Variant(v) => v.is_enum() || (j == 0 && v.is_expected()),
            TypeDef::List(_) => false,
        };
        if !shape_ok {
            proof {
                lemma_results_fail_mono(gdoc, f.results, j as int + 1, nr as int);
            }
            return Err(Error::UnsupportedConstruct);
        }
        match td {
            TypeDef::Builtin(b) => {
                pair_names.push(p.name.clone());
                pair_wires.push(wire_of_builtin_exec(b));
            },
            TypeDef::Handle => {
                pair_names.push(p.name.clone());
                pair_wires.push(WasmType::I32);
            },
            TypeDef::Pointer { .. } => {
                pair_names.push(p.name.clone());
                pair_wires.push(WasmType::I32);
            },
            TypeDef::Record(r) => {
                match &r.kind {
                    RecordKind::Bitflags(rep) => {
                        pair_names.push(p.name.clone());
                        pair_wires.push(wire_of_repr_exec(rep));
                    },
                    _ => {
                        proof {
                            assert(false);
                        }
                    },
                }
            },
            TypeDef::Variant(v) => {
                let tag_wire = wire_of_repr_exec(&crate::model::tag_repr_for(v.cases.len()));
                pair_names.push(p.name.clone());
                pair_wires.push(tag_wire);
                if !v.is_enum() {
                    let c0: &crate::model::VariantCase = &v.cases[0];
                    if c0.tref.is_some() {
                        pair_names.push(p.name.clone());
                        pair_wires.push(WasmType::I32);
                    }
                }
            },
            TypeDef::List(_) => {
                proof {
                    assert(false);
                }
            },
        }
        j = j + 1;
        proof {
            assert(pair_names.deep_view().zip_with(pair_wires@) =~= result_pairs(gdoc, f.results,
                j as int));
        }
    }
    proof {
        assert(pair_names.deep_view().zip_with(pair_wires@) =~= all_pairs);
        assert(pair_names.len() == all_pairs.len());
    }
    let ret: Option<WasmType> = if f.noreturn || pair_wires.len() == 0 {
        None
    } else {
        Some(pair_wires[0])
    };
    let mut out_ptrs: Vec<String> = Vec::new();
    if !f.noreturn && pair_names.len() > 0 {
        let mut k: usize = 1;
        while k < pair_names.len()
            invariant
                gdoc == *doc,
                all_pairs == result_pairs(gdoc, f.results, f.results.len() as int),
                params_fail(gdoc, f.params, f.params.len() as int) is None,
                results_fail(gdoc, f.results, f.results.len() as int) is None,
                pair_names.len() == pair_wires.len(),
                pair_names.deep_view().zip_with(pair_wires@) =~= all_pairs,
                pair_names.len() == all_pairs.len(),
                1 <= k <= pair_names.len(),
                out_ptrs.deep_view() == all_pairs.subrange(1, k as int).map_values(
                    |p: (Seq<char>, WasmType)| snake_of(p.0) + "_ptr"@,
                ),
            decreases pair_names.len() - k,
        {
            let mut s = to_snake(pair_names[k].as_str());
            s.append("_ptr");
            proof {
                assert(pair_names.deep_view().zip_with(pair_wires@)[k as int].0 == pair_names
                    .deep_view()[k as int]);
            }
            let ghost old_dv = out_ptrs.deep_view();
            out_ptrs.push(s);
            k = k + 1;
            proof {
                let fm = |p: (Seq<char>, WasmType)| snake_of(p.0) + "_ptr"@;
                assert(out_ptrs.deep_view() =~= old_dv.push(s@));
                assert(all_pairs.subrange(1, k as int) =~= all_pairs.subrange(1, k as int - 1)
                    .push(all_pairs[k as int - 1]));
                assert(out_ptrs.deep_view() =~= all_pairs.subrange(1, k as int).map_values(fm));
            }
        }
    }
    proof {
        let fm = |p: (Seq<char>, WasmType)| snake_of(p.0) + "_ptr"@;
        let ops = out_ptrs_spec(gdoc, *f);
        if !f.noreturn && all_pairs.len() > 0 {
            assert(all_pairs.subrange(1, all_pairs.len() as int) =~= all_pairs.skip(1));
            assert(out_ptrs.deep_view() =~= ops);
            assert(pair_names.deep_view().zip_with(pair_wires@)[0].1 == pair_wires@[0]);
        } else {
            assert(out_ptrs.deep_view() =~= ops);
        }
    }
    Ok(WireSignature { params, out_ptrs, ret })
}

fn wire_of_builtin_exec(b: &BuiltinType) -> (r: WasmType)
    ensures
        r == wire_of_builtin(*b),
{
    match b {
        BuiltinType::U64 | BuiltinType::S64 => WasmType::I64,
        BuiltinType::F32 => WasmType::F32,
        BuiltinType::F64 => WasmType::F64,
        _ => WasmType::I32,
    }
}

fn wire_of_repr_exec(r: &IntRepr) -> (w: WasmType)
    ensures
        w == wire_of_repr(*r),
{
    match r {
        IntRepr::U64 => WasmType::I64,
        _ => WasmType::I32,
    }
}

proof fn lemma_params_fail_mono(doc: Document, ps: Vec<FuncParam>, i: int, k: int)
    requires
        0 <= i <= k <= ps.len(),
        params_fail(doc, ps, i) is Some,
    ensures
        params_fail(doc, ps, k) == params_fail(doc, ps, i),
    decreases k,
{
    if k > i {
        lemma_params_fail_mono(doc, ps, i, k - 1);
    }
}

proof fn lemma_results_fail_mono(doc: Document, rs: Vec<FuncParam>, i: int, k: int)
    requires
        0 <= i <= k <= rs.len(),
        results_fail(doc, rs, i) is Some,
    ensures
        results_fail(doc, rs, k) == results_fail(doc, rs, i),
    decreases k,
{
    if k > i {
        lemma_results_fail_mono(doc, rs, i, k - 1);
    }
}

/// Flattening to several wire values: the first is returned directly and
/// each further one becomes exactly one output-pointer parameter, named
/// after its source result with the pointer marker appended. A function
/// whose results flatten to nothing returns nothing and takes no output
/// pointers.
pub proof fn lemma_multi_result_signature(doc: Document, f: InterfaceFunc)
    requires
        !f.noreturn,
    ensures
        result_pairs(doc, f.results, f.results.len() as int).len() >= 1 ==> ret_spec(doc, f)
            == Some(result_pairs(doc, f.results, f.results.len() as int)[0].1),
        out_ptrs_spec(doc, f).len() == (if result_pairs(doc, f.results, f.results.len()
            as int).len() >= 1 {
            result_pairs(doc, f.results, f.results.len() as int).len() - 1
        } else {
            0int
        }),
        forall|t: int|
            0 <= t < out_ptrs_spec(doc, f).len() ==> out_ptrs_spec(doc, f)[t] == snake_of(
                result_pairs(doc, f.results, f.results.len() as int)[t + 1].0,
            ) + "_ptr"@,
        result_pairs(doc, f.results, f.results.len() as int).len() == 0 ==> ret_spec(doc, f)
            is None && out_ptrs_spec(doc, f).len() == 0,
{
}

} // verus!
