//! The generator: renders the whole document — type declarations, high-level
//! call wrappers, per-module namespaces of boundary declarations, and
//! constants — as one deterministic text.

use vstd::prelude::*;
use vstd::string::StringExecFns;
use crate::abi::{WasmType, derive_signature, out_ptrs_spec, params_wires, ret_spec, sig_fail};
use crate::astype::{render_tref, t_ok, ttext};
use crate::engine::{
    Engine, call_text, lift_fail, lift_text, lower_fail, lower_texts, prep_fail, prep_ops,
    prep_text, wline,
};
use crate::error::Error;
use crate::idents::{
    as_name_of, camel_of, shouty_of, snake_of, to_as_name, to_camel, to_shouty, to_snake,
};
use crate::model::{Constant, Document, FuncParam, InterfaceFunc, Module, leaf_spec, wf_doc};
use crate::pretty_writer::PrettyWriter;
use crate::render::{docs_text, named_fail, named_type_text, render_named_type, write_docs};
use crate::strings::{dec_of, joined, lined, push_dec, intersperse_join};

verus! {

broadcast use vstd::std_specs::vec::axiom_vec_index_decreases;

pub open spec fn wasm_name(w: WasmType) -> Seq<char> {
    match w {
        WasmType::I32 => "i32"@,
        WasmType::I64 => "i64"@,
        WasmType::F32 => "f32"@,
        WasmType::F64 => "f64"@,
    }
}

pub fn render_wasm_type(w: &WasmType) -> (s: &'static str)
    ensures
        s@ == wasm_name(*w),
{
    match w {
        WasmType::I32 => "i32",
        WasmType::I64 => "i64",
        WasmType::F32 => "f32",
        WasmType::F64 => "f64",
    }
}

pub open spec fn decl_params_text(t: Seq<char>, ws: Seq<WasmType>, i: int) -> Seq<char>
    decreases i,
{
    if i <= 0 {
        t
    } else {
        decl_params_text(t, ws, i - 1) + ("arg"@ + dec_of((i - 1) as nat) + ": "@) + wasm_name(
            ws[i - 1],
        ) + ", "@
    }
}

pub open spec fn decl_outptrs_text(t: Seq<char>, names: Seq<Seq<char>>, i: int) -> Seq<char>
    decreases i,
{
    if i <= 0 {
        t
    } else {
        decl_outptrs_text(t, names, i - 1) + (names[i - 1] + ": "@) + "i32"@ + ", "@
    }
}

pub open spec fn decl_ret_text(t: Seq<char>, noreturn: bool, ret: Option<WasmType>) -> Seq<char> {
    if noreturn {
        t + ": void"@
    } else {
        match ret {
            Some(wt) => (t + ": "@) + wasm_name(wt),
            None => t,
        }
    }
}

/// The boundary declaration of one function: its flat wire signature, with
/// positional names for lowered parameters and the derived names for output
/// pointers.
pub open spec fn decl_text(
    doc: Document,
    f: InterfaceFunc,
    t0: Seq<char>,
    ib: Seq<char>,
    ind: nat,
) -> Seq<char> {
    let d = docs_text(t0, ib, ind, f.docs@);
    let h = d + "export declare function "@;
    let h2 = h + as_name_of(snake_of(as_name_of(f.name@)));
    let h3 = h2 + "("@;
    let ws = params_wires(doc, f.params, f.params.len() as int);
    let h4 = decl_params_text(h3, ws, ws.len() as int);
    let ons = out_ptrs_spec(doc, f);
    let h5 = decl_outptrs_text(h4, ons, ons.len() as int);
    let h6 = h5 + ")"@;
    let h7 = decl_ret_text(h6, f.noreturn, ret_spec(doc, f));
    h7 + ";"@
}

/// Renders the boundary declaration of `f`.
pub fn render_func_decl(w: &mut PrettyWriter, doc: &Document, f: &InterfaceFunc) -> (res: Result<
    (),
    Error,
>)
    ensures
        match res {
            Ok(_) => {
                &&& sig_fail(*doc, *f) is None
                &&& final(w)@ == decl_text(*doc, *f, old(w)@, old(w).spec_indent_bytes(),
                    old(w).spec_indent())
                &&& final(w).same_format(old(w))
            },
            Err(e) => sig_fail(*doc, *f) == Some(e),
        },
{
    let ghost gdoc = *doc;
    let ghost ib = w.spec_indent_bytes();
    let ghost ind = w.spec_indent();
    let ghost cb = w.spec_continuation_bytes();
    let sig = match derive_signature(doc, f) {
        Ok(sig) => sig,
        Err(e) => {
            return Err(e);
        },
    };
    write_docs(w, f.docs.as_str());
    w.write("export declare function ");
    w.write(to_as_name(to_snake(to_as_name(f.name.as_str()).as_str()).as_str()).as_str());
    w.write("(");
    let ghost h3 = w@;
    let ghost ws = params_wires(gdoc, f.params, f.params.len() as int);
    let np = sig.params.len();
    let mut i: usize = 0;
    while i < np
        invariant
            gdoc == *doc,
            np == sig.params.len(),
            sig.params@ == ws,
            i <= np,
            w@ == decl_params_text(h3, ws, i as int),
            w.spec_indent_bytes() == ib,
            w.spec_indent() == ind,
            w.spec_continuation_bytes() == cb,
        decreases np - i,
    {
        let mut s = String::from_str("arg");
        push_dec(&mut s, i as u64);
        s.append(": ");
        w.write(s.as_str());
        w.write(render_wasm_type(&sig.params[i]));
        w.write(", ");
        i = i + 1;
    }
    let ghost h4 = w@;
    let ghost ons = out_ptrs_spec(gdoc, *f);
    let no = sig.out_ptrs.len();
    let mut k: usize = 0;
    while k < no
        invariant
            gdoc == *doc,
            no == sig.out_ptrs.len(),
            sig.out_ptrs.deep_view() == ons,
            k <= no,
            w@ == decl_outptrs_text(h4, ons, k as int),
            w.spec_indent_bytes() == ib,
            w.spec_indent() == ind,
            w.spec_continuation_bytes() == cb,
        decreases no - k,
    {
        let mut s = sig.out_ptrs[k].clone();
        s.append(": ");
        w.write(s.as_str());
        w.write("i32");
        w.write(", ");
        k = k + 1;
    }
    w.write(")");
    if f.noreturn {
        w.write(": void");
    } else {
        match &sig.ret {
            Some(wt) => {
                w.write(": ");
                w.write(render_wasm_type(wt));
            },
            None => {},
        }
    }
    w.write(";");
    Ok(())
}

/// The wire operands contributed by the first `i` parameters.
pub open spec fn params_ops(doc: Document, ps: Vec<FuncParam>, i: int) -> Seq<Seq<char>>
    decreases i,
{
    if i <= 0 {
        Seq::empty()
    } else {
        params_ops(doc, ps, i - 1) + lower_texts(doc, ps[i - 1].tref, as_name_of(ps[i - 1].name@))
    }
}

pub open spec fn params_lower_fail(doc: Document, ps: Vec<FuncParam>, i: int) -> Option<Error>
    decreases i,
{
    if i <= 0 || i > ps.len() {
        None
    } else {
        match params_lower_fail(doc, ps, i - 1) {
            Some(e) => Some(e),
            None => lower_fail(doc, ps[i - 1].tref),
        }
    }
}

proof fn lemma_params_lower_fail_mono(doc: Document, ps: Vec<FuncParam>, i: int, k: int)
    requires
        0 <= i <= k <= ps.len(),
        params_lower_fail(doc, ps, i) is Some,
    ensures
        params_lower_fail(doc, ps, k) == params_lower_fail(doc, ps, i),
    decreases k,
{
    if k > i {
        lemma_params_lower_fail_mono(doc, ps, i, k - 1);
    }
}

/// The generated body: slot declarations, the call with all lowered
/// operands, and the lifted return.
pub open spec fn body_text(doc: Document, f: InterfaceFunc, mbind: Seq<char>) -> Seq<char> {
    let t1 = if f.results.len() == 1 {
        prep_text(doc, f.results[0].tref, Seq::empty(), "    "@, 0)
    } else {
        Seq::empty()
    };
    let ops = params_ops(doc, f.params, f.params.len() as int) + (if f.results.len() == 1 {
        prep_ops(doc, f.results[0].tref)
    } else {
        Seq::empty()
    });
    let has_ret = ret_spec(doc, f) is Some;
    let t2 = call_text(t1, mbind, f.name@, ops, has_ret);
    if f.results.len() == 1 {
        t2 + ("return "@ + lift_text(doc, f.results[0].tref) + ";"@)
    } else {
        t2
    }
}

pub open spec fn body_fail(doc: Document, f: InterfaceFunc) -> Option<Error> {
    match params_lower_fail(doc, f.params, f.params.len() as int) {
        Some(e) => Some(e),
        None => if f.results.len() == 1 {
            match prep_fail(doc, f.results[0].tref) {
                Some(e) => Some(e),
                None => lift_fail(doc, f.results[0].tref),
            }
        } else {
            None
        },
    }
}

pub open spec fn param_decls(doc: Document, ps: Vec<FuncParam>, i: int) -> Seq<Seq<char>>
    decreases i,
{
    if i <= 0 {
        Seq::empty()
    } else {
        param_decls(doc, ps, i - 1).push(
            (as_name_of(ps[i - 1].name@) + ": "@) + ttext(doc, ps[i - 1].tref),
        )
    }
}

pub open spec fn params_t_fail(doc: Document, ps: Vec<FuncParam>, i: int) -> Option<Error>
    decreases i,
{
    if i <= 0 || i > ps.len() {
        None
    } else {
        match params_t_fail(doc, ps, i - 1) {
            Some(e) => Some(e),
            None => if t_ok(doc, ps[i - 1].tref) {
                None
            } else {
                Some(Error::UnsupportedConstruct)
            },
        }
    }
}

proof fn lemma_params_t_fail_mono(doc: Document, ps: Vec<FuncParam>, i: int, k: int)
    requires
        0 <= i <= k <= ps.len(),
        params_t_fail(doc, ps, i) is Some,
    ensures
        params_t_fail(doc, ps, k) == params_t_fail(doc, ps, i),
    decreases k,
{
    if k > i {
        lemma_params_t_fail_mono(doc, ps, i, k - 1);
    }
}

/// The high-level wrapper of one function: its interface-typed signature and
/// the engine-generated body.
pub open spec fn highlevel_text(
    doc: Document,
    f: InterfaceFunc,
    mbind: Seq<char>,
    t0: Seq<char>,
    ib: Seq<char>,
    ind: nat,
) -> Seq<char> {
    let h1 = docs_text(t0, ib, ind, f.docs@);
    let h2 = h1 + "export function "@;
    let h3 = h2 + snake_of(as_name_of(f.name@));
    let h4 = h3 + "("@;
    let h5 = h4 + joined(param_decls(doc, f.params, f.params.len() as int), ", "@);
    let h6 = h5 + ")"@;
    let h7 = if f.results.len() == 1 {
        (h6 + ": "@) + ttext(doc, f.results[0].tref)
    } else {
        h6
    };
    let h8 = h7 + "{"@;
    let h9 = h8 + body_text(doc, f, mbind);
    h9 + "}"@
}

pub open spec fn highlevel_fail(doc: Document, f: InterfaceFunc) -> Option<Error> {
    if f.results.len() > 1 {
        Some(Error::UnsupportedConstruct)
    } else if f.noreturn && f.results.len() > 0 {
        Some(Error::UnsupportedConstruct)
    } else {
        match params_t_fail(doc, f.params, f.params.len() as int) {
            Some(e) => Some(e),
            None => if f.results.len() == 1 && !t_ok(doc, f.results[0].tref) {
                Some(Error::UnsupportedConstruct)
            } else {
                body_fail(doc, f)
            },
        }
    }
}

/// Renders the high-level wrapper of `f`, binding the call against the
/// module name `mbind`.
pub fn render_highlevel(w: &mut PrettyWriter, doc: &Document, f: &InterfaceFunc, mbind: &str) -> (
    res: Result<(), Error>)
    ensures
        match res {
            Ok(_) => {
                &&& highlevel_fail(*doc, *f) is None
                &&& final(w)@ == highlevel_text(*doc, *f, mbind@, old(w)@,
                    old(w).spec_indent_bytes(), old(w).spec_indent())
                &&& final(w).same_format(old(w))
            },
            Err(e) => highlevel_fail(*doc, *f) == Some(e),
        },
{
    let ghost gdoc = *doc;
    if f.results.len() > 1 {
        return Err(Error::UnsupportedConstruct);
    }
    if f.noreturn && f.results.len() > 0 {
        return Err(Error::UnsupportedConstruct);
    }
    let np = f.params.len();
    let mut decls: Vec<String> = Vec::new();
    let mut i: usize = 0;
    while i < np
        invariant
            gdoc == *doc,
            np == f.params.len(),
            i <= np,
            params_t_fail(gdoc, f.params, i as int) is None,
            decls.deep_view() == param_decls(gdoc, f.params, i as int),
        decreases np - i,
    {
        let p: &FuncParam = &f.params[i];
        let tt = match render_tref(doc, &p.tref) {
            Ok(s) => s,
            Err(e) => {
                proof {
                    lemma_params_t_fail_mono(gdoc, f.params, i as int + 1, np as int);
                }
                return Err(Error::UnsupportedConstruct);
            },
        };
        let mut s = to_as_name(p.name.as_str());
        s.append(": ");
        s.append(tt.as_str());
        let ghost old_dv = decls.deep_view();
        decls.push(s);
        i = i + 1;
        proof {
            assert(decls.deep_view() =~= old_dv.push(
                (as_name_of(f.params[i - 1].name@) + ": "@) + ttext(gdoc, f.params[i - 1].tref),
            ));
        }
    }
    let result_tt: Option<String> = if f.results.len() == 1 {
        match render_tref(doc, &f.results[0].tref) {
            Ok(s) => Some(s),
            Err(e) => {
                return Err(Error::UnsupportedConstruct);
            },
        }
    } else {
        None
    };
    write_docs(w, f.docs.as_str());
    w.write("export function ");
    w.write(to_snake(to_as_name(f.name.as_str()).as_str()).as_str());
    w.write("(");
    w.write(intersperse_join(&decls, ", ").as_str());
    w.write(")");
    match &result_tt {
        Some(tt) => {
            w.write(": ");
            w.write(tt.as_str());
        },
        None => {},
    }
    w.write("{");
    let mut eng = Engine::new();
    let mut k: usize = 0;
    while k < np
        invariant
            gdoc == *doc,
            np == f.params.len(),
            k <= np,
            f.results.len() <= 1,
            !f.noreturn || f.results.len() == 0,
            params_t_fail(gdoc, f.params, np as int) is None,
            f.results.len() == 1 ==> t_ok(gdoc, f.results[0].tref),
            params_lower_fail(gdoc, f.params, k as int) is None,
            eng.operands.deep_view() == params_ops(gdoc, f.params, k as int),
            eng.w@ == Seq::<char>::empty(),
            eng.w.spec_indent() == 0,
            eng.w.spec_indent_bytes() == "    "@,
            eng.blocks.len() == 0,
            eng.bufs.len() == 0,
        decreases np - k,
    {
        let p: &FuncParam = &f.params[k];
        let arg = to_as_name(p.name.as_str());
        match eng.lower_param(doc, &p.tref, arg) {
            Ok(_) => {},
            Err(e) => {
                proof {
                    lemma_params_lower_fail_mono(gdoc, f.params, k as int + 1, np as int);
                }
                return Err(e);
            },
        }
        k = k + 1;
        proof {
            assert(eng.operands.deep_view() =~= params_ops(gdoc, f.params, k as int));
        }
    }
    if f.results.len() == 1 {
        match eng.prep_return_pointer(doc, &f.results[0].tref) {
            Ok(_) => {},
            Err(e) => {
                return Err(e);
            },
        }
        proof {
            assert(eng.operands.deep_view() =~= params_ops(gdoc, f.params, np as int) + prep_ops(
                gdoc,
                f.results[0].tref,
            ));
        }
    } else {
        proof {
            assert(eng.operands.deep_view() =~= params_ops(gdoc, f.params, np as int)
                + Seq::<Seq<char>>::empty());
        }
    }
    let has_ret: bool = if f.noreturn || f.results.len() == 0 {
        false
    } else {
        let td = match doc.leaf(&f.results[0].tref) {
            Ok(td) => td,
            Err(e) => {
                proof {
                    assert(false);
                }
                return Err(Error::MalformedInput);
            },
        };
        match td {
            crate::model::TypeDef::Record(r) => matches!(
                &r.kind,
                crate::model::RecordKind::Bitflags(_)
            ),
            crate::model::TypeDef::List(_) => false,
            _ => true,
        }
    };
    proof {
        if !f.noreturn && f.results.len() == 1 {
            let pairs = crate::abi::result_pairs(gdoc, f.results, 1);
            assert(crate::abi::result_pairs(gdoc, f.results, 0) =~= Seq::<(
                Seq<char>,
                WasmType,
            )>::empty());
            assert(pairs =~= crate::abi::result_pairs_of(
                f.results[0].name@,
                leaf_spec(gdoc, f.results[0].tref, gdoc.types.len() as nat).unwrap(),
            ));
        }
        assert(has_ret == (ret_spec(gdoc, *f) is Some));
    }
    eng.emit_call(mbind, f.name.as_str(), has_ret);
    if f.results.len() == 1 {
        let expr = match eng.lift_result(doc, &f.results[0].tref) {
            Ok(s) => s,
            Err(e) => {
                return Err(e);
            },
        };
        let mut rs = String::from_str("return ");
        rs.append(expr.as_str());
        rs.append(";");
        eng.w.write(rs.as_str());
    }
    let body = eng.w.finish();
    w.write(body.as_str());
    w.write("}");
    Ok(())
}

pub open spec fn funcs_hl_text(
    doc: Document,
    fs: Vec<InterfaceFunc>,
    mbind: Seq<char>,
    i: int,
    t: Seq<char>,
    ib: Seq<char>,
    ind: nat,
) -> Seq<char>
    decreases i,
{
    if i <= 0 {
        t
    } else {
        highlevel_text(doc, fs[i - 1], mbind, funcs_hl_text(doc, fs, mbind, i - 1, t, ib, ind), ib,
            ind) + "\n\n"@
    }
}

pub open spec fn funcs_hl_fail(doc: Document, fs: Vec<InterfaceFunc>, i: int) -> Option<Error>
    decreases i,
{
    if i <= 0 || i > fs.len() {
        None
    } else {
        match funcs_hl_fail(doc, fs, i - 1) {
            Some(e) => Some(e),
            None => highlevel_fail(doc, fs[i - 1]),
        }
    }
}

proof fn lemma_funcs_hl_fail_mono(doc: Document, fs: Vec<InterfaceFunc>, i: int, k: int)
    requires
        0 <= i <= k <= fs.len(),
        funcs_hl_fail(doc, fs, i) is Some,
    ensures
        funcs_hl_fail(doc, fs, k) == funcs_hl_fail(doc, fs, i),
    decreases k,
{
    if k > i {
        lemma_funcs_hl_fail_mono(doc, fs, i, k - 1);
    }
}

pub open spec fn funcs_decl_text(
    doc: Document,
    fs: Vec<InterfaceFunc>,
    i: int,
    t: Seq<char>,
    ib: Seq<char>,
    ind: nat,
) -> Seq<char>
    decreases i,
{
    if i <= 0 {
        t
    } else {
        decl_text(doc, fs[i - 1], funcs_decl_text(doc, fs, i - 1, t, ib, ind), ib, ind) + "\n"@
    }
}

pub open spec fn funcs_decl_fail(doc: Document, fs: Vec<InterfaceFunc>, i: int) -> Option<Error>
    decreases i,
{
    if i <= 0 || i > fs.len() {
        None
    } else {
        match funcs_decl_fail(doc, fs, i - 1) {
            Some(e) => Some(e),
            None => sig_fail(doc, fs[i - 1]),
        }
    }
}

proof fn lemma_funcs_decl_fail_mono(doc: Document, fs: Vec<InterfaceFunc>, i: int, k: int)
    requires
        0 <= i <= k <= fs.len(),
        funcs_decl_fail(doc, fs, i) is Some,
    ensures
        funcs_decl_fail(doc, fs, k) == funcs_decl_fail(doc, fs, i),
    decreases k,
{
    if k > i {
        lemma_funcs_decl_fail_mono(doc, fs, i, k - 1);
    }
}

/// One module: every function's high-level wrapper, then the namespace of
/// boundary declarations.
pub open spec fn module_text(
    doc: Document,
    m: Module,
    mbind: Seq<char>,
    t0: Seq<char>,
    ib: Seq<char>,
    ind: nat,
) -> Seq<char> {
    let n = m.funcs.len() as int;
    let f1 = funcs_hl_text(doc, m.funcs, mbind, n, t0, ib, ind);
    let m1 = f1 + "export namespace "@;
    let m2 = m1 + camel_of(m.name@);
    let m3 = m2 + "{"@;
    let m4 = funcs_decl_text(doc, m.funcs, n, m3, ib, (ind + 1) as nat);
    let m5 = m4 + "}"@;
    m5 + "\n\n"@
}

pub open spec fn module_fail(doc: Document, m: Module) -> Option<Error> {
    match funcs_hl_fail(doc, m.funcs, m.funcs.len() as int) {
        Some(e) => Some(e),
        None => funcs_decl_fail(doc, m.funcs, m.funcs.len() as int),
    }
}

/// Renders one module, binding calls against `mbind`.
pub fn render_module(w: &mut PrettyWriter, doc: &Document, m: &Module, mbind: &str) -> (res:
    Result<(), Error>)
    requires
        old(w).spec_indent() + 1 <= usize::MAX,
    ensures
        match res {
            Ok(_) => {
                &&& module_fail(*doc, *m) is None
                &&& final(w)@ == module_text(*doc, *m, mbind@, old(w)@,
                    old(w).spec_indent_bytes(), old(w).spec_indent())
                &&& final(w).same_format(old(w))
            },
            Err(e) => module_fail(*doc, *m) == Some(e),
        },
{
    let ghost gdoc = *doc;
    let ghost gfs = m.funcs;
    let ghost ib = w.spec_indent_bytes();
    let ghost ind = w.spec_indent();
    let ghost cb = w.spec_continuation_bytes();
    let ghost t0 = w@;
    let n = m.funcs.len();
    let mut i: usize = 0;
    while i < n
        invariant
            gdoc == *doc,
            gfs == m.funcs,
            n == m.funcs.len(),
            i <= n,
            funcs_hl_fail(gdoc, gfs, i as int) is None,
            w@ == funcs_hl_text(gdoc, gfs, mbind@, i as int, t0, ib, ind),
            w.spec_indent_bytes() == ib,
            w.spec_indent() == ind,
            w.spec_continuation_bytes() == cb,
        decreases n - i,
    {
        match render_highlevel(w, doc, &m.funcs[i], mbind) {
            Ok(_) => {},
            Err(e) => {
                proof {
                    lemma_funcs_hl_fail_mono(gdoc, gfs, i as int + 1, n as int);
                }
                return Err(e);
            },
        }
        w.write("\n\n");
        i = i + 1;
    }
    w.write("export namespace ");
    w.write(to_camel(m.name.as_str()).as_str());
    w.write("{");
    w.push_indent();
    let ghost m3 = w@;
    let mut k: usize = 0;
    while k < n
        invariant
            gdoc == *doc,
            gfs == m.funcs,
            n == m.funcs.len(),
            k <= n,
            funcs_hl_fail(gdoc, gfs, n as int) is None,
            funcs_decl_fail(gdoc, gfs, k as int) is None,
            w@ == funcs_decl_text(gdoc, gfs, k as int, m3, ib, (ind + 1) as nat),
            w.spec_indent_bytes() == ib,
            w.spec_indent() == ind + 1,
            w.spec_continuation_bytes() == cb,
        decreases n - k,
    {
        match render_func_decl(w, doc, &m.funcs[k]) {
            Ok(_) => {},
            Err(e) => {
                proof {
                    lemma_funcs_decl_fail_mono(gdoc, gfs, k as int + 1, n as int);
                }
                return Err(e);
            },
        }
        w.eob();
        k = k + 1;
    }
    w.pop_indent();
    w.write("}");
    w.write("\n\n");
    Ok(())
}

/// One constant declaration, bound to its declared builtin type.
pub open spec fn const_text(c: Constant, t0: Seq<char>, ib: Seq<char>, ind: nat) -> Seq<char> {
    wline(
        t0,
        ib,
        ind,
        "public const "@ + shouty_of(c.ty@) + "_"@ + shouty_of(c.name@) + ": "@ + camel_of(c.ty@)
            + " = "@ + dec_of(c.value as nat) + ";"@,
    )
}

pub fn render_constant(w: &mut PrettyWriter, c: &Constant)
    ensures
        final(w)@ == const_text(*c, old(w)@, old(w).spec_indent_bytes(), old(w).spec_indent()),
        final(w).same_format(old(w)),
{
    let mut s = String::from_str("public const ");
    s.append(to_shouty(c.ty.as_str()).as_str());
    s.append("_");
    s.append(to_shouty(c.name.as_str()).as_str());
    s.append(": ");
    s.append(to_camel(c.ty.as_str()).as_str());
    s.append(" = ");
    push_dec(&mut s, c.value);
    s.append(";");
    w.write_line(s.as_str());
}

pub open spec fn consts_text(
    cs: Vec<Constant>,
    i: int,
    t: Seq<char>,
    ib: Seq<char>,
    ind: nat,
) -> Seq<char>
    decreases i,
{
    if i <= 0 {
        t
    } else {
        const_text(cs[i - 1], consts_text(cs, i - 1, t, ib, ind), ib, ind)
    }
}

pub const HEADER_ALIASES: &'static str = "\nexport type handle = i32;\nexport type char = u8;\nexport type ptr<T> = usize;\nexport type mut_ptr<T> = usize;\nexport type untyped_ptr = usize;\nexport type struct<T> = usize;\nexport type union<T> = usize;\nexport type wasi_string_ptr = ptr<char>;\n";

pub const HEADER_CLASSES: &'static str = "\n@unmanaged\nexport class WasiString {\n    ptr: wasi_string_ptr;\n    length: usize;\n\n    constructor(str: string) {\n        let wasiString = String.UTF8.encode(str, false);\n        // @ts-ignore: cast\n        this.ptr = changetype<wasi_string_ptr>(wasiString);\n        this.length = wasiString.byteLength;\n    }\n\n    toString(): string {\n        let tmp = new ArrayBuffer(this.length as u32);\n        memory.copy(changetype<usize>(tmp), this.ptr, this.length);\n        return String.UTF8.decode(tmp);\n    }\n}\n\n@unmanaged\nexport class WasiArray<T> {\n    ptr: ptr<T>;\n    length: usize;\n\n    constructor(array: ArrayBufferView) {\n        // @ts-ignore: cast\n        this.ptr = array.dataStart;\n        this.length = array.byteLength;\n    }\n}\n";

/// The verbatim boilerplate preamble: low-level type aliases and the two
/// bootstrap wrapper classes.
pub open spec fn header_text(t0: Seq<char>, ib: Seq<char>, ind: nat) -> Seq<char> {
    let t1 = t0 + lined(ib, ind, HEADER_ALIASES@);
    let t2 = t1 + lined(ib, ind, HEADER_CLASSES@);
    t2 + "\n"@
}

pub fn write_header(w: &mut PrettyWriter)
    ensures
        final(w)@ == header_text(old(w)@, old(w).spec_indent_bytes(), old(w).spec_indent()),
        final(w).same_format(old(w)),
{
    w.write_lines(HEADER_ALIASES);
    w.write_lines(HEADER_CLASSES);
    w.eob();
}

pub open spec fn types_text(doc: Document, i: int, t: Seq<char>, ib: Seq<char>, ind: nat) -> Seq<
    char,
>
    decreases i,
{
    if i <= 0 {
        t
    } else {
        named_type_text(doc, i - 1, types_text(doc, i - 1, t, ib, ind), ib, ind)
    }
}

pub open spec fn types_fail(doc: Document, i: int) -> Option<Error>
    decreases i,
{
    if i <= 0 || i > doc.types.len() {
        None
    } else {
        match types_fail(doc, i - 1) {
            Some(e) => Some(e),
            None => named_fail(doc, i - 1),
        }
    }
}

proof fn lemma_types_fail_mono(doc: Document, i: int, k: int)
    requires
        0 <= i <= k <= doc.types.len(),
        types_fail(doc, i) is Some,
    ensures
        types_fail(doc, k) == types_fail(doc, i),
    decreases k,
{
    if k > i {
        lemma_types_fail_mono(doc, i, k - 1);
    }
}

pub open spec fn view_opt(o: Option<String>) -> Option<Seq<char>> {
    match o {
        Some(s) => Some(s@),
        None => None,
    }
}

/// The module name a call is bound against: the configured override, or the
/// module's own name.
pub open spec fn mbind_spec(ov: Option<Seq<char>>, mname: Seq<char>) -> Seq<char> {
    match ov {
        Some(s) => s,
        None => mname,
    }
}

pub open spec fn modules_text(
    doc: Document,
    ov: Option<Seq<char>>,
    i: int,
    t: Seq<char>,
    ib: Seq<char>,
    ind: nat,
) -> Seq<char>
    decreases i,
{
    if i <= 0 {
        t
    } else {
        module_text(
            doc,
            doc.modules[i - 1],
            mbind_spec(ov, doc.modules[i - 1].name@),
            modules_text(doc, ov, i - 1, t, ib, ind),
            ib,
            ind,
        )
    }
}

pub open spec fn modules_fail(doc: Document, i: int) -> Option<Error>
    decreases i,
{
    if i <= 0 || i > doc.modules.len() {
        None
    } else {
        match modules_fail(doc, i - 1) {
            Some(e) => Some(e),
            None => module_fail(doc, doc.modules[i - 1]),
        }
    }
}

proof fn lemma_modules_fail_mono(doc: Document, i: int, k: int)
    requires
        0 <= i <= k <= doc.modules.len(),
        modules_fail(doc, i) is Some,
    ensures
        modules_fail(doc, k) == modules_fail(doc, i),
    decreases k,
{
    if k > i {
        lemma_modules_fail_mono(doc, i, k - 1);
    }
}

/// The whole generated text: the optional boilerplate preamble, one
/// declaration per named type, each module's wrappers and namespace, and
/// the constants. A pure function of the document and the configuration:
/// generating twice from the same input yields the same text.
pub open spec fn gen_text(doc: Document, ov: Option<Seq<char>>, embed: bool) -> Seq<char> {
    let ib = "    "@;
    let t1 = if embed {
        header_text(Seq::empty(), ib, 0)
    } else {
        Seq::empty()
    };
    let t2 = types_text(doc, doc.types.len() as int, t1, ib, 0);
    let t3 = modules_text(doc, ov, doc.modules.len() as int, t2, ib, 0);
    consts_text(doc.constants, doc.constants.len() as int, t3, ib, 0)
}

/// When generation fails, and with which error: a document that fails
/// validation, then the first failing type declaration, then the first
/// failing function.
pub open spec fn gen_fail(doc: Document) -> Option<Error> {
    if !wf_doc(doc) {
        Some(Error::MalformedInput)
    } else {
        match types_fail(doc, doc.types.len() as int) {
            Some(e) => Some(e),
            None => modules_fail(doc, doc.modules.len() as int),
        }
    }
}

pub struct Generator {
    pub module_name: Option<String>,
    pub embed_header: bool,
}

impl Generator {
    pub fn new(module_name: Option<String>, embed_header: bool) -> (r: Self)
        ensures
            r.module_name == module_name,
            r.embed_header == embed_header,
    {
        Generator { module_name, embed_header }
    }

    /// Generates the whole output text for `doc`: a pure function of the
    /// document and this generator's configuration. Fails, emitting
    /// nothing, on a document that fails validation or holds a construct
    /// the engine refuses.
    pub fn generate(&self, doc: &Document) -> (r: Result<String, Error>)
        ensures
            match r {
                Ok(s) => gen_fail(*doc) is None && s@ == gen_text(*doc, view_opt(
                    self.module_name,
                ), self.embed_header),
                Err(e) => gen_fail(*doc) == Some(e),
            },
    {
        let ghost gdoc = *doc;
        if !doc.validate() {
            return Err(Error::MalformedInput);
        }
        let mut w = PrettyWriter::new("    ");
        if self.embed_header {
            write_header(&mut w);
        }
        let ghost t1 = w@;
        let nt = doc.types.len();
        let mut i: usize = 0;
        while i < nt
            invariant
                gdoc == *doc,
                wf_doc(gdoc),
                nt == doc.types.len(),
                i <= nt,
                types_fail(gdoc, i as int) is None,
                w@ == types_text(gdoc, i as int, t1, "    "@, 0),
                w.spec_indent() == 0,
                w.spec_indent_bytes() == "    "@,
            decreases nt - i,
        {
            match render_named_type(&mut w, doc, i) {
                Ok(_) => {},
                Err(e) => {
                    proof {
                        lemma_types_fail_mono(gdoc, i as int + 1, nt as int);
                    }
                    return Err(e);
                },
            }
            i = i + 1;
        }
        let ghost t2 = w@;
        let nm = doc.modules.len();
        let mut mi: usize = 0;
        while mi < nm
            invariant
                gdoc == *doc,
                wf_doc(gdoc),
                nm == doc.modules.len(),
                mi <= nm,
                types_fail(gdoc, nt as int) is None,
                nt == doc.types.len(),
                modules_fail(gdoc, mi as int) is None,
                w@ == modules_text(gdoc, view_opt(self.module_name), mi as int, t2, "    "@, 0),
                w.spec_indent() == 0,
                w.spec_indent_bytes() == "    "@,
            decreases nm - mi,
        {
            let m: &Module = &doc.modules[mi];
            let mbind: &str = match &self.module_name {
                Some(s) => s.as_str(),
                None => m.name.as_str(),
            };
            match render_module(&mut w, doc, m, mbind) {
                Ok(_) => {},
                Err(e) => {
                    proof {
                        lemma_modules_fail_mono(gdoc, mi as int + 1, nm as int);
                    }
                    return Err(e);
                },
            }
            mi = mi + 1;
        }
        let ghost t3 = w@;
        let nc = doc.constants.len();
        let mut ci: usize = 0;
        while ci < nc
            invariant
                gdoc == *doc,
                wf_doc(gdoc),
                nc == doc.constants.len(),
                nt == doc.types.len(),
                nm == doc.modules.len(),
                ci <= nc,
                types_fail(gdoc, nt as int) is None,
                modules_fail(gdoc, nm as int) is None,
                w@ == consts_text(gdoc.constants, ci as int, t3, "    "@, 0),
                w.spec_indent() == 0,
                w.spec_indent_bytes() == "    "@,
            decreases nc - ci,
        {
            render_constant(&mut w, &doc.constants[ci]);
            ci = ci + 1;
        }
        Ok(w.finish())
    }
}

} // verus!
