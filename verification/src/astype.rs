//! Rendering of type references as target-language type expressions, and
//! the reference/value distinction that decides how a payload is accessed.

use vstd::prelude::*;
use vstd::string::StringExecFns;
use crate::error::Error;
use crate::idents::{camel_of, to_camel};
use crate::model::{BuiltinType, Document, TypeDef, TypeRef, leaf_spec};

verus! {

broadcast use vstd::std_specs::vec::axiom_vec_index_decreases;

pub open spec fn builtin_name(b: BuiltinType) -> Seq<char> {
    match b {
        BuiltinType::U8 => "u8"@,
        BuiltinType::U16 => "u16"@,
        BuiltinType::U32 => "u32"@,
        BuiltinType::U64 => "u64"@,
        BuiltinType::S8 => "i8"@,
        BuiltinType::S16 => "i16"@,
        BuiltinType::S32 => "i32"@,
        BuiltinType::S64 => "i64"@,
        BuiltinType::F32 => "f32"@,
        BuiltinType::F64 => "f64"@,
        BuiltinType::Char => "u32"@,
        BuiltinType::Usize => "usize"@,
    }
}

pub fn render_builtin(b: &BuiltinType) -> (r: &'static str)
    ensures
        r@ == builtin_name(*b),
{
    match b {
        BuiltinType::U8 => "u8",
        BuiltinType::U16 => "u16",
        BuiltinType::U32 => "u32",
        BuiltinType::U64 => "u64",
        BuiltinType::S8 => "i8",
        BuiltinType::S16 => "i16",
        BuiltinType::S32 => "i32",
        BuiltinType::S64 => "i64",
        BuiltinType::F32 => "f32",
        BuiltinType::F64 => "f64",
        BuiltinType::Char => "u32",
        BuiltinType::Usize => "usize",
    }
}

pub open spec fn repr_name(r: crate::model::IntRepr) -> Seq<char> {
    match r {
        crate::model::IntRepr::U8 => "u8"@,
        crate::model::IntRepr::U16 => "u16"@,
        crate::model::IntRepr::U32 => "u32"@,
        crate::model::IntRepr::U64 => "u64"@,
    }
}

pub fn render_repr(r: &crate::model::IntRepr) -> (s: &'static str)
    ensures
        s@ == repr_name(*r),
{
    match r {
        crate::model::IntRepr::U8 => "u8",
        crate::model::IntRepr::U16 => "u16",
        crate::model::IntRepr::U32 => "u32",
        crate::model::IntRepr::U64 => "u64",
    }
}

/// Whether `t` can stand as a type expression in emitted source: a name, a
/// builtin, a list of such, a bool-like variant, or a success/failure
/// variant. Anonymous records, handles and pointers cannot.
pub open spec fn t_ok(doc: Document, t: TypeRef) -> bool
    decreases t,
{
    match t {
        TypeRef::Name(j) => j < doc.types.len(),
        TypeRef::Value(td) => td_ok(doc, *td),
    }
}

pub open spec fn td_ok(doc: Document, td: TypeDef) -> bool
    decreases td,
{
    match td {
        TypeDef::Builtin(_) => true,
        TypeDef::List(e) => t_ok(doc, e),
        TypeDef::Variant(v) => v.spec_is_bool() || (v.spec_is_expected() && (match v.cases[0].tref {
            None => true,
            Some(t) => t_ok(doc, t),
        }) && (match v.cases[1].tref {
            None => true,
            Some(t) => t_ok(doc, t),
        })),
        _ => false,
    }
}

/// The type expression `t` renders as.
pub open spec fn ttext(doc: Document, t: TypeRef) -> Seq<char>
    decreases t,
{
    match t {
        TypeRef::Name(j) => if j < doc.types.len() {
            camel_of(doc.types[j as int].name@)
        } else {
            Seq::empty()
        },
        TypeRef::Value(td) => tdtext(doc, *td),
    }
}

pub open spec fn tdtext(doc: Document, td: TypeDef) -> Seq<char>
    decreases td,
{
    match td {
        TypeDef::Builtin(b) => builtin_name(b),
        TypeDef::List(e) => "StaticArray<"@ + ttext(doc, e) + ">"@,
        TypeDef::Variant(v) => if v.spec_is_bool() {
            "bool"@
        } else if v.cases.len() == 2 {
            "WasiResult<"@ + opt_ttext(doc, v.cases[0].tref) + ", "@ + opt_ttext(
                doc,
                v.cases[1].tref,
            ) + ">"@
        } else {
            Seq::empty()
        },
        _ => Seq::empty(),
    }
}

pub open spec fn opt_ttext(doc: Document, ot: Option<TypeRef>) -> Seq<char>
    decreases ot,
{
    match ot {
        None => "void"@,
        Some(t) => ttext(doc, t),
    }
}

/// Renders `t` as a type expression, or refuses a shape that has none.
pub fn render_tref(doc: &Document, t: &TypeRef) -> (r: Result<String, Error>)
    ensures
        match r {
            Ok(s) => t_ok(*doc, *t) && s@ == ttext(*doc, *t),
            Err(e) => !t_ok(*doc, *t) && e == Error::UnsupportedConstruct,
        },
    decreases *t,
{
    match t {
        TypeRef::Name(j) => {
            if *j < doc.types.len() {
                let nt: &crate::model::NamedType = &doc.types[*j];
                Ok(to_camel(nt.name.as_str()))
            } else {
                Err(Error::UnsupportedConstruct)
            }
        },
        TypeRef::Value(td) => render_td(doc, &**td),
    }
}

pub fn render_td(doc: &Document, td: &TypeDef) -> (r: Result<String, Error>)
    ensures
        match r {
            Ok(s) => td_ok(*doc, *td) && s@ == tdtext(*doc, *td),
            Err(e) => !td_ok(*doc, *td) && e == Error::UnsupportedConstruct,
        },
    decreases *td,
{
    match td {
        TypeDef::Builtin(b) => Ok(String::from_str(render_builtin(b))),
        TypeDef::List(e) => {
            let inner = match render_tref(doc, e) {
                Ok(s) => s,
                Err(err) => {
                    return Err(err);
                },
            };
            let mut s = String::from_str("StaticArray<");
            s.append(inner.as_str());
            s.append(">");
            Ok(s)
        },
        TypeDef::Variant(v) => {
            if v.is_bool() {
                return Ok(String::from_str("bool"));
            }
            if !v.is_expected() {
                return Err(Error::UnsupportedConstruct);
            }
            let ok_text = match &v.cases[0].tref {
                None => String::from_str("void"),
                Some(t) => match render_tref(doc, t) {
                    Ok(s) => s,
                    Err(err) => {
                        return Err(err);
                    },
                },
            };
            let err_text = match &v.cases[1].tref {
                None => String::from_str("void"),
                Some(t) => match render_tref(doc, t) {
                    Ok(s) => s,
                    Err(err) => {
                        return Err(err);
                    },
                },
            };
            let mut s = String::from_str("WasiResult<");
            s.append(ok_text.as_str());
            s.append(", ");
            s.append(err_text.as_str());
            s.append(">");
            Ok(s)
        },
        _ => Err(Error::UnsupportedConstruct),
    }
}

/// Whether a value of this concrete type is represented by reference in the
/// target language: memory-mapped classes and arrays are, scalars are not.
pub open spec fn nullable_td(td: TypeDef) -> bool {
    match td {
        TypeDef::List(_) => true,
        TypeDef::Record(r) => !(r.kind is Bitflags),
        TypeDef::Variant(v) => !v.spec_is_bool(),
        _ => false,
    }
}

pub open spec fn nullable_spec(doc: Document, t: TypeRef) -> bool {
    match leaf_spec(doc, t, doc.types.len() as nat) {
        Some(td) => nullable_td(td),
        None => false,
    }
}

/// Whether `t` resolves to a reference-represented type.
pub fn is_nullable(doc: &Document, t: &TypeRef) -> (r: Result<bool, Error>)
    ensures
        match r {
            Ok(b) => b == nullable_spec(*doc, *t) && leaf_spec(*doc, *t, doc.types.len() as nat)
                is Some,
            Err(e) => leaf_spec(*doc, *t, doc.types.len() as nat) is None && e
                == Error::MalformedInput,
        },
{
    let td = match doc.leaf(t) {
        Ok(td) => td,
        Err(e) => {
            return Err(Error::MalformedInput);
        },
    };
    match td {
        TypeDef::List(_) => Ok(true),
        TypeDef::Record(r) => Ok(!matches!(&r.kind, crate::model::RecordKind::Bitflags(_))),
        TypeDef::Variant(v) => Ok(!v.is_bool()),
        _ => Ok(false),
    }
}

} // verus!
