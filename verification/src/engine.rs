//! The lowering/lifting engine: a small stack machine whose state is an
//! operand stack of symbolic expressions, a stack of independently buffered
//! output blocks for branch-local code, and the emitted body text.
//!
//! Argument lowering pushes the wire-level operand expressions for each
//! parameter; call emission consumes the whole operand stack; result lifting
//! builds the inverse conversion, composing a conditional from isolated
//! per-arm blocks for a success/failure result.

use vstd::prelude::*;
use vstd::string::StrSliceExecFns;
use vstd::string::StringExecFns;
use crate::astype::{repr_name, render_repr};
use crate::error::Error;
use crate::idents::{as_name_of, camel_of, snake_of, to_as_name, to_camel, to_snake};
use crate::model::{
    Document, BuiltinType, IntRepr, RecordKind, TypeDef, TypeRef, VariantType, leaf_spec,
    spec_tag_repr,
};
use crate::pretty_writer::PrettyWriter;
use crate::strings::{dec_of, joined, join_strings, push_dec, repeated};

verus! {

broadcast use vstd::std_specs::vec::axiom_vec_index_decreases;

/// The address-of expression for a value.
pub open spec fn addr_of(a: Seq<char>) -> Seq<char> {
    "changetype<usize>("@ + a + ")"@
}

/// One indented line appended to `t`.
pub open spec fn wline(t: Seq<char>, ib: Seq<char>, ind: nat, s: Seq<char>) -> Seq<char> {
    t + repeated(ib, ind) + s + "\n"@
}

/// The wire operand expressions that lowering one parameter of type `t`
/// named by the expression `a` pushes, in order.
pub open spec fn lower_texts(doc: Document, t: TypeRef, a: Seq<char>) -> Seq<Seq<char>> {
    match leaf_spec(doc, t, doc.types.len() as nat) {
        None => Seq::empty(),
        Some(td) => match td {
            TypeDef::Builtin(b) => match b {
                BuiltinType::S32 | BuiltinType::S64 | BuiltinType::F32 | BuiltinType::F64 => seq![
                    a,
                ],
                BuiltinType::U64 => seq![a + " as i64"@],
                _ => seq![a + " as i32"@],
            },
            TypeDef::Pointer { .. } => seq![a + " as i32"@],
            TypeDef::Handle => seq![a + " as i32"@],
            TypeDef::Record(r) => match r.kind {
                RecordKind::Bitflags(IntRepr::U64) => seq![a + " as i64"@],
                RecordKind::Bitflags(_) => seq![a + " as i32"@],
                _ => seq![addr_of(a)],
            },
            TypeDef::Variant(v) => if v.spec_is_enum() {
                seq![a + ".tag as i32"@]
            } else {
                seq![addr_of(a)]
            },
            TypeDef::List(_) => seq![addr_of(a), a + ".length"@],
        },
    }
}

/// When lowering a parameter fails: an unresolvable reference, or a
/// conversion that needs the type's name for a type that has none.
pub open spec fn lower_fail(doc: Document, t: TypeRef) -> Option<Error> {
    match leaf_spec(doc, t, doc.types.len() as nat) {
        None => Some(Error::MalformedInput),
        Some(td) => match td {
            TypeDef::Handle | TypeDef::Record(_) => if t is Name {
                None
            } else {
                Some(Error::UnsupportedConstruct)
            },
            TypeDef::Variant(v) => if v.spec_is_enum() && !(t is Name) {
                Some(Error::UnsupportedConstruct)
            } else {
                None
            },
            _ => None,
        },
    }
}

/// When planning the return-pointer slot for a success payload fails: an
/// anonymous payload type, an unresolvable one, or a tuple (which would
/// need one slot per element).
pub open spec fn slot_fail(doc: Document, v: VariantType) -> Option<Error> {
    match v.cases[0].tref {
        None => None,
        Some(okt) => match okt {
            TypeRef::Value(_) => Some(Error::UnsupportedConstruct),
            TypeRef::Name(_) => match leaf_spec(doc, okt, doc.types.len() as nat) {
                None => Some(Error::MalformedInput),
                Some(td) => match td {
                    TypeDef::Record(r) => if r.kind is Tuple {
                        Some(Error::UnsupportedConstruct)
                    } else {
                        None
                    },
                    _ => None,
                },
            },
        },
    }
}

/// Whether the success payload needs a caller-allocated slot.
pub open spec fn has_slot(doc: Document, v: VariantType) -> bool {
    v.cases.len() > 0 && v.cases[0].tref is Some && slot_fail(doc, v) is None
}

/// The class name of the slot's type.
pub open spec fn slot_class(doc: Document, v: VariantType) -> Seq<char> {
    match v.cases[0].tref {
        Some(TypeRef::Name(j)) => camel_of(doc.types[j as int].name@),
        _ => Seq::empty(),
    }
}

/// When preparing return pointers for the single declared result fails.
pub open spec fn prep_fail(doc: Document, t: TypeRef) -> Option<Error> {
    match leaf_spec(doc, t, doc.types.len() as nat) {
        None => Some(Error::MalformedInput),
        Some(td) => match td {
            TypeDef::Variant(v) => if v.spec_is_enum() {
                None
            } else {
                slot_fail(doc, v)
            },
            _ => None,
        },
    }
}

/// The slot declarations written before the call.
pub open spec fn prep_text(doc: Document, t: TypeRef, t0: Seq<char>, ib: Seq<char>, ind: nat) -> Seq<
    char,
> {
    match leaf_spec(doc, t, doc.types.len() as nat) {
        Some(TypeDef::Variant(v)) => if !v.spec_is_enum() && has_slot(doc, v) {
            wline(
                t0,
                ib,
                ind,
                "let rp"@ + dec_of(0) + " = new "@ + slot_class(doc, v) + "();"@,
            )
        } else {
            t0
        },
        _ => t0,
    }
}

/// The slot-address operands pushed for the call.
pub open spec fn prep_ops(doc: Document, t: TypeRef) -> Seq<Seq<char>> {
    match leaf_spec(doc, t, doc.types.len() as nat) {
        Some(TypeDef::Variant(v)) => if !v.spec_is_enum() && has_slot(doc, v) {
            seq!["changetype<usize>(rp0)"@]
        } else {
            Seq::empty()
        },
        _ => Seq::empty(),
    }
}

/// The expression converting the raw wire return `ret` into a value of the
/// (non-branching) type `t`.
pub open spec fn lift_sub_text(doc: Document, t: TypeRef) -> Seq<char> {
    match leaf_spec(doc, t, doc.types.len() as nat) {
        None => Seq::empty(),
        Some(td) => match td {
            TypeDef::Builtin(b) => match b {
                BuiltinType::S32 | BuiltinType::S64 | BuiltinType::F32 | BuiltinType::F64 => "ret"@,
                BuiltinType::S8 => "ret as i8"@,
                BuiltinType::U8 => "ret as u8"@,
                BuiltinType::S16 => "ret as i16"@,
                BuiltinType::U16 => "ret as u16"@,
                BuiltinType::U32 => "ret as u32"@,
                BuiltinType::Usize => "ret as usize"@,
                BuiltinType::U64 => "ret as u64"@,
                BuiltinType::Char => Seq::empty(),
            },
            TypeDef::Pointer { mutable } => if mutable {
                "ret as *mut _"@
            } else {
                "ret as *const _"@
            },
            TypeDef::Handle => "ret as u32"@,
            TypeDef::Record(_) => match t {
                TypeRef::Name(j) => "load<"@ + camel_of(doc.types[j as int].name@) + ">(ret)"@,
                _ => Seq::empty(),
            },
            TypeDef::Variant(v) => match t {
                TypeRef::Name(j) => if v.spec_is_enum() {
                    "new "@ + camel_of(doc.types[j as int].name@) + "("@ + "ret"@ + " as "@
                        + repr_name(spec_tag_repr(v.cases.len() as nat)) + ")"@
                } else {
                    "load<"@ + camel_of(doc.types[j as int].name@) + ">(ret)"@
                },
                _ => Seq::empty(),
            },
            TypeDef::List(_) => Seq::empty(),
        },
    }
}

/// When that conversion is not available.
pub open spec fn lift_sub_fail(doc: Document, t: TypeRef) -> Option<Error> {
    match leaf_spec(doc, t, doc.types.len() as nat) {
        None => Some(Error::MalformedInput),
        Some(td) => match td {
            TypeDef::Builtin(b) => if b is Char {
                Some(Error::UnsupportedConstruct)
            } else {
                None
            },
            TypeDef::Pointer { .. } => None,
            TypeDef::Handle => if t is Name {
                None
            } else {
                Some(Error::UnsupportedConstruct)
            },
            TypeDef::Record(r) => if !(t is Name) || r.kind is Bitflags {
                Some(Error::UnsupportedConstruct)
            } else {
                None
            },
            TypeDef::Variant(_) => if t is Name {
                None
            } else {
                Some(Error::UnsupportedConstruct)
            },
            TypeDef::List(_) => Some(Error::UnsupportedConstruct),
        },
    }
}

/// The value of the success arm of a lifted success/failure result.
pub open spec fn ok_arm_text(doc: Document, v: VariantType) -> Seq<char> {
    match v.cases[0].tref {
        None => "return;"@,
        Some(TypeRef::Name(j)) => "load<"@ + camel_of(doc.types[j as int].name@)
            + ">(changetype<usize>(rp0))"@,
        Some(_) => Seq::empty(),
    }
}

/// The value of the failure arm.
pub open spec fn err_arm_text(doc: Document, v: VariantType) -> Seq<char> {
    match v.cases[1].tref {
        None => "return;"@,
        Some(t) => lift_sub_text(doc, t),
    }
}

/// The expression the whole result lifts to.
pub open spec fn lift_text(doc: Document, t: TypeRef) -> Seq<char> {
    match leaf_spec(doc, t, doc.types.len() as nat) {
        Some(TypeDef::Variant(v)) => if v.spec_is_enum() {
            lift_sub_text(doc, t)
        } else {
            "ret == 0 ? WasiResult.ok("@ + ok_arm_text(doc, v) + ") : WasiResult.err("@
                + err_arm_text(doc, v) + ")"@
        },
        _ => lift_sub_text(doc, t),
    }
}

/// When lifting the result fails.
pub open spec fn lift_fail(doc: Document, t: TypeRef) -> Option<Error> {
    match leaf_spec(doc, t, doc.types.len() as nat) {
        None => Some(Error::MalformedInput),
        Some(TypeDef::Variant(v)) => if v.spec_is_enum() {
            lift_sub_fail(doc, t)
        } else if !v.spec_is_expected() {
            Some(Error::UnsupportedConstruct)
        } else {
            match slot_fail(doc, v) {
                Some(e) => Some(e),
                None => match v.cases[1].tref {
                    None => None,
                    Some(et) => lift_sub_fail(doc, et),
                },
            }
        },
        Some(_) => lift_sub_fail(doc, t),
    }
}

/// What one finished block contributes: the arm's value, prefixed by any
/// statements the arm's isolated buffer accumulated, or a bare return for a
/// payload-free arm.
pub open spec fn block_of(src: Seq<char>, op: Option<Seq<char>>) -> Seq<char> {
    match op {
        None => "return;"@,
        Some(s) => if src.len() == 0 {
            s
        } else {
            "{ "@ + src + "; "@ + s + " }"@
        },
    }
}

/// The call statement: the module- and function-qualified external name
/// applied to the accumulated wire operands, bound to `ret` when the call
/// has a direct result.
pub open spec fn call_text(
    t0: Seq<char>,
    m: Seq<char>,
    n: Seq<char>,
    ops: Seq<Seq<char>>,
    has_ret: bool,
) -> Seq<char> {
    let t1 = if has_ret {
        t0 + "let ret = "@
    } else {
        t0
    };
    t1 + (snake_of(m) + "."@ + as_name_of(snake_of(n)) + "("@ + joined(ops, ", "@) + ");"@)
}

pub struct Engine {
    pub w: PrettyWriter,
    pub operands: Vec<String>,
    pub blocks: Vec<String>,
    pub bufs: Vec<PrettyWriter>,
}

impl Engine {
    pub fn new() -> (r: Engine)
        ensures
            r.w@ == Seq::<char>::empty(),
            r.w.spec_indent() == 0,
            r.w.spec_indent_bytes() == "    "@,
            r.operands.len() == 0,
            r.blocks.len() == 0,
            r.bufs.len() == 0,
    {
        Engine {
            w: PrettyWriter::new("    "),
            operands: Vec::new(),
            blocks: Vec::new(),
            bufs: Vec::new(),
        }
    }

    /// Enters a fresh, isolated accumulator for a branch's code.
    pub fn push_block(&mut self)
        ensures
            final(self).bufs.len() == old(self).bufs.len() + 1,
            forall|i: int|
                0 <= i < old(self).bufs.len() ==> final(self).bufs[i] == old(self).bufs[i],
            final(self).bufs[old(self).bufs.len() as int]@ == Seq::<char>::empty(),
            final(self).w == old(self).w,
            final(self).operands == old(self).operands,
            final(self).blocks == old(self).blocks,
    {
        self.bufs.push(PrettyWriter::new("    "));
    }

    /// Leaves the most recently entered branch, retiring its accumulator and
    /// recording the branch's finished value.
    pub fn finish_block(&mut self, operand: Option<String>)
        requires
            old(self).bufs.len() >= 1,
        ensures
            final(self).bufs@ == old(self).bufs@.drop_last(),
            final(self).blocks.deep_view() == old(self).blocks.deep_view().push(
                block_of(
                    old(self).bufs@.last()@,
                    match operand {
                        Some(s) => Some(s@),
                        None => None,
                    },
                ),
            ),
            final(self).w == old(self).w,
            final(self).operands == old(self).operands,
    {
        let buf = self.bufs.pop();
        let src: String = match buf {
            Some(mut b) => b.finish(),
            None => String::new(),
        };
        let block: String = match operand {
            None => String::from_str("return;"),
            Some(s) => {
                if src.as_str().unicode_len() == 0 {
                    s
                } else {
                    let mut b = String::from_str("{ ");
                    b.append(src.as_str());
                    b.append("; ");
                    b.append(s.as_str());
                    b.append(" }");
                    b
                }
            },
        };
        let ghost old_blocks = self.blocks.deep_view();
        self.blocks.push(block);
        proof {
            assert(self.blocks.deep_view() =~= old_blocks.push(block@));
        }
    }

    /// Declares one caller-allocated slot and remembers nothing: the slot's
    /// symbolic address is pushed separately.
    pub fn allocate_space(&mut self, slot: u64, class_name: &str)
        ensures
            final(self).w@ == wline(
                old(self).w@,
                old(self).w.spec_indent_bytes(),
                old(self).w.spec_indent(),
                "let rp"@ + dec_of(slot as nat) + " = new "@ + class_name@ + "();"@,
            ),
            final(self).w.same_format(&old(self).w),
            final(self).operands == old(self).operands,
            final(self).blocks == old(self).blocks,
            final(self).bufs == old(self).bufs,
    {
        let mut s = String::from_str("let rp");
        push_dec(&mut s, slot);
        s.append(" = new ");
        s.append(class_name);
        s.append("();");
        self.w.write_line(s.as_str());
    }

    /// Lowers one parameter, pushing its wire operand expressions.
    pub fn lower_param(&mut self, doc: &Document, t: &TypeRef, arg: String) -> (r: Result<
        (),
        Error,
    >)
        ensures
            match r {
                Ok(_) => {
                    &&& lower_fail(*doc, *t) is None
                    &&& final(self).operands.deep_view() == old(self).operands.deep_view()
                        + lower_texts(*doc, *t, arg@)
                    &&& final(self).w == old(self).w
                    &&& final(self).blocks == old(self).blocks
                    &&& final(self).bufs == old(self).bufs
                },
                Err(e) => lower_fail(*doc, *t) == Some(e) && *final(self) == *old(self),
            },
    {
        let ghost old_ops = self.operands.deep_view();
        let td = match doc.leaf(t) {
            Ok(td) => td,
            Err(e) => {
                return Err(Error::MalformedInput);
            },
        };
        let named: bool = matches!(t, TypeRef::Name(_));
        match td {
            TypeDef::Builtin(b) => {
                match b {
                    BuiltinType::S32 | BuiltinType::S64 | BuiltinType::F32 | BuiltinType::F64 => {
                        self.operands.push(arg);
                    },
                    BuiltinType::U64 => {
                        let mut s = arg;
                        s.append(" as i64");
                        self.operands.push(s);
                    },
                    _ => {
                        let mut s = arg;
                        s.append(" as i32");
                        self.operands.push(s);
                    },
                }
            },
            TypeDef::Pointer { .. } => {
                let mut s = arg;
                s.append(" as i32");
                self.operands.push(s);
            },
            TypeDef::Handle => {
                if !named {
                    return Err(Error::UnsupportedConstruct);
                }
                let mut s = arg;
                s.append(" as i32");
                self.operands.push(s);
            },
            TypeDef::Record(r) => {
                if !named {
                    return Err(Error::UnsupportedConstruct);
                }
                match &r.kind {
                    RecordKind::Bitflags(IntRepr::U64) => {
                        let mut s = arg;
                        s.append(" as i64");
                        self.operands.push(s);
                    },
                    RecordKind::Bitflags(_) => {
                        let mut s = arg;
                        s.append(" as i32");
                        self.operands.push(s);
                    },
                    _ => {
                        let mut s = String::from_str("changetype<usize>(");
                        s.append(arg.as_str());
                        s.append(")");
                        self.operands.push(s);
                    },
                }
            },
            TypeDef::Variant(v) => {
                if v.is_enum() {
                    if !named {
                        return Err(Error::UnsupportedConstruct);
                    }
                    let mut s = arg;
                    s.append(".tag as i32");
                    self.operands.push(s);
                } else {
                    let mut s = String::from_str("changetype<usize>(");
                    s.append(arg.as_str());
                    s.append(")");
                    self.operands.push(s);
                }
            },
            TypeDef::List(_) => {
                let mut s = String::from_str("changetype<usize>(");
                s.append(arg.as_str());
                s.append(")");
                self.operands.push(s);
                let mut s2 = arg;
                s2.append(".length");
                self.operands.push(s2);
            },
        }
        proof {
            assert(self.operands.deep_view() =~= old_ops + lower_texts(*doc, *t, arg@));
        }
        Ok(())
    }

    /// Allocates the return-pointer slot for the result's success payload,
    /// if its shape asks for one, and pushes the slot's address operand.
    pub fn prep_return_pointer(&mut self, doc: &Document, t: &TypeRef) -> (r: Result<(), Error>)
        ensures
            match r {
                Ok(_) => {
                    &&& prep_fail(*doc, *t) is None
                    &&& final(self).w@ == prep_text(
                        *doc,
                        *t,
                        old(self).w@,
                        old(self).w.spec_indent_bytes(),
                        old(self).w.spec_indent(),
                    )
                    &&& final(self).w.same_format(&old(self).w)
                    &&& final(self).operands.deep_view() == old(self).operands.deep_view()
                        + prep_ops(*doc, *t)
                    &&& final(self).blocks == old(self).blocks
                    &&& final(self).bufs == old(self).bufs
                },
                Err(e) => prep_fail(*doc, *t) == Some(e) && *final(self) == *old(self),
            },
    {
        let ghost old_ops = self.operands.deep_view();
        let td = match doc.leaf(t) {
            Ok(td) => td,
            Err(e) => {
                return Err(Error::MalformedInput);
            },
        };
        let v = match td {
            TypeDef::Variant(v) => v,
            _ => {
                proof {
                    assert(self.operands.deep_view() =~= old_ops + prep_ops(*doc, *t));
                }
                return Ok(());
            },
        };
        if v.is_enum() {
            proof {
                assert(self.operands.deep_view() =~= old_ops + prep_ops(*doc, *t));
            }
            return Ok(());
        }
        if v.cases.len() == 0 {
            proof {
                assert(self.operands.deep_view() =~= old_ops + prep_ops(*doc, *t));
            }
            return Ok(());
        }
        let okt = match &v.cases[0].tref {
            None => {
                proof {
                    assert(self.operands.deep_view() =~= old_ops + prep_ops(*doc, *t));
                }
                return Ok(());
            },
            Some(okt) => okt,
        };
        let j: usize = match okt {
            TypeRef::Name(j) => *j,
            TypeRef::Value(_) => {
                return Err(Error::UnsupportedConstruct);
            },
        };
        let ok_td = match doc.leaf(okt) {
            Ok(td) => td,
            Err(e) => {
                return Err(Error::MalformedInput);
            },
        };
        match ok_td {
            TypeDef::Record(r) => {
                if matches!(&r.kind, RecordKind::Tuple) {
                    return Err(Error::UnsupportedConstruct);
                }
            },
            _ => {},
        }
        proof {
            assert(j < doc.types.len());
        }
        let class_name = to_camel(doc.types[j].name.as_str());
        self.allocate_space(0, class_name.as_str());
        self.operands.push(String::from_str("changetype<usize>(rp0)"));
        proof {
            assert(self.operands.deep_view() =~= old_ops + prep_ops(*doc, *t));
        }
        Ok(())
    }

    /// Emits the call statement from the accumulated operands, in order,
    /// against the module- and function-qualified external name, binding the
    /// direct result to `ret` when there is one.
    pub fn emit_call(&mut self, module_bind: &str, fname: &str, has_ret: bool)
        ensures
            final(self).w@ == call_text(
                old(self).w@,
                module_bind@,
                fname@,
                old(self).operands.deep_view(),
                has_ret,
            ),
            final(self).w.same_format(&old(self).w),
            final(self).operands.len() == 0,
            final(self).blocks == old(self).blocks,
            final(self).bufs == old(self).bufs,
    {
        if has_ret {
            self.w.write("let ret = ");
        }
        let mut s = to_snake(module_bind);
        s.append(".");
        s.append(to_as_name(to_snake(fname).as_str()).as_str());
        s.append("(");
        s.append(join_strings(&self.operands, ", ").as_str());
        s.append(");");
        self.w.write(s.as_str());
        self.operands = Vec::new();
    }

    /// Lifts the single declared result into the returned expression,
    /// evaluating the two arms of a success/failure result in isolated
    /// blocks and composing the selecting conditional.
    pub fn lift_result(&mut self, doc: &Document, t: &TypeRef) -> (r: Result<String, Error>)
        ensures
            match r {
                Ok(s) => {
                    &&& lift_fail(*doc, *t) is None
                    &&& s@ == lift_text(*doc, *t)
                    &&& final(self).w == old(self).w
                    &&& final(self).operands == old(self).operands
                    &&& final(self).blocks.deep_view() == old(self).blocks.deep_view()
                    &&& final(self).bufs@ == old(self).bufs@
                },
                Err(e) => lift_fail(*doc, *t) == Some(e),
            },
    {
        let td = match doc.leaf(t) {
            Ok(td) => td,
            Err(e) => {
                return Err(Error::MalformedInput);
            },
        };
        let v = match td {
            TypeDef::Variant(v) => v,
            _ => {
                return lift_from_ret(doc, t);
            },
        };
        if v.is_enum() {
            return lift_from_ret(doc, t);
        }
        if !v.is_expected() {
            return Err(Error::UnsupportedConstruct);
        }
        let ghost old_self = *self;
        self.push_block();
        let ok_expr: Option<String> = match &v.cases[0].tref {
            None => None,
            Some(okt) => {
                let j: usize = match okt {
                    TypeRef::Name(j) => *j,
                    TypeRef::Value(_) => {
                        return Err(Error::UnsupportedConstruct);
                    },
                };
                let ok_td = match doc.leaf(okt) {
                    Ok(td) => td,
                    Err(e) => {
                        return Err(Error::MalformedInput);
                    },
                };
                match ok_td {
                    TypeDef::Record(r) => {
                        if matches!(&r.kind, RecordKind::Tuple) {
                            return Err(Error::UnsupportedConstruct);
                        }
                    },
                    _ => {},
                }
                let mut s = String::from_str("load<");
                s.append(to_camel(doc.types[j].name.as_str()).as_str());
                s.append(">(changetype<usize>(rp0))");
                Some(s)
            },
        };
        self.finish_block(ok_expr);
        self.push_block();
        let err_expr: Option<String> = match &v.cases[1].tref {
            None => None,
            Some(et) => {
                let e = match lift_from_ret(doc, et) {
                    Ok(s) => s,
                    Err(err) => {
                        return Err(err);
                    },
                };
                Some(e)
            },
        };
        self.finish_block(err_expr);
        let ghost dvb = self.blocks.deep_view();
        proof {
            assert(dvb.len() == self.blocks@.len());
            assert(dvb.len() >= 2);
        }
        let ghost pre_pop = self.blocks@;
        let err_b = match self.blocks.pop() {
            Some(b) => b,
            None => {
                proof {
                    assert(false);
                }
                String::new()
            },
        };
        proof {
            assert(err_b@ == dvb.last()) by {
                assert(err_b == pre_pop.last());
            }
            assert(self.blocks.deep_view() =~= dvb.drop_last());
            assert(self.blocks.deep_view().len() == self.blocks@.len());
        }
        let ghost pre_pop2 = self.blocks@;
        let ok_b = match self.blocks.pop() {
            Some(b) => b,
            None => {
                proof {
                    assert(false);
                }
                String::new()
            },
        };
        proof {
            assert(ok_b@ == dvb.drop_last().last()) by {
                assert(ok_b == pre_pop2.last());
            }
        }
        let mut s = String::from_str("ret == 0 ? WasiResult.ok(");
        s.append(ok_b.as_str());
        s.append(") : WasiResult.err(");
        s.append(err_b.as_str());
        s.append(")");
        proof {
            assert(self.blocks@.len() == old_self.blocks@.len());
            assert forall|i: int|
                0 <= i < self.blocks@.len() implies self.blocks.deep_view()[i]
                == old_self.blocks.deep_view()[i] by {
                assert(self.blocks.deep_view()[i] == self.blocks@[i]@);
                assert(self.blocks@[i] == pre_pop2[i]);
                assert(pre_pop2[i] == pre_pop[i]);
                assert(pre_pop[i]@ == dvb[i]);
                assert(dvb[i] == old_self.blocks.deep_view()[i]);
            }
            assert(self.blocks.deep_view() =~= old_self.blocks.deep_view());
            assert(self.bufs@ =~= old_self.bufs@);
        }
        Ok(s)
    }
}

/// The conversion of the raw wire return `ret` into a value of type `t`,
/// for types that lift without branching.
pub fn lift_from_ret(doc: &Document, t: &TypeRef) -> (r: Result<String, Error>)
    ensures
        match r {
            Ok(s) => lift_sub_fail(*doc, *t) is None && s@ == lift_sub_text(*doc, *t),
            Err(e) => lift_sub_fail(*doc, *t) == Some(e),
        },
{
    let td = match doc.leaf(t) {
        Ok(td) => td,
        Err(e) => {
            return Err(Error::MalformedInput);
        },
    };
    let named: bool = matches!(t, TypeRef::Name(_));
    match td {
        TypeDef::Builtin(b) => {
            match b {
                BuiltinType::S32 | BuiltinType::S64 | BuiltinType::F32 | BuiltinType::F64 => Ok(
                    String::from_str("ret"),
                ),
                BuiltinType::S8 => Ok(String::from_str("ret as i8")),
                BuiltinType::U8 => Ok(String::from_str("ret as u8")),
                BuiltinType::S16 => Ok(String::from_str("ret as i16")),
                BuiltinType::U16 => Ok(String::from_str("ret as u16")),
                BuiltinType::U32 => Ok(String::from_str("ret as u32")),
                BuiltinType::Usize => Ok(String::from_str("ret as usize")),
                BuiltinType::U64 => Ok(String::from_str("ret as u64")),
                BuiltinType::Char => Err(Error::UnsupportedConstruct),
            }
        },
        TypeDef::Pointer { mutable } => {
            if *mutable {
                Ok(String::from_str("ret as *mut _"))
            } else {
                Ok(String::from_str("ret as *const _"))
            }
        },
        TypeDef::Handle => {
            if !named {
                return Err(Error::UnsupportedConstruct);
            }
            Ok(String::from_str("ret as u32"))
        },
        TypeDef::Record(rec) => {
            if matches!(&rec.kind, RecordKind::Bitflags(_)) {
                return Err(Error::UnsupportedConstruct);
            }
            let j: usize = match t {
                TypeRef::Name(j) => *j,
                TypeRef::Value(_) => {
                    return Err(Error::UnsupportedConstruct);
                },
            };
            let mut s = String::from_str("load<");
            s.append(to_camel(doc.types[j].name.as_str()).as_str());
            s.append(">(ret)");
            Ok(s)
        },
        TypeDef::Variant(v) => {
            let j: usize = match t {
                TypeRef::Name(j) => *j,
                TypeRef::Value(_) => {
                    return Err(Error::UnsupportedConstruct);
                },
            };
            if v.is_enum() {
                let mut s = String::from_str("new ");
                s.append(to_camel(doc.types[j].name.as_str()).as_str());
                s.append("(");
                s.append("ret");
                s.append(" as ");
                s.append(render_repr(&crate::model::tag_repr_for(v.cases.len())));
                s.append(")");
                Ok(s)
            } else {
                let mut s = String::from_str("load<");
                s.append(to_camel(doc.types[j].name.as_str()).as_str());
                s.append(">(ret)");
                Ok(s)
            }
        },
        TypeDef::List(_) => Err(Error::UnsupportedConstruct),
    }
}

} // verus!
