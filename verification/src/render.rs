//! Rendering of named-type declarations: alias lines for simple types,
//! memory-mapped classes with explicit padding fields for records, and
//! tagged classes with payload accessors for variants.

use vstd::prelude::*;
use vstd::string::StrSliceExecFns;
use vstd::string::StringExecFns;
use crate::astype::{is_nullable, nullable_spec, render_repr, render_tref, repr_name, t_ok, ttext};
use crate::error::Error;
use crate::idents::{as_name_of, camel_of, to_as_name, to_camel};
use crate::layout::{
    MAX_LAYOUT_SIZE, member_offset, ok_record, ok_variant, pad_width_at, record_layout, repr_sa,
    sa_members, sa_record, sa_variant, tref_layout, variant_layout, variant_payload_offset,
};
use crate::model::{
    Document, NamedType, RecordKind, RecordMember, RecordType, TypeDef, TypeRef, VariantCase,
    VariantType, leaf_spec, spec_tag_repr,
};
use crate::engine::wline;
use crate::pretty_writer::PrettyWriter;
use crate::strings::{dec_of, first_nl, lemma_first_nl_is, push_dec, repeated};

verus! {

broadcast use vstd::std_specs::vec::axiom_vec_index_decreases;

/// The indentation text appended by a bare `indent` call.
pub open spec fn windent(t: Seq<char>, ib: Seq<char>, ind: nat) -> Seq<char> {
    t + repeated(ib, ind)
}

/// The text of a documentation block: nothing for empty documentation, else
/// a comment frame with one line per documentation line.
pub open spec fn doc_lines_text(t: Seq<char>, ib: Seq<char>, ind: nat, s: Seq<char>) -> Seq<char>
    decreases s.len(),
{
    if s.len() == 0 {
        t
    } else {
        let j = first_nl(s);
        let rest = if j + 1 <= s.len() {
            s.skip(j as int + 1)
        } else {
            Seq::empty()
        };
        doc_lines_text(wline(t, ib, ind, " * "@ + s.take(j as int)), ib, ind, rest)
    }
}

pub open spec fn docs_text(t: Seq<char>, ib: Seq<char>, ind: nat, docs: Seq<char>) -> Seq<char> {
    if docs.len() == 0 {
        t
    } else {
        wline(doc_lines_text(wline(t, ib, ind, "/**"@), ib, ind, docs), ib, ind, " */"@)
    }
}

fn write_doc_lines(w: &mut PrettyWriter, docs: &str)
    ensures
        final(w)@ == doc_lines_text(old(w)@, old(w).spec_indent_bytes(), old(w).spec_indent(),
            docs@),
        final(w).same_format(old(w)),
    decreases docs@.len(),
{
    let n = docs.unicode_len();
    if n == 0 {
        return;
    }
    let mut j: usize = 0;
    let mut found = false;
    while !found && j < n
        invariant
            n == docs@.len(),
            j <= n,
            forall|i: int| 0 <= i < j ==> docs@[i] != '\n',
            found ==> j < n && docs@[j as int] == '\n',
        decreases n - j + (if found { 0int } else { 1int }),
    {
        if docs.get_char(j) == '\n' {
            found = true;
        } else {
            j = j + 1;
        }
    }
    proof {
        lemma_first_nl_is(docs@, j as int);
    }
    let line = docs.substring_char(0, j);
    let mut s = String::from_str(" * ");
    s.append(line);
    proof {
        assert(line@ =~= docs@.take(j as int));
    }
    w.write_line(s.as_str());
    if j < n {
        let rest = docs.substring_char(j + 1, n);
        proof {
            assert(rest@ =~= docs@.skip(j as int + 1));
        }
        write_doc_lines(w, rest);
    } else {
        proof {
            assert(doc_lines_text(w@, w.spec_indent_bytes(), w.spec_indent(), Seq::<char>::empty())
                == w@);
        }
    }
}

/// Writes the documentation block of an item, if it has one.
pub fn write_docs(w: &mut PrettyWriter, docs: &str)
    ensures
        final(w)@ == docs_text(old(w)@, old(w).spec_indent_bytes(), old(w).spec_indent(), docs@),
        final(w).same_format(old(w)),
{
    if docs.unicode_len() == 0 {
        return;
    }
    w.write_line("/**");
    write_doc_lines(w, docs);
    w.write_line(" */");
}

/// One padding field declaration, named by its width and byte offset.
pub open spec fn pad_line(t: Seq<char>, ib: Seq<char>, ind: nat, wdt: int, off: int) -> Seq<char> {
    wline(
        t,
        ib,
        ind,
        "private __pad"@ + dec_of((8 * wdt) as nat) + "_"@ + dec_of(off as nat) + ": u"@ + dec_of(
            (8 * wdt) as nat,
        ) + ";"@,
    )
}

/// The padding fields filling a `gap`-byte hole starting at `off`, greedily
/// widest first, each naturally aligned.
pub open spec fn pad_lines(t: Seq<char>, ib: Seq<char>, ind: nat, off: int, gap: int) -> Seq<char>
    decreases gap,
{
    if gap <= 0 {
        t
    } else {
        let wdt = pad_width_at(off, gap);
        pad_lines(pad_line(t, ib, ind, wdt, off), ib, ind, off + wdt, gap - wdt)
    }
}

fn write_pads(w: &mut PrettyWriter, off: u64, gap: u64)
    requires
        gap <= u64::MAX - off,
    ensures
        final(w)@ == pad_lines(old(w)@, old(w).spec_indent_bytes(), old(w).spec_indent(),
            off as int, gap as int),
        final(w).same_format(old(w)),
    decreases gap,
{
    if gap == 0 {
        return;
    }
    let wdt: u64 = if off % 8 == 0 && gap >= 8 {
        8
    } else if off % 4 == 0 && gap >= 4 {
        4
    } else if off % 2 == 0 && gap >= 2 {
        2
    } else {
        1
    };
    let bits: u64 = wdt * 8;
    let mut s = String::from_str("private __pad");
    push_dec(&mut s, bits);
    s.append("_");
    push_dec(&mut s, off);
    s.append(": u");
    push_dec(&mut s, bits);
    s.append(";");
    w.write_line(s.as_str());
    write_pads(w, off + wdt, gap - wdt);
}

/// An alias declaration: the named type's camel-cased name bound to a type
/// expression.
pub open spec fn alias_text(doc: Document, name: Seq<char>, t: TypeRef, t0: Seq<char>) -> Seq<
    char,
> {
    t0 + ("export type "@ + camel_of(name) + " = "@) + ttext(doc, t) + ";"@
}

/// The class declaration of a record: members in declared order, with
/// explicit padding fields wherever the layout leaves a hole.
pub open spec fn one_member_text(
    doc: Document,
    ms: Vec<RecordMember>,
    i: int,
    t: Seq<char>,
    ib: Seq<char>,
    ind: nat,
) -> Seq<char> {
    let bound = doc.types.len() as nat;
    let end = sa_members(doc, ms, i, bound).0;
    let off = member_offset(doc, ms, i, bound);
    let t1 = pad_lines(t, ib, ind, end, off - end);
    let t2 = docs_text(t1, ib, ind, ms[i].docs@);
    wline(t2, ib, ind, as_name_of(ms[i].name@) + ": "@ + ttext(doc, ms[i].tref) + ";"@)
}

pub open spec fn members_text(
    doc: Document,
    ms: Vec<RecordMember>,
    i: int,
    t: Seq<char>,
    ib: Seq<char>,
    ind: nat,
) -> Seq<char>
    decreases i,
{
    if i <= 0 {
        t
    } else {
        one_member_text(doc, ms, i - 1, members_text(doc, ms, i - 1, t, ib, ind), ib, ind)
    }
}

pub open spec fn record_class_text(
    doc: Document,
    name: Seq<char>,
    r: RecordType,
    t0: Seq<char>,
    ib: Seq<char>,
    ind: nat,
) -> Seq<char> {
    let bound = doc.types.len() as nat;
    let n = r.members.len() as int;
    let total = sa_record(doc, r, bound).0;
    let end = sa_members(doc, r.members, n, bound).0;
    let t1 = wline(t0, ib, ind, "// @ts-ignore: decorator"@);
    let t2 = wline(t1, ib, ind, "@unmanaged"@);
    let t3 = t2 + ("export class "@ + camel_of(name) + " "@);
    let t4 = t3 + "{"@;
    let t5 = members_text(doc, r.members, n, t4, ib, ind + 1);
    let t6 = pad_lines(t5, ib, ind + 1, end, total - end);
    t6 + "}"@
}

/// The first member whose type has no rendering, if any.
pub open spec fn members_tfail(doc: Document, ms: Vec<RecordMember>, i: int) -> Option<Error>
    decreases i,
{
    if i <= 0 || i > ms.len() {
        None
    } else {
        match members_tfail(doc, ms, i - 1) {
            Some(e) => Some(e),
            None => if t_ok(doc, ms[i - 1].tref) {
                None
            } else {
                Some(Error::UnsupportedConstruct)
            },
        }
    }
}

pub open spec fn record_fail(doc: Document, r: RecordType) -> Option<Error> {
    if !ok_record(doc, r, doc.types.len() as nat) {
        Some(Error::MalformedInput)
    } else {
        members_tfail(doc, r.members, r.members.len() as int)
    }
}

proof fn lemma_members_tfail_mono(doc: Document, ms: Vec<RecordMember>, i: int, k: int)
    requires
        0 <= i <= k <= ms.len(),
        members_tfail(doc, ms, i) is Some,
    ensures
        members_tfail(doc, ms, k) == members_tfail(doc, ms, i),
    decreases k,
{
    if k > i {
        lemma_members_tfail_mono(doc, ms, i, k - 1);
    }
}

/// Renders the memory-mapped class of a (non-bitflags) record.
pub fn render_record(w: &mut PrettyWriter, doc: &Document, name: &str, r: &RecordType) -> (res:
    Result<(), Error>)
    requires
        old(w).spec_indent() + 2 <= usize::MAX,
        !(r.kind is Bitflags),
    ensures
        match res {
            Ok(_) => {
                &&& record_fail(*doc, *r) is None
                &&& final(w)@ == record_class_text(*doc, name@, *r, old(w)@,
                    old(w).spec_indent_bytes(), old(w).spec_indent())
                &&& final(w).same_format(old(w))
            },
            Err(e) => record_fail(*doc, *r) == Some(e),
        },
{
    let ghost gdoc = *doc;
    let ghost gms = r.members;
    let ghost ib = w.spec_indent_bytes();
    let ghost ind = w.spec_indent();
    let ghost cb = w.spec_continuation_bytes();
    let bound = doc.types.len();
    let rl = match record_layout(doc, r, bound) {
        Ok(rl) => rl,
        Err(e) => {
            return Err(Error::MalformedInput);
        },
    };
    w.write_line("// @ts-ignore: decorator");
    w.write_line("@unmanaged");
    let mut head = String::from_str("export class ");
    head.append(to_camel(name).as_str());
    head.append(" ");
    w.write(head.as_str());
    w.write("{");
    w.push_indent();
    let ghost t4 = w@;
    let n = r.members.len();
    let mut end: u64 = 0;
    let mut i: usize = 0;
    while i < n
        invariant
            gdoc == *doc,
            gms == r.members,
            bound == doc.types.len(),
            !(r.kind is Bitflags),
            ok_record(gdoc, *r, bound as nat),
            n == r.members.len(),
            i <= n,
            members_tfail(gdoc, gms, i as int) is None,
            end as int == sa_members(gdoc, gms, i as int, bound as nat).0,
            end <= MAX_LAYOUT_SIZE,
            rl.offsets.len() == n,
            forall|k: int|
                0 <= k < n ==> #[trigger] rl.offsets[k] as int == member_offset(gdoc, gms, k,
                    bound as nat),
            w@ == members_text(gdoc, gms, i as int, t4, ib, (ind + 1) as nat),
            w.spec_indent_bytes() == ib,
            w.spec_indent() == ind + 1,
            w.spec_continuation_bytes() == cb,
        decreases n - i,
    {
        let m: &RecordMember = &r.members[i];
        proof {
            crate::layout::lemma_ok_members_down(gdoc, gms, i as int + 1, n as int, bound as nat);
        }
        let m_sa = match tref_layout(doc, &m.tref, bound) {
            Ok(sa) => sa,
            Err(e) => {
                proof {
                    assert(false);
                }
                return Err(Error::MalformedInput);
            },
        };
        let off = rl.offsets[i];
        proof {
            crate::layout::lemma_align_up(end as int, m_sa.align as int);
        }
        write_pads(w, end, off - end);
        write_docs(w, m.docs.as_str());
        let tt = match render_tref(doc, &m.tref) {
            Ok(s) => s,
            Err(e) => {
                proof {
                    assert(members_tfail(gdoc, gms, i as int + 1) == Some(
                        Error::UnsupportedConstruct,
                    ));
                    lemma_members_tfail_mono(gdoc, gms, i as int + 1, n as int);
                }
                return Err(Error::UnsupportedConstruct);
            },
        };
        let mut line = to_as_name(m.name.as_str());
        line.append(": ");
        line.append(tt.as_str());
        line.append(";");
        w.write_line(line.as_str());
        end = off + m_sa.size;
        i = i + 1;
    }
    proof {
        crate::layout::lemma_align_up(end as int, crate::layout::max2(sa_members(gdoc, gms,
            n as int, bound as nat).1, 1));
    }
    write_pads(w, end, rl.size - end);
    w.pop_indent();
    w.write("}");
    Ok(())
}

/// The comment line naming one variant case and its tag value.
pub open spec fn case_comment_text(
    doc: Document,
    c: VariantCase,
    i: int,
    t: Seq<char>,
    ib: Seq<char>,
    ind: nat,
) -> Seq<char> {
    match c.tref {
        None => wline(t, ib, ind, "// --- "@ + c.name@ + ": void if tag="@ + dec_of(i as nat)),
        Some(tr) => wline(
            t,
            ib,
            ind,
            "// --- "@ + c.name@ + ": "@ + ttext(doc, tr) + " if tag="@ + dec_of(i as nat),
        ),
    }
}

/// The constructor, predicate and accessor methods of one variant case.
pub open spec fn case_accessors_text(
    doc: Document,
    cls: Seq<char>,
    c: VariantCase,
    i: int,
    t: Seq<char>,
    ib: Seq<char>,
    ind: nat,
) -> Seq<char> {
    match c.tref {
        None => {
            let a1 = wline(t, ib, ind, "static "@ + c.name@ + "(): "@ + cls + " {"@);
            let a2 = windent(a1, ib, ind);
            let a3 = wline(a2, ib, ind, "return "@ + cls + ".new("@ + dec_of(i as nat) + ");"@);
            let a4 = wline(a3, ib, ind, "}"@) + "\n"@;
            let b1 = wline(a4, ib, ind, "set_"@ + c.name@ + "(): void {"@);
            let b2 = windent(b1, ib, ind);
            let b3 = wline(b2, ib, ind, "this.tag = "@ + dec_of(i as nat) + ";"@);
            let b4 = wline(b3, ib, ind, "}"@) + "\n"@;
            let c1 = wline(b4, ib, ind, "is_"@ + c.name@ + "(): bool {"@);
            let c2 = windent(c1, ib, ind);
            let c3 = wline(c2, ib, ind, "return this.tag === "@ + dec_of(i as nat) + ";"@);
            wline(c3, ib, ind, "}"@)
        },
        Some(tr) => {
            let ast = ttext(doc, tr);
            let nb = nullable_spec(doc, tr);
            let a1 = wline(
                t,
                ib,
                ind,
                "static "@ + c.name@ + "(val: "@ + ast + "): "@ + cls + " {"@,
            );
            let a2 = wline(
                a1,
                ib,
                (ind + 1) as nat,
                "return "@ + cls + ".new("@ + dec_of(i as nat) + ", val);"@,
            );
            let a3 = wline(a2, ib, ind, "}"@) + "\n"@;
            let b1 = wline(a3, ib, ind, "set_"@ + c.name@ + "(val: "@ + ast + "): void {"@);
            let b2 = wline(b1, ib, (ind + 1) as nat, "this.tag = "@ + dec_of(i as nat) + ";"@);
            let b3 = wline(b2, ib, (ind + 1) as nat, "this.set(val);"@);
            let b4 = wline(b3, ib, ind, "}"@) + "\n"@;
            let c1 = wline(b4, ib, ind, "is_"@ + c.name@ + "(): bool {"@);
            let c2 = windent(c1, ib, ind);
            let c3 = wline(c2, ib, ind, "return this.tag === "@ + dec_of(i as nat) + ";"@);
            let c4 = wline(c3, ib, ind, "}"@) + "\n"@;
            let d1 = if nb {
                wline(c4, ib, ind, "get_"@ + c.name@ + "(): "@ + ast + " | null {"@)
            } else {
                wline(c4, ib, ind, "get_"@ + c.name@ + "(): "@ + ast + " {"@)
            };
            let d2 = if nb {
                wline(
                    d1,
                    ib,
                    (ind + 1) as nat,
                    "if (this.tag !== "@ + dec_of(i as nat) + ") { return null; }"@,
                )
            } else {
                d1
            };
            let d3 = wline(d2, ib, (ind + 1) as nat, "return this.get<"@ + ast + ">();"@);
            wline(d3, ib, ind, "}"@)
        },
    }
}

pub open spec fn case_text(
    doc: Document,
    cls: Seq<char>,
    c: VariantCase,
    i: int,
    t: Seq<char>,
    ib: Seq<char>,
    ind: nat,
) -> Seq<char> {
    let u1 = t + "\n"@;
    let u2 = case_comment_text(doc, c, i, u1, ib, ind);
    let u3 = u2 + "\n"@;
    case_accessors_text(doc, cls, c, i, u3, ib, ind)
}

pub open spec fn cases_text(
    doc: Document,
    cls: Seq<char>,
    cs: Vec<VariantCase>,
    i: int,
    t: Seq<char>,
    ib: Seq<char>,
    ind: nat,
) -> Seq<char>
    decreases i,
{
    if i <= 0 {
        t
    } else {
        case_text(doc, cls, cs[i - 1], i - 1, cases_text(doc, cls, cs, i - 1, t, ib, ind), ib, ind)
    }
}

/// When rendering one case fails: a payload type with no rendering, or one
/// that does not resolve.
pub open spec fn case_fail(doc: Document, c: VariantCase) -> Option<Error> {
    match c.tref {
        None => None,
        Some(tr) => if !t_ok(doc, tr) {
            Some(Error::UnsupportedConstruct)
        } else if leaf_spec(doc, tr, doc.types.len() as nat) is None {
            Some(Error::MalformedInput)
        } else {
            None
        },
    }
}

pub open spec fn cases_fail(doc: Document, cs: Vec<VariantCase>, i: int) -> Option<Error>
    decreases i,
{
    if i <= 0 || i > cs.len() {
        None
    } else {
        match cases_fail(doc, cs, i - 1) {
            Some(e) => Some(e),
            None => case_fail(doc, cs[i - 1]),
        }
    }
}

proof fn lemma_cases_fail_mono(doc: Document, cs: Vec<VariantCase>, i: int, k: int)
    requires
        0 <= i <= k <= cs.len(),
        cases_fail(doc, cs, i) is Some,
    ensures
        cases_fail(doc, cs, k) == cases_fail(doc, cs, i),
    decreases k,
{
    if k > i {
        lemma_cases_fail_mono(doc, cs, i, k - 1);
    }
}

pub open spec fn variant_fail(doc: Document, v: VariantType) -> Option<Error> {
    if !ok_variant(doc, v, doc.types.len() as nat) {
        Some(Error::MalformedInput)
    } else {
        cases_fail(doc, v.cases, v.cases.len() as int)
    }
}

/// The class declaration of a tagged variant: the tag at the front, padding
/// fields spanning the payload region, a generic get/set accessor pair over
/// the payload bytes, and the per-case methods.
pub open spec fn variant_class_text(
    doc: Document,
    name: Seq<char>,
    v: VariantType,
    t0: Seq<char>,
    ib: Seq<char>,
    ind: nat,
) -> Seq<char> {
    let bound = doc.types.len() as nat;
    let cls = camel_of(name);
    let tag = spec_tag_repr(v.cases.len() as nat);
    let tagname = repr_name(tag);
    let tag_size = repr_sa(tag).0;
    let size = sa_variant(doc, v, bound).0;
    let po = variant_payload_offset(doc, v, bound);
    let psize = size - po;
    let ind1 = (ind + 1) as nat;
    let ind2 = (ind + 2) as nat;
    let ind3 = (ind + 3) as nat;
    let t1 = wline(t0, ib, ind, "// @ts-ignore: decorator"@);
    let t2 = wline(t1, ib, ind, "@unmanaged"@);
    let t3 = t2 + ("export class "@ + cls + " "@);
    let t4 = t3 + "{"@;
    let t5 = wline(t4, ib, ind1, "tag: "@ + tagname + ";"@);
    let t6 = pad_lines(t5, ib, ind1, tag_size, size - tag_size);
    let t7 = t6 + "\n"@;
    let t8 = wline(t7, ib, ind1, "constructor(tag: "@ + tagname + ") {"@);
    let t9 = wline(t8, ib, ind2, "this.tag = tag;"@);
    let t10 = wline(
        t9,
        ib,
        ind2,
        "memory.fill(changetype<usize>(this) + "@ + dec_of(po as nat) + ", 0, "@ + dec_of(
            psize as nat,
        ) + ");"@,
    );
    let t11 = wline(t10, ib, ind1, "}"@) + "\n"@;
    let t12 = wline(t11, ib, ind1, "// @ts-ignore: default"@);
    let t13 = wline(t12, ib, ind1, "static new<T>(tag: u8, val: T = 0): "@ + cls + " {"@);
    let t14 = wline(t13, ib, ind2, "let tu = new "@ + cls + "(tag);"@);
    let t15 = wline(t14, ib, ind2, "tu.set(val);"@);
    let t16 = wline(t15, ib, ind2, "return tu;"@);
    let t17 = wline(t16, ib, ind1, "}"@) + "\n"@;
    let t18 = wline(t17, ib, ind1, "get<T>(): T {"@);
    let t19 = wline(t18, ib, ind2, "// @ts-ignore: cast"@);
    let t20 = wline(
        t19,
        ib,
        ind2,
        "let valBuf = changetype<usize>(this) + "@ + dec_of(po as nat) + ";"@,
    );
    let t21 = wline(t20, ib, ind2, "if (isReference<T>()) {"@);
    let t22 = wline(t21, ib, ind3, "return changetype<T>(valBuf);"@);
    let t23 = wline(t22, ib, ind2, "} else {"@);
    let t24 = wline(t23, ib, ind3, "return load<T>(valBuf);"@);
    let t25 = wline(t24, ib, ind2, "}"@);
    let t26 = wline(t25, ib, ind1, "}"@) + "\n"@;
    let t27 = wline(t26, ib, ind1, "// @ts-ignore: default"@);
    let t28 = wline(t27, ib, ind1, "set<T>(val: T = 0): void {"@);
    let t29 = wline(t28, ib, ind2, "// @ts-ignore: cast"@);
    let t30 = wline(
        t29,
        ib,
        ind2,
        "let valBuf = changetype<usize>(this) + "@ + dec_of(po as nat) + ";"@,
    );
    let t31 = wline(t30, ib, ind2, "memory.fill(valBuf, 0, "@ + dec_of(psize as nat) + ");"@);
    let t32 = wline(t31, ib, ind2, "if (isReference<T>()) {"@);
    let t33 = wline(
        t32,
        ib,
        ind3,
        "(val !== null) && memory.copy(valBuf, changetype<usize>(val), offsetof<T>());"@,
    );
    let t34 = wline(t33, ib, ind2, "} else {"@);
    let t35 = wline(t34, ib, ind3, "store<T>(valBuf, val)"@);
    let t36 = wline(t35, ib, ind2, "}"@);
    let t37 = wline(t36, ib, ind1, "}"@);
    let t38 = cases_text(doc, cls, v.cases, v.cases.len() as int, t37, ib, ind1);
    t38 + "}"@
}

/// Renders the tagged class of a (non-bool) variant.
#[verifier::rlimit(100)]
pub fn render_variant(w: &mut PrettyWriter, doc: &Document, name: &str, v: &VariantType) -> (res:
    Result<(), Error>)
    requires
        old(w).spec_indent() + 4 <= usize::MAX,
    ensures
        match res {
            Ok(_) => {
                &&& variant_fail(*doc, *v) is None
                &&& final(w)@ == variant_class_text(*doc, name@, *v, old(w)@,
                    old(w).spec_indent_bytes(), old(w).spec_indent())
                &&& final(w).same_format(old(w))
            },
            Err(e) => variant_fail(*doc, *v) == Some(e),
        },
{
    let ghost gdoc = *doc;
    let ghost gcs = v.cases;
    let ghost ib = w.spec_indent_bytes();
    let ghost ind = w.spec_indent();
    let ghost cb = w.spec_continuation_bytes();
    let bound = doc.types.len();
    let vl = match variant_layout(doc, v, bound) {
        Ok(vl) => vl,
        Err(e) => {
            return Err(Error::MalformedInput);
        },
    };
    let cls = to_camel(name);
    let tagname = render_repr(&vl.tag_repr);
    w.write_line("// @ts-ignore: decorator");
    w.write_line("@unmanaged");
    let mut head = String::from_str("export class ");
    head.append(cls.as_str());
    head.append(" ");
    w.write(head.as_str());
    w.write("{");
    w.push_indent();
    let mut tagline = String::from_str("tag: ");
    tagline.append(tagname);
    tagline.append(";");
    w.write_line(tagline.as_str());
    write_pads(w, vl.tag_size, vl.size - vl.tag_size);
    w.eob();
    let mut ctor = String::from_str("constructor(tag: ");
    ctor.append(tagname);
    ctor.append(") {");
    w.write_line(ctor.as_str());
    w.push_indent();
    w.write_line("this.tag = tag;");
    let psize = vl.size - vl.payload_offset;
    let mut fill = String::from_str("memory.fill(changetype<usize>(this) + ");
    push_dec(&mut fill, vl.payload_offset);
    fill.append(", 0, ");
    push_dec(&mut fill, psize);
    fill.append(");");
    w.write_line(fill.as_str());
    w.pop_indent();
    w.write_line("}");
    w.eob();
    w.write_line("// @ts-ignore: default");
    let mut snew = String::from_str("static new<T>(tag: u8, val: T = 0): ");
    snew.append(cls.as_str());
    snew.append(" {");
    w.write_line(snew.as_str());
    w.push_indent();
    let mut tu = String::from_str("let tu = new ");
    tu.append(cls.as_str());
    tu.append("(tag);");
    w.write_line(tu.as_str());
    w.write_line("tu.set(val);");
    w.write_line("return tu;");
    w.pop_indent();
    w.write_line("}");
    w.eob();
    w.write_line("get<T>(): T {");
    w.push_indent();
    w.write_line("// @ts-ignore: cast");
    let mut vb = String::from_str("let valBuf = changetype<usize>(this) + ");
    push_dec(&mut vb, vl.payload_offset);
    vb.append(";");
    w.write_line(vb.as_str());
    w.write_line("if (isReference<T>()) {");
    w.push_indent();
    w.write_line("return changetype<T>(valBuf);");
    w.pop_indent();
    w.write_line("} else {");
    w.push_indent();
    w.write_line("return load<T>(valBuf);");
    w.pop_indent();
    w.write_line("}");
    w.pop_indent();
    w.write_line("}");
    w.eob();
    w.write_line("// @ts-ignore: default");
    w.write_line("set<T>(val: T = 0): void {");
    w.push_indent();
    w.write_line("// @ts-ignore: cast");
    let mut vb2 = String::from_str("let valBuf = changetype<usize>(this) + ");
    push_dec(&mut vb2, vl.payload_offset);
    vb2.append(";");
    w.write_line(vb2.as_str());
    let mut fill2 = String::from_str("memory.fill(valBuf, 0, ");
    push_dec(&mut fill2, psize);
    fill2.append(");");
    w.write_line(fill2.as_str());
    w.write_line("if (isReference<T>()) {");
    w.push_indent();
    w.write_line("(val !== null) && memory.copy(valBuf, changetype<usize>(val), offsetof<T>());");
    w.pop_indent();
    w.write_line("} else {");
    w.push_indent();
    w.write_line("store<T>(valBuf, val)");
    w.pop_indent();
    w.write_line("}");
    w.pop_indent();
    w.write_line("}");
    let ghost t37 = w@;
    let n = v.cases.len();
    let mut i: usize = 0;
    while i < n
        invariant
            gdoc == *doc,
            gcs == v.cases,
            bound == doc.types.len(),
            n == v.cases.len(),
            i <= n,
            ok_variant(gdoc, *v, bound as nat),
            cases_fail(gdoc, gcs, i as int) is None,
            w@ == cases_text(gdoc, cls@, gcs, i as int, t37, ib, (ind + 1) as nat),
            cls@ == camel_of(name@),
            w.spec_indent_bytes() == ib,
            w.spec_indent() == ind + 1,
            w.spec_continuation_bytes() == cb,
            ind + 4 <= usize::MAX,
        decreases n - i,
    {
        let c: &VariantCase = &v.cases[i];
        w.eob();
        match &c.tref {
            None => {
                let mut cm = String::from_str("// --- ");
                cm.append(c.name.as_str());
                cm.append(": void if tag=");
                push_dec(&mut cm, i as u64);
                w.write_line(cm.as_str());
                w.eob();
                let mut s1 = String::from_str("static ");
                s1.append(c.name.as_str());
                s1.append("(): ");
                s1.append(cls.as_str());
                s1.append(" {");
                w.write_line(s1.as_str());
                w.indent();
                let mut s2 = String::from_str("return ");
                s2.append(cls.as_str());
                s2.append(".new(");
                push_dec(&mut s2, i as u64);
                s2.append(");");
                w.write_line(s2.as_str());
                w.write_line("}");
                w.eob();
                let mut s3 = String::from_str("set_");
                s3.append(c.name.as_str());
                s3.append("(): void {");
                w.write_line(s3.as_str());
                w.indent();
                let mut s4 = String::from_str("this.tag = ");
                push_dec(&mut s4, i as u64);
                s4.append(";");
                w.write_line(s4.as_str());
                w.write_line("}");
                w.eob();
                let mut s5 = String::from_str("is_");
                s5.append(c.name.as_str());
                s5.append("(): bool {");
                w.write_line(s5.as_str());
                w.indent();
                let mut s6 = String::from_str("return this.tag === ");
                push_dec(&mut s6, i as u64);
                s6.append(";");
                w.write_line(s6.as_str());
                w.write_line("}");
            },
            Some(tr) => {
                let ast = match render_tref(doc, tr) {
                    Ok(s) => s,
                    Err(e) => {
                        proof {
                            assert(case_fail(gdoc, gcs[i as int]) == Some(
                                Error::UnsupportedConstruct,
                            ));
                            assert(cases_fail(gdoc, gcs, i as int + 1) == Some(
                                Error::UnsupportedConstruct,
                            ));
                            lemma_cases_fail_mono(gdoc, gcs, i as int + 1, n as int);
                        }
                        return Err(Error::UnsupportedConstruct);
                    },
                };
                let mut cm = String::from_str("// --- ");
                cm.append(c.name.as_str());
                cm.append(": ");
                cm.append(ast.as_str());
                cm.append(" if tag=");
                push_dec(&mut cm, i as u64);
                w.write_line(cm.as_str());
                w.eob();
                let nb = match is_nullable(doc, tr) {
                    Ok(b) => b,
                    Err(e) => {
                        proof {
                            assert(case_fail(gdoc, gcs[i as int]) == Some(Error::MalformedInput));
                            assert(cases_fail(gdoc, gcs, i as int + 1) == Some(
                                Error::MalformedInput,
                            ));
                            lemma_cases_fail_mono(gdoc, gcs, i as int + 1, n as int);
                        }
                        return Err(Error::MalformedInput);
                    },
                };
                let mut s1 = String::from_str("static ");
                s1.append(c.name.as_str());
                s1.append("(val: ");
                s1.append(ast.as_str());
                s1.append("): ");
                s1.append(cls.as_str());
                s1.append(" {");
                w.write_line(s1.as_str());
                w.push_indent();
                let mut s2 = String::from_str("return ");
                s2.append(cls.as_str());
                s2.append(".new(");
                push_dec(&mut s2, i as u64);
                s2.append(", val);");
                w.write_line(s2.as_str());
                w.pop_indent();
                w.write_line("}");
                w.eob();
                let mut s3 = String::from_str("set_");
                s3.append(c.name.as_str());
                s3.append("(val: ");
                s3.append(ast.as_str());
                s3.append("): void {");
                w.write_line(s3.as_str());
                w.push_indent();
                let mut s4 = String::from_str("this.tag = ");
                push_dec(&mut s4, i as u64);
                s4.append(";");
                w.write_line(s4.as_str());
                w.write_line("this.set(val);");
                w.pop_indent();
                w.write_line("}");
                w.eob();
                let mut s5 = String::from_str("is_");
                s5.append(c.name.as_str());
                s5.append("(): bool {");
                w.write_line(s5.as_str());
                w.indent();
                let mut s6 = String::from_str("return this.tag === ");
                push_dec(&mut s6, i as u64);
                s6.append(";");
                w.write_line(s6.as_str());
                w.write_line("}");
                w.eob();
                let mut s7 = String::from_str("get_");
                s7.append(c.name.as_str());
                s7.append("(): ");
                s7.append(ast.as_str());
                if nb {
                    s7.append(" | null {");
                } else {
                    s7.append(" {");
                }
                w.write_line(s7.as_str());
                w.push_indent();
                if nb {
                    let mut s8 = String::from_str("if (this.tag !== ");
                    push_dec(&mut s8, i as u64);
                    s8.append(") { return null; }");
                    w.write_line(s8.as_str());
                }
                let mut s9 = String::from_str("return this.get<");
                s9.append(ast.as_str());
                s9.append(">();");
                w.write_line(s9.as_str());
                w.pop_indent();
                w.write_line("}");
            },
        }
        i = i + 1;
    }
    w.pop_indent();
    w.write("}");
    Ok(())
}

/// The declaration of the named type at position `i`, followed by a blank
/// line: an alias line for aliases, builtins, lists, handles, bool-like
/// variants and bitflags records; a memory-mapped class for other records
/// and variants. A named pointer type has no declaration: pointers are
/// valid only inside call-boundary plumbing.
pub open spec fn named_type_text(
    doc: Document,
    i: int,
    t0: Seq<char>,
    ib: Seq<char>,
    ind: nat,
) -> Seq<char> {
    let nt = doc.types[i];
    let body = match nt.tref {
        TypeRef::Name(_) => alias_text(doc, nt.name@, nt.tref, t0),
        TypeRef::Value(td) => match *td {
            TypeDef::Builtin(_) => alias_text(doc, nt.name@, nt.tref, t0),
            TypeDef::List(_) => alias_text(doc, nt.name@, nt.tref, t0),
            TypeDef::Handle => t0 + ("export type "@ + camel_of(nt.name@) + " = handle;"@),
            TypeDef::Pointer { .. } => t0,
            TypeDef::Record(r) => match r.kind {
                RecordKind::Bitflags(rep) => t0 + ("export type "@ + camel_of(nt.name@) + " = "@)
                    + repr_name(rep) + ";"@,
                _ => record_class_text(doc, nt.name@, r, t0, ib, ind),
            },
            TypeDef::Variant(v) => if v.spec_is_bool() {
                t0 + ("export type "@ + camel_of(nt.name@) + " = bool;"@)
            } else {
                variant_class_text(doc, nt.name@, v, t0, ib, ind)
            },
        },
    };
    body + "\n"@ + "\n"@
}

pub open spec fn named_fail(doc: Document, i: int) -> Option<Error> {
    let nt = doc.types[i];
    match nt.tref {
        TypeRef::Name(j) => if j < doc.types.len() {
            None
        } else {
            Some(Error::UnsupportedConstruct)
        },
        TypeRef::Value(td) => match *td {
            TypeDef::Builtin(_) => None,
            TypeDef::List(_) => if t_ok(doc, nt.tref) {
                None
            } else {
                Some(Error::UnsupportedConstruct)
            },
            TypeDef::Handle => None,
            TypeDef::Pointer { .. } => Some(Error::UnsupportedConstruct),
            TypeDef::Record(r) => match r.kind {
                RecordKind::Bitflags(_) => None,
                _ => record_fail(doc, r),
            },
            TypeDef::Variant(v) => if v.spec_is_bool() {
                None
            } else {
                variant_fail(doc, v)
            },
        },
    }
}

/// Renders the declaration of the named type at position `i` and the blank
/// line after it.
pub fn render_named_type(w: &mut PrettyWriter, doc: &Document, i: usize) -> (res: Result<
    (),
    Error,
>)
    requires
        i < doc.types.len(),
        old(w).spec_indent() + 4 <= usize::MAX,
    ensures
        match res {
            Ok(_) => {
                &&& named_fail(*doc, i as int) is None
                &&& final(w)@ == named_type_text(*doc, i as int, old(w)@,
                    old(w).spec_indent_bytes(), old(w).spec_indent())
                &&& final(w).same_format(old(w))
            },
            Err(e) => named_fail(*doc, i as int) == Some(e),
        },
{
    let nt: &NamedType = &doc.types[i];
    match &nt.tref {
        TypeRef::Name(j) => {
            if *j >= doc.types.len() {
                return Err(Error::UnsupportedConstruct);
            }
            render_alias(w, doc, nt);
        },
        TypeRef::Value(td) => {
            match &**td {
                TypeDef::Builtin(_) => {
                    render_alias(w, doc, nt);
                },
                TypeDef::List(e) => {
                    if !render_alias_checked(w, doc, nt) {
                        return Err(Error::UnsupportedConstruct);
                    }
                },
                TypeDef::Handle => {
                    let mut s = String::from_str("export type ");
                    s.append(to_camel(nt.name.as_str()).as_str());
                    s.append(" = handle;");
                    w.write(s.as_str());
                },
                TypeDef::Pointer { .. } => {
                    return Err(Error::UnsupportedConstruct);
                },
                TypeDef::Record(r) => {
                    match &r.kind {
                        RecordKind::Bitflags(rep) => {
                            let mut s = String::from_str("export type ");
                            s.append(to_camel(nt.name.as_str()).as_str());
                            s.append(" = ");
                            w.write(s.as_str());
                            w.write(render_repr(rep));
                            w.write(";");
                        },
                        _ => {
                            match render_record(w, doc, nt.name.as_str(), r) {
                                Ok(_) => {},
                                Err(e) => {
                                    return Err(e);
                                },
                            }
                        },
                    }
                },
                TypeDef::Variant(v) => {
                    if v.is_bool() {
                        let mut s = String::from_str("export type ");
                        s.append(to_camel(nt.name.as_str()).as_str());
                        s.append(" = bool;");
                        w.write(s.as_str());
                    } else {
                        match render_variant(w, doc, nt.name.as_str(), v) {
                            Ok(_) => {},
                            Err(e) => {
                                return Err(e);
                            },
                        }
                    }
                },
            }
        },
    }
    w.eob();
    w.eob();
    Ok(())
}

/// Boolean specialization: a named two-case variant whose cases are exactly
/// `false` then `true`, with no payloads, is declared as an alias of the
/// native boolean — never as a tagged structure.
pub proof fn lemma_bool_variant_renders_as_alias(
    doc: Document,
    i: int,
    t0: Seq<char>,
    ib: Seq<char>,
    ind: nat,
)
    requires
        0 <= i < doc.types.len(),
        doc.types[i].tref matches TypeRef::Value(td) && (*td) matches TypeDef::Variant(v)
            && v.spec_is_bool(),
    ensures
        named_fail(doc, i) is None,
        named_type_text(doc, i, t0, ib, ind) == (t0 + ("export type "@ + camel_of(
            doc.types[i].name@,
        ) + " = bool;"@)) + "\n"@ + "\n"@,
{
}

fn render_alias(w: &mut PrettyWriter, doc: &Document, nt: &NamedType)
    requires
        t_ok(*doc, nt.tref),
    ensures
        final(w)@ == alias_text(*doc, nt.name@, nt.tref, old(w)@),
        final(w).same_format(old(w)),
{
    let mut s = String::from_str("export type ");
    s.append(to_camel(nt.name.as_str()).as_str());
    s.append(" = ");
    w.write(s.as_str());
    let tt = match render_tref(doc, &nt.tref) {
        Ok(t) => t,
        Err(e) => {
            proof {
                assert(false);
            }
            String::new()
        },
    };
    w.write(tt.as_str());
    w.write(";");
}

fn render_alias_checked(w: &mut PrettyWriter, doc: &Document, nt: &NamedType) -> (ok: bool)
    ensures
        ok ==> t_ok(*doc, nt.tref) && final(w)@ == alias_text(*doc, nt.name@, nt.tref, old(w)@)
            && final(w).same_format(old(w)),
        !ok ==> !t_ok(*doc, nt.tref),
{
    let tt = match render_tref(doc, &nt.tref) {
        Ok(t) => t,
        Err(e) => {
            return false;
        },
    };
    let mut s = String::from_str("export type ");
    s.append(to_camel(nt.name.as_str()).as_str());
    s.append(" = ");
    w.write(s.as_str());
    w.write(tt.as_str());
    w.write(";");
    true
}

} // verus!
