use as_witx::abi::{derive_signature, WasmType};
use as_witx::error::Error;
use as_witx::layout::{record_layout, tref_layout, variant_layout};
use as_witx::model::{
    tag_repr_for, BuiltinType, Document, FuncParam, IntRepr, InterfaceFunc, RecordKind,
    RecordMember, RecordType, TypeDef, TypeRef, VariantCase, VariantType,
};

fn empty_doc() -> Document {
    Document { types: vec![], modules: vec![], constants: vec![] }
}

fn builtin(b: BuiltinType) -> TypeRef {
    TypeRef::Value(Box::new(TypeDef::Builtin(b)))
}

fn member(name: &str, tref: TypeRef) -> RecordMember {
    RecordMember { name: name.to_string(), tref, docs: String::new() }
}

fn case(name: &str, tref: Option<TypeRef>) -> VariantCase {
    VariantCase { name: name.to_string(), tref, docs: String::new() }
}

fn param(name: &str, tref: TypeRef) -> FuncParam {
    FuncParam { name: name.to_string(), tref, docs: String::new() }
}

#[test]
fn record_u32_u8_layout() {
    let doc = empty_doc();
    let r = RecordType {
        kind: RecordKind::Other,
        members: vec![member("a", builtin(BuiltinType::U32)), member("b", builtin(BuiltinType::U8))],
    };
    let rl = record_layout(&doc, &r, 0).unwrap();
    assert_eq!(rl.offsets, vec![0, 4]);
    assert_eq!(rl.size, 8);
    assert_eq!(rl.align, 4);
    assert_eq!(rl.size % rl.align, 0);
}

#[test]
fn record_padding_between_members() {
    let doc = empty_doc();
    let r = RecordType {
        kind: RecordKind::Other,
        members: vec![member("a", builtin(BuiltinType::U8)), member("b", builtin(BuiltinType::U64))],
    };
    let rl = record_layout(&doc, &r, 0).unwrap();
    assert_eq!(rl.offsets, vec![0, 8]);
    assert_eq!(rl.size, 16);
    assert_eq!(rl.align, 8);
}

#[test]
fn tag_width_selection() {
    assert_eq!(tag_repr_for(3), IntRepr::U8);
    assert_eq!(tag_repr_for(256), IntRepr::U8);
    assert_eq!(tag_repr_for(300), IntRepr::U16);
    assert_eq!(tag_repr_for(65536), IntRepr::U16);
    assert_eq!(tag_repr_for(70000), IntRepr::U32);
}

#[test]
fn variant_layout_tag_and_payload() {
    let doc = empty_doc();
    let v = VariantType {
        cases: vec![case("ok", Some(builtin(BuiltinType::U64))), case("err", None)],
    };
    let vl = variant_layout(&doc, &v, 0).unwrap();
    assert_eq!(vl.tag_repr, IntRepr::U8);
    assert_eq!(vl.tag_size, 1);
    assert_eq!(vl.payload_offset, 8);
    assert_eq!(vl.size, 16);
    assert_eq!(vl.align, 8);
    assert_eq!(vl.size % vl.align, 0);
}

#[test]
fn builtin_and_list_layouts() {
    let doc = empty_doc();
    let list = TypeRef::Value(Box::new(TypeDef::List(builtin(BuiltinType::U8))));
    let sa = tref_layout(&doc, &list, 0).unwrap();
    assert_eq!((sa.size, sa.align), (8, 4));
    let c = tref_layout(&doc, &builtin(BuiltinType::Char), 0).unwrap();
    assert_eq!((c.size, c.align), (4, 4));
    let h = tref_layout(&doc, &TypeRef::Value(Box::new(TypeDef::Handle)), 0).unwrap();
    assert_eq!((h.size, h.align), (4, 4));
}

#[test]
fn unresolved_name_is_malformed() {
    let doc = empty_doc();
    let e = tref_layout(&doc, &TypeRef::Name(0), 0).unwrap_err();
    assert_eq!(e, Error::MalformedInput);
}

#[test]
fn two_scalar_results_signature() {
    let doc = empty_doc();
    let f = InterfaceFunc {
        name: "pair".to_string(),
        params: vec![param("x", builtin(BuiltinType::U32))],
        results: vec![
            param("first", builtin(BuiltinType::U32)),
            param("second", builtin(BuiltinType::U32)),
        ],
        noreturn: false,
        docs: String::new(),
    };
    let sig = derive_signature(&doc, &f).unwrap();
    assert_eq!(sig.params, vec![WasmType::I32]);
    assert_eq!(sig.ret, Some(WasmType::I32));
    assert_eq!(sig.out_ptrs, vec!["second_ptr".to_string()]);
}

#[test]
fn no_results_no_out_ptrs() {
    let doc = empty_doc();
    let f = InterfaceFunc {
        name: "ping".to_string(),
        params: vec![],
        results: vec![],
        noreturn: false,
        docs: String::new(),
    };
    let sig = derive_signature(&doc, &f).unwrap();
    assert_eq!(sig.params, vec![]);
    assert_eq!(sig.ret, None);
    assert_eq!(sig.out_ptrs, Vec::<String>::new());
}

#[test]
fn list_result_is_unsupported() {
    let doc = empty_doc();
    let f = InterfaceFunc {
        name: "bad".to_string(),
        params: vec![],
        results: vec![param("r", TypeRef::Value(Box::new(TypeDef::List(builtin(
            BuiltinType::U8,
        )))))],
        noreturn: false,
        docs: String::new(),
    };
    assert_eq!(derive_signature(&doc, &f).unwrap_err(), Error::UnsupportedConstruct);
}
