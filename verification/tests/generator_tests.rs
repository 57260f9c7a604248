use as_witx::error::Error;
use as_witx::generator::{Generator, HEADER_ALIASES, HEADER_CLASSES};
use as_witx::model::{
    BuiltinType, Constant, Document, FuncParam, InterfaceFunc, Module, NamedType, RecordKind,
    RecordMember, RecordType, TypeDef, TypeRef, VariantCase, VariantType,
};

fn builtin(b: BuiltinType) -> TypeRef {
    TypeRef::Value(Box::new(TypeDef::Builtin(b)))
}

fn named(name: &str, tref: TypeRef) -> NamedType {
    NamedType { name: name.to_string(), tref, docs: String::new() }
}

fn member(name: &str, tref: TypeRef) -> RecordMember {
    RecordMember { name: name.to_string(), tref, docs: String::new() }
}

fn case(name: &str, tref: Option<TypeRef>) -> VariantCase {
    VariantCase { name: name.to_string(), tref, docs: String::new() }
}

fn param(name: &str, tref: TypeRef) -> FuncParam {
    FuncParam { name: name.to_string(), tref, docs: String::new() }
}

fn type_doc(types: Vec<NamedType>) -> Document {
    Document { types, modules: vec![], constants: vec![] }
}

#[test]
fn gen_builtin_alias() {
    let doc = type_doc(vec![named("size", builtin(BuiltinType::U32))]);
    let out = Generator::new(None, false).generate(&doc).unwrap();
    assert_eq!(out, "export type Size = u32;\n\n");
}

#[test]
fn gen_list_alias() {
    let doc = type_doc(vec![named("buf", TypeRef::Value(Box::new(TypeDef::List(builtin(
        BuiltinType::U8,
    )))))]);
    let out = Generator::new(None, false).generate(&doc).unwrap();
    assert_eq!(out, "export type Buf = StaticArray<u8>;\n\n");
}

#[test]
fn gen_generation_is_deterministic() {
    let doc = type_doc(vec![
        named("size", builtin(BuiltinType::U32)),
        named("filesize", TypeRef::Name(0)),
    ]);
    let a = Generator::new(None, false).generate(&doc).unwrap();
    let b = Generator::new(None, false).generate(&doc).unwrap();
    assert_eq!(a, b);
    let g = Generator::new(None, true);
    assert_eq!(g.generate(&doc).unwrap(), g.generate(&doc).unwrap());
}

#[test]
fn gen_alias_chain_resolves() {
    let doc = type_doc(vec![
        named("size", builtin(BuiltinType::U32)),
        named("filesize", TypeRef::Name(0)),
        named("big", TypeRef::Name(1)),
    ]);
    let out = Generator::new(None, false).generate(&doc).unwrap();
    assert_eq!(
        out,
        "export type Size = u32;\n\nexport type Filesize = Size;\n\nexport type Big = Filesize;\n\n"
    );
}

#[test]
fn gen_two_cycle_rejected() {
    let doc = type_doc(vec![
        named("a", TypeRef::Name(1)),
        named("b", TypeRef::Name(0)),
    ]);
    assert_eq!(Generator::new(None, false).generate(&doc).unwrap_err(), Error::MalformedInput);
}

#[test]
fn gen_self_cycle_rejected() {
    let doc = type_doc(vec![named("a", TypeRef::Name(0))]);
    assert_eq!(Generator::new(None, false).generate(&doc).unwrap_err(), Error::MalformedInput);
}

#[test]
fn gen_bool_variant_is_alias() {
    let doc = type_doc(vec![named(
        "roundbool",
        TypeRef::Value(Box::new(TypeDef::Variant(VariantType {
            cases: vec![case("false", None), case("true", None)],
        }))),
    )]);
    let out = Generator::new(None, false).generate(&doc).unwrap();
    assert_eq!(out, "export type Roundbool = bool;\n\n");
    assert!(!out.contains("class"));
}

#[test]
fn gen_handle_alias() {
    let doc = type_doc(vec![named("fd", TypeRef::Value(Box::new(TypeDef::Handle)))]);
    let out = Generator::new(None, false).generate(&doc).unwrap();
    assert_eq!(out, "export type Fd = handle;\n\n");
}

#[test]
fn gen_bitflags_record_is_integer_alias() {
    let doc = type_doc(vec![named(
        "rights",
        TypeRef::Value(Box::new(TypeDef::Record(RecordType {
            kind: RecordKind::Bitflags(as_witx::model::IntRepr::U64),
            members: vec![],
        }))),
    )]);
    let out = Generator::new(None, false).generate(&doc).unwrap();
    assert_eq!(out, "export type Rights = u64;\n\n");
}

#[test]
fn gen_named_pointer_is_unsupported() {
    let doc = type_doc(vec![named(
        "p",
        TypeRef::Value(Box::new(TypeDef::Pointer { mutable: true })),
    )]);
    assert_eq!(
        Generator::new(None, false).generate(&doc).unwrap_err(),
        Error::UnsupportedConstruct
    );
}

#[test]
fn gen_record_class_golden() {
    let doc = type_doc(vec![named(
        "pair",
        TypeRef::Value(Box::new(TypeDef::Record(RecordType {
            kind: RecordKind::Other,
            members: vec![
                member("a", builtin(BuiltinType::U32)),
                member("b", builtin(BuiltinType::U8)),
            ],
        }))),
    )]);
    let out = Generator::new(None, false).generate(&doc).unwrap();
    let expected: String = [
        "// @ts-ignore: decorator\n",
        "@unmanaged\n",
        "export class Pair {",
        "    a: u32;\n",
        "    b: u8;\n",
        "    private __pad8_5: u8;\n",
        "    private __pad16_6: u16;\n",
        "}\n\n",
    ]
    .concat();
    assert_eq!(out, expected);
}

#[test]
fn gen_enum_variant_class_golden() {
    let doc = type_doc(vec![named(
        "errno",
        TypeRef::Value(Box::new(TypeDef::Variant(VariantType {
            cases: vec![case("success", None), case("badf", None)],
        }))),
    )]);
    let out = Generator::new(None, false).generate(&doc).unwrap();
    let expected: String = [
        "// @ts-ignore: decorator\n",
        "@unmanaged\n",
        "export class Errno {",
        "    tag: u8;\n",
        "\n",
        "    constructor(tag: u8) {\n",
        "        this.tag = tag;\n",
        "        memory.fill(changetype<usize>(this) + 1, 0, 0);\n",
        "    }\n",
        "\n",
        "    // @ts-ignore: default\n",
        "    static new<T>(tag: u8, val: T = 0): Errno {\n",
        "        let tu = new Errno(tag);\n",
        "        tu.set(val);\n",
        "        return tu;\n",
        "    }\n",
        "\n",
        "    get<T>(): T {\n",
        "        // @ts-ignore: cast\n",
        "        let valBuf = changetype<usize>(this) + 1;\n",
        "        if (isReference<T>()) {\n",
        "            return changetype<T>(valBuf);\n",
        "        } else {\n",
        "            return load<T>(valBuf);\n",
        "        }\n",
        "    }\n",
        "\n",
        "    // @ts-ignore: default\n",
        "    set<T>(val: T = 0): void {\n",
        "        // @ts-ignore: cast\n",
        "        let valBuf = changetype<usize>(this) + 1;\n",
        "        memory.fill(valBuf, 0, 0);\n",
        "        if (isReference<T>()) {\n",
        "            (val !== null) && memory.copy(valBuf, changetype<usize>(val), offsetof<T>());\n",
        "        } else {\n",
        "            store<T>(valBuf, val)\n",
        "        }\n",
        "    }\n",
        "\n",
        "    // --- success: void if tag=0\n",
        "\n",
        "    static success(): Errno {\n",
        "        return Errno.new(0);\n",
        "    }\n",
        "\n",
        "    set_success(): void {\n",
        "        this.tag = 0;\n",
        "    }\n",
        "\n",
        "    is_success(): bool {\n",
        "        return this.tag === 0;\n",
        "    }\n",
        "\n",
        "    // --- badf: void if tag=1\n",
        "\n",
        "    static badf(): Errno {\n",
        "        return Errno.new(1);\n",
        "    }\n",
        "\n",
        "    set_badf(): void {\n",
        "        this.tag = 1;\n",
        "    }\n",
        "\n",
        "    is_badf(): bool {\n",
        "        return this.tag === 1;\n",
        "    }\n",
        "}\n\n",
    ]
    .concat();
    assert_eq!(out, expected);
}

#[test]
fn gen_payload_variant_class_golden() {
    let doc = type_doc(vec![
        named("size", builtin(BuiltinType::U32)),
        named(
            "thing",
            TypeRef::Value(Box::new(TypeDef::Variant(VariantType {
                cases: vec![case("none", None), case("some", Some(TypeRef::Name(0)))],
            }))),
        ),
    ]);
    let out = Generator::new(None, false).generate(&doc).unwrap();
    let expected: String = [
        "export type Size = u32;\n\n",
        "// @ts-ignore: decorator\n",
        "@unmanaged\n",
        "export class Thing {",
        "    tag: u8;\n",
        "    private __pad8_1: u8;\n",
        "    private __pad16_2: u16;\n",
        "    private __pad32_4: u32;\n",
        "\n",
        "    constructor(tag: u8) {\n",
        "        this.tag = tag;\n",
        "        memory.fill(changetype<usize>(this) + 4, 0, 4);\n",
        "    }\n",
        "\n",
        "    // @ts-ignore: default\n",
        "    static new<T>(tag: u8, val: T = 0): Thing {\n",
        "        let tu = new Thing(tag);\n",
        "        tu.set(val);\n",
        "        return tu;\n",
        "    }\n",
        "\n",
        "    get<T>(): T {\n",
        "        // @ts-ignore: cast\n",
        "        let valBuf = changetype<usize>(this) + 4;\n",
        "        if (isReference<T>()) {\n",
        "            return changetype<T>(valBuf);\n",
        "        } else {\n",
        "            return load<T>(valBuf);\n",
        "        }\n",
        "    }\n",
        "\n",
        "    // @ts-ignore: default\n",
        "    set<T>(val: T = 0): void {\n",
        "        // @ts-ignore: cast\n",
        "        let valBuf = changetype<usize>(this) + 4;\n",
        "        memory.fill(valBuf, 0, 4);\n",
        "        if (isReference<T>()) {\n",
        "            (val !== null) && memory.copy(valBuf, changetype<usize>(val), offsetof<T>());\n",
        "        } else {\n",
        "            store<T>(valBuf, val)\n",
        "        }\n",
        "    }\n",
        "\n",
        "    // --- none: void if tag=0\n",
        "\n",
        "    static none(): Thing {\n",
        "        return Thing.new(0);\n",
        "    }\n",
        "\n",
        "    set_none(): void {\n",
        "        this.tag = 0;\n",
        "    }\n",
        "\n",
        "    is_none(): bool {\n",
        "        return this.tag === 0;\n",
        "    }\n",
        "\n",
        "    // --- some: Size if tag=1\n",
        "\n",
        "    static some(val: Size): Thing {\n",
        "        return Thing.new(1, val);\n",
        "    }\n",
        "\n",
        "    set_some(val: Size): void {\n",
        "        this.tag = 1;\n",
        "        this.set(val);\n",
        "    }\n",
        "\n",
        "    is_some(): bool {\n",
        "        return this.tag === 1;\n",
        "    }\n",
        "\n",
        "    get_some(): Size {\n",
        "        return this.get<Size>();\n",
        "    }\n",
        "}\n\n",
    ]
    .concat();
    assert_eq!(out, expected);
}

#[test]
fn gen_module_golden() {
    let doc = Document {
        types: vec![],
        modules: vec![Module {
            name: "wasi_ephemeral_nn".to_string(),
            funcs: vec![InterfaceFunc {
                name: "compute".to_string(),
                params: vec![param("x", builtin(BuiltinType::U32))],
                results: vec![],
                noreturn: false,
                docs: String::new(),
            }],
            docs: String::new(),
        }],
        constants: vec![],
    };
    let out = Generator::new(None, false).generate(&doc).unwrap();
    let expected: String = [
        "export function compute(x: u32){wasi_ephemeral_nn.compute(x as i32);}\n\n",
        "export namespace WasiEphemeralNn{",
        "export declare function compute(arg0: i32, );\n",
        "}\n\n",
    ]
    .concat();
    assert_eq!(out, expected);
}

#[test]
fn gen_module_name_override_changes_binding_target() {
    let doc = Document {
        types: vec![],
        modules: vec![Module {
            name: "wasi_ephemeral_nn".to_string(),
            funcs: vec![InterfaceFunc {
                name: "compute".to_string(),
                params: vec![param("x", builtin(BuiltinType::U32))],
                results: vec![],
                noreturn: false,
                docs: String::new(),
            }],
            docs: String::new(),
        }],
        constants: vec![],
    };
    let out = Generator::new(Some("the_mod".to_string()), false).generate(&doc).unwrap();
    let expected: String = [
        "export function compute(x: u32){the_mod.compute(x as i32);}\n\n",
        "export namespace WasiEphemeralNn{",
        "export declare function compute(arg0: i32, );\n",
        "}\n\n",
    ]
    .concat();
    assert_eq!(out, expected);
}

#[test]
fn gen_expected_result_golden() {
    // A function whose result is the conventional success/failure variant:
    // the tag is returned directly and the success payload travels through
    // exactly one output pointer named after the declared result.
    let doc = Document {
        types: vec![
            named("size", builtin(BuiltinType::U32)),
            named(
                "errno",
                TypeRef::Value(Box::new(TypeDef::Variant(VariantType {
                    cases: vec![case("success", None), case("badf", None)],
                }))),
            ),
        ],
        modules: vec![Module {
            name: "wasi".to_string(),
            funcs: vec![InterfaceFunc {
                name: "read".to_string(),
                params: vec![param("fd", builtin(BuiltinType::U32))],
                results: vec![param(
                    "error",
                    TypeRef::Value(Box::new(TypeDef::Variant(VariantType {
                        cases: vec![
                            case("ok", Some(TypeRef::Name(0))),
                            case("err", Some(TypeRef::Name(1))),
                        ],
                    }))),
                )],
                noreturn: false,
                docs: String::new(),
            }],
            docs: String::new(),
        }],
        constants: vec![],
    };
    let out = Generator::new(None, false).generate(&doc).unwrap();
    assert!(out.starts_with("export type Size = u32;\n\n// @ts-ignore: decorator\n"));
    let module_part: String = [
        "export function read(fd: u32): WasiResult<Size, Errno>{",
        "let rp0 = new Size();\n",
        "let ret = wasi.read(fd as i32, changetype<usize>(rp0));",
        "return ret == 0 ? WasiResult.ok(load<Size>(changetype<usize>(rp0))) : WasiResult.err(new Errno(ret as u8));",
        "}\n\n",
        "export namespace Wasi{",
        "export declare function read(arg0: i32, error_ptr: i32, ): i32;\n",
        "}\n\n",
    ]
    .concat();
    assert!(out.ends_with(module_part.as_str()));
    // exactly one output pointer, named after the declared result
    assert_eq!(out.matches("error_ptr").count(), 1);
}

#[test]
fn gen_noreturn_renders_void() {
    let doc = Document {
        types: vec![],
        modules: vec![Module {
            name: "sys".to_string(),
            funcs: vec![InterfaceFunc {
                name: "exit".to_string(),
                params: vec![param("code", builtin(BuiltinType::U32))],
                results: vec![],
                noreturn: true,
                docs: String::new(),
            }],
            docs: String::new(),
        }],
        constants: vec![],
    };
    let out = Generator::new(None, false).generate(&doc).unwrap();
    let expected: String = [
        "export function exit(code: u32){sys.exit(code as i32);}\n\n",
        "export namespace Sys{",
        "export declare function exit(arg0: i32, ): void;\n",
        "}\n\n",
    ]
    .concat();
    assert_eq!(out, expected);
}

#[test]
fn gen_constants_golden() {
    let doc = Document {
        types: vec![],
        modules: vec![],
        constants: vec![
            Constant {
                ty: "errno".to_string(),
                name: "success".to_string(),
                value: 0,
                docs: String::new(),
            },
            Constant {
                ty: "errno".to_string(),
                name: "badf".to_string(),
                value: 8,
                docs: String::new(),
            },
        ],
    };
    let out = Generator::new(None, false).generate(&doc).unwrap();
    assert_eq!(
        out,
        "public const ERRNO_SUCCESS: Errno = 0;\npublic const ERRNO_BADF: Errno = 8;\n"
    );
}

#[test]
fn gen_header_is_verbatim() {
    let doc = Document { types: vec![], modules: vec![], constants: vec![] };
    let out = Generator::new(None, true).generate(&doc).unwrap();
    let expected = format!("{}{}\n", HEADER_ALIASES, HEADER_CLASSES);
    assert_eq!(out, expected);
}

#[test]
fn gen_multi_param_lowering_golden() {
    // every argument conversion kind at once, and a function name whose
    // snake-case form differs from the declared one
    let doc = Document {
        types: vec![named(
            "errno",
            TypeRef::Value(Box::new(TypeDef::Variant(VariantType {
                cases: vec![case("success", None), case("badf", None)],
            }))),
        )],
        modules: vec![Module {
            name: "machina".to_string(),
            funcs: vec![InterfaceFunc {
                name: "readBytes".to_string(),
                params: vec![
                    param("a", builtin(BuiltinType::U64)),
                    param("off", builtin(BuiltinType::S64)),
                    param("b", builtin(BuiltinType::F32)),
                    param(
                        "lst",
                        TypeRef::Value(Box::new(TypeDef::List(builtin(BuiltinType::U8)))),
                    ),
                    param("e", TypeRef::Name(0)),
                ],
                results: vec![],
                noreturn: false,
                docs: String::new(),
            }],
            docs: String::new(),
        }],
        constants: vec![],
    };
    let out = Generator::new(None, false).generate(&doc).unwrap();
    let module_part: String = [
        "export function read_bytes(a: u64, off: i64, b: f32, lst: StaticArray<u8>, e: Errno){",
        "machina.read_bytes(a as i64, off, b, changetype<usize>(lst), lst.length, e.tag as i32);",
        "}\n\n",
        "export namespace Machina{",
        "export declare function read_bytes(arg0: i64, arg1: i64, arg2: f32, arg3: i32, arg4: i32, arg5: i32, );\n",
        "}\n\n",
    ]
    .concat();
    assert!(out.ends_with(module_part.as_str()));
}

#[test]
fn gen_char_result_is_unsupported() {
    let doc = Document {
        types: vec![],
        modules: vec![Module {
            name: "m".to_string(),
            funcs: vec![InterfaceFunc {
                name: "f".to_string(),
                params: vec![],
                results: vec![param("c", builtin(BuiltinType::Char))],
                noreturn: false,
                docs: String::new(),
            }],
            docs: String::new(),
        }],
        constants: vec![],
    };
    assert_eq!(
        Generator::new(None, false).generate(&doc).unwrap_err(),
        Error::UnsupportedConstruct
    );
}

#[test]
fn gen_two_declared_results_are_unsupported() {
    let doc = Document {
        types: vec![],
        modules: vec![Module {
            name: "m".to_string(),
            funcs: vec![InterfaceFunc {
                name: "f".to_string(),
                params: vec![],
                results: vec![
                    param("first", builtin(BuiltinType::U32)),
                    param("second", builtin(BuiltinType::U32)),
                ],
                noreturn: false,
                docs: String::new(),
            }],
            docs: String::new(),
        }],
        constants: vec![],
    };
    assert_eq!(
        Generator::new(None, false).generate(&doc).unwrap_err(),
        Error::UnsupportedConstruct
    );
}

#[test]
fn gen_noreturn_with_result_is_unsupported() {
    let doc = Document {
        types: vec![],
        modules: vec![Module {
            name: "m".to_string(),
            funcs: vec![InterfaceFunc {
                name: "f".to_string(),
                params: vec![],
                results: vec![param("r", builtin(BuiltinType::U32))],
                noreturn: true,
                docs: String::new(),
            }],
            docs: String::new(),
        }],
        constants: vec![],
    };
    assert_eq!(
        Generator::new(None, false).generate(&doc).unwrap_err(),
        Error::UnsupportedConstruct
    );
}

#[test]
fn gen_usize_and_char_params() {
    let doc = Document {
        types: vec![],
        modules: vec![Module {
            name: "m".to_string(),
            funcs: vec![InterfaceFunc {
                name: "seek".to_string(),
                params: vec![
                    param("pos", builtin(BuiltinType::Usize)),
                    param("ch", builtin(BuiltinType::Char)),
                ],
                results: vec![],
                noreturn: false,
                docs: String::new(),
            }],
            docs: String::new(),
        }],
        constants: vec![],
    };
    let out = Generator::new(None, false).generate(&doc).unwrap();
    assert!(out.starts_with("export function seek(pos: usize, ch: u32){m.seek(pos as i32, ch as i32);}"));
}

#[test]
fn gen_nullable_payload_and_member_docs_golden() {
    // a documented record member, a named member type, and a variant payload
    // represented by reference, whose accessor must gate on the tag
    let doc = type_doc(vec![
        named("size", builtin(BuiltinType::U32)),
        NamedType {
            name: "pair".to_string(),
            tref: TypeRef::Value(Box::new(TypeDef::Record(RecordType {
                kind: RecordKind::Other,
                members: vec![
                    RecordMember {
                        name: "sz".to_string(),
                        tref: TypeRef::Name(0),
                        docs: "the length".to_string(),
                    },
                    member(
                        "raw",
                        TypeRef::Value(Box::new(TypeDef::List(builtin(BuiltinType::U8)))),
                    ),
                ],
            }))),
            docs: String::new(),
        },
        named(
            "opt",
            TypeRef::Value(Box::new(TypeDef::Variant(VariantType {
                cases: vec![case("none", None), case("some", Some(TypeRef::Name(1)))],
            }))),
        ),
    ]);
    let out = Generator::new(None, false).generate(&doc).unwrap();
    let expected: String = [
        "export type Size = u32;\n\n",
        "// @ts-ignore: decorator\n",
        "@unmanaged\n",
        "export class Pair {",
        "    /**\n",
        "     * the length\n",
        "     */\n",
        "    sz: Size;\n",
        "    raw: StaticArray<u8>;\n",
        "}\n\n",
        "// @ts-ignore: decorator\n",
        "@unmanaged\n",
        "export class Opt {",
        "    tag: u8;\n",
        "    private __pad8_1: u8;\n",
        "    private __pad16_2: u16;\n",
        "    private __pad32_4: u32;\n",
        "    private __pad64_8: u64;\n",
        "\n",
        "    constructor(tag: u8) {\n",
        "        this.tag = tag;\n",
        "        memory.fill(changetype<usize>(this) + 4, 0, 12);\n",
        "    }\n",
        "\n",
        "    // @ts-ignore: default\n",
        "    static new<T>(tag: u8, val: T = 0): Opt {\n",
        "        let tu = new Opt(tag);\n",
        "        tu.set(val);\n",
        "        return tu;\n",
        "    }\n",
        "\n",
        "    get<T>(): T {\n",
        "        // @ts-ignore: cast\n",
        "        let valBuf = changetype<usize>(this) + 4;\n",
        "        if (isReference<T>()) {\n",
        "            return changetype<T>(valBuf);\n",
        "        } else {\n",
        "            return load<T>(valBuf);\n",
        "        }\n",
        "    }\n",
        "\n",
        "    // @ts-ignore: default\n",
        "    set<T>(val: T = 0): void {\n",
        "        // @ts-ignore: cast\n",
        "        let valBuf = changetype<usize>(this) + 4;\n",
        "        memory.fill(valBuf, 0, 12);\n",
        "        if (isReference<T>()) {\n",
        "            (val !== null) && memory.copy(valBuf, changetype<usize>(val), offsetof<T>());\n",
        "        } else {\n",
        "            store<T>(valBuf, val)\n",
        "        }\n",
        "    }\n",
        "\n",
        "    // --- none: void if tag=0\n",
        "\n",
        "    static none(): Opt {\n",
        "        return Opt.new(0);\n",
        "    }\n",
        "\n",
        "    set_none(): void {\n",
        "        this.tag = 0;\n",
        "    }\n",
        "\n",
        "    is_none(): bool {\n",
        "        return this.tag === 0;\n",
        "    }\n",
        "\n",
        "    // --- some: Pair if tag=1\n",
        "\n",
        "    static some(val: Pair): Opt {\n",
        "        return Opt.new(1, val);\n",
        "    }\n",
        "\n",
        "    set_some(val: Pair): void {\n",
        "        this.tag = 1;\n",
        "        this.set(val);\n",
        "    }\n",
        "\n",
        "    is_some(): bool {\n",
        "        return this.tag === 1;\n",
        "    }\n",
        "\n",
        "    get_some(): Pair | null {\n",
        "        if (this.tag !== 1) { return null; }\n",
        "        return this.get<Pair>();\n",
        "    }\n",
        "}\n\n",
    ]
    .concat();
    assert_eq!(out, expected);
}

#[test]
fn gen_tuple_payload_is_unsupported() {
    // a success payload that is a tuple would need one slot per element
    let doc = Document {
        types: vec![
            named(
                "pair",
                TypeRef::Value(Box::new(TypeDef::Record(RecordType {
                    kind: RecordKind::Tuple,
                    members: vec![
                        member("0", builtin(BuiltinType::U32)),
                        member("1", builtin(BuiltinType::U32)),
                    ],
                }))),
            ),
            named(
                "errno",
                TypeRef::Value(Box::new(TypeDef::Variant(VariantType {
                    cases: vec![case("success", None), case("badf", None)],
                }))),
            ),
        ],
        modules: vec![Module {
            name: "m".to_string(),
            funcs: vec![InterfaceFunc {
                name: "f".to_string(),
                params: vec![],
                results: vec![param(
                    "error",
                    TypeRef::Value(Box::new(TypeDef::Variant(VariantType {
                        cases: vec![
                            case("ok", Some(TypeRef::Name(0))),
                            case("err", Some(TypeRef::Name(1))),
                        ],
                    }))),
                )],
                noreturn: false,
                docs: String::new(),
            }],
            docs: String::new(),
        }],
        constants: vec![],
    };
    assert_eq!(
        Generator::new(None, false).generate(&doc).unwrap_err(),
        Error::UnsupportedConstruct
    );
}

#[test]
fn gen_bitflags_param_lowers_to_wide_integer() {
    let doc = Document {
        types: vec![named(
            "rights",
            TypeRef::Value(Box::new(TypeDef::Record(RecordType {
                kind: RecordKind::Bitflags(as_witx::model::IntRepr::U64),
                members: vec![],
            }))),
        )],
        modules: vec![Module {
            name: "m".to_string(),
            funcs: vec![InterfaceFunc {
                name: "grant".to_string(),
                params: vec![param("r", TypeRef::Name(0))],
                results: vec![],
                noreturn: false,
                docs: String::new(),
            }],
            docs: String::new(),
        }],
        constants: vec![],
    };
    let out = Generator::new(None, false).generate(&doc).unwrap();
    assert!(out.contains("export function grant(r: Rights){m.grant(r as i64);}"));
    assert!(out.contains("export declare function grant(arg0: i64, );"));
}

#[test]
fn gen_docs_are_framed() {
    let doc = type_doc(vec![]);
    let doc = Document {
        modules: vec![Module {
            name: "m".to_string(),
            funcs: vec![InterfaceFunc {
                name: "f".to_string(),
                params: vec![],
                results: vec![],
                noreturn: false,
                docs: "first line\nsecond line".to_string(),
            }],
            docs: String::new(),
        }],
        ..doc
    };
    let out = Generator::new(None, false).generate(&doc).unwrap();
    assert!(out.starts_with("/**\n * first line\n * second line\n */\nexport function f()"));
}
