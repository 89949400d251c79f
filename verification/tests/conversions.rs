use prost_unwrap::config::Config;
use prost_unwrap::config::Directive;
use prost_unwrap::config::SourceFile;
use prost_unwrap::convert::downcast;
use prost_unwrap::convert::upcast;
use prost_unwrap::schema::Enum;
use prost_unwrap::schema::FieldDef;
use prost_unwrap::schema::Mod;
use prost_unwrap::schema::SchemaItem;
use prost_unwrap::schema::Struct;
use prost_unwrap::schema::VariantDef;
use prost_unwrap::traverse::MirrorFile;
use prost_unwrap::traverse::copy_unwrapped;
use prost_unwrap::traverse::item_struct_impl::StructImpl;
use prost_unwrap::type_path::TypeName;
use prost_unwrap::value::FieldVal;
use prost_unwrap::value::MapEntry;
use prost_unwrap::value::RecordValue;
use prost_unwrap::value::UnionValue;
use prost_unwrap::value::Value;

fn path(parts: &[&str]) -> Vec<String> {
    parts.iter().map(|s| s.to_string()).collect()
}

fn ty(name: &str) -> TypeName {
    TypeName {
        segments: vec![name.to_string()],
        args: vec![],
    }
}

fn ty1(name: &str, arg: TypeName) -> TypeName {
    TypeName {
        segments: vec![name.to_string()],
        args: vec![arg],
    }
}

fn field(name: &str, t: TypeName) -> FieldDef {
    FieldDef {
        name: name.to_string(),
        ty: t,
    }
}

fn fv(name: &str, v: Value) -> FieldVal {
    FieldVal {
        name: name.to_string(),
        value: v,
    }
}

fn record(fqn: &[&str], fields: Vec<FieldVal>) -> Value {
    Value::Record(RecordValue {
        fqn: path(fqn),
        fields,
    })
}

fn setup(items: Vec<SchemaItem>, extra: Vec<Directive>) -> (MirrorFile, Vec<StructImpl>) {
    let mut directives = vec![
        Directive::FromSource(SourceFile {
            fqn: path(&["test"]),
            items,
        }),
        Directive::WithThisMod(path(&["crate", "sane"])),
        Directive::WithOriginalMod(path(&["crate", "generated"])),
    ];
    directives.extend(extra);
    let config = Config::parse(directives).unwrap();
    let out = copy_unwrapped(&config).unwrap();
    let impls = out.struct_impls();
    (out, impls)
}

/// The scalar-heavy record the source format's generator emits; its two
/// floating-point fields are left aside, floats having no runtime value
/// here.
fn msg_a_schema() -> Struct {
    Struct {
        name: "MsgA".to_string(),
        fields: vec![
            field("f3", ty("i32")),
            field("f4", ty("i64")),
            field("f5", ty("u32")),
            field("f6", ty("u64")),
            field("f7", ty("i32")),
            field("f8", ty("i64")),
            field("f9", ty("u32")),
            field("f10", ty("u64")),
            field("f11", ty("i32")),
            field("f12", ty("i64")),
            field("f13", ty("bool")),
            field("f14", ty("String")),
            field("f15", ty1("Vec", ty("u8"))),
        ],
    }
}

fn msg_a_value(n: i64, b: bool, s: &str, bytes: &[u64]) -> Value {
    record(
        &["MsgA"],
        vec![
            fv("f3", Value::Int(n)),
            fv("f4", Value::Int(n)),
            fv("f5", Value::Uint(n as u64)),
            fv("f6", Value::Uint(n as u64)),
            fv("f7", Value::Int(n)),
            fv("f8", Value::Int(n)),
            fv("f9", Value::Uint(n as u64)),
            fv("f10", Value::Uint(n as u64)),
            fv("f11", Value::Int(n)),
            fv("f12", Value::Int(n)),
            fv("f13", Value::Bool(b)),
            fv("f14", Value::Str(s.to_string())),
            fv(
                "f15",
                Value::Sequence(bytes.iter().map(|x| Value::Uint(*x)).collect()),
            ),
        ],
    )
}

fn field_value<'a>(v: &'a Value, name: &str) -> &'a Value {
    match v {
        Value::Record(rv) => {
            for f in rv.fields.iter() {
                if f.name == name {
                    return &f.value;
                }
            }
            panic!("no such field");
        }
        _ => panic!("not a record"),
    }
}

#[test]
fn mod_test() {
    let items = vec![SchemaItem::Struct(Struct {
        name: "A".to_string(),
        fields: vec![field("f1", ty("i32"))],
    })];
    let (_out, _impls) = setup(items, vec![Directive::WithStruct(path(&["A"]), Vec::new())]);
}

#[test]
fn mod_struct_copied() {
    let items = vec![SchemaItem::Struct(Struct {
        name: "A".to_string(),
        fields: vec![field("f1", ty("i32"))],
    })];
    let (_out, impls) = setup(items, vec![Directive::WithStruct(path(&["A"]), Vec::new())]);

    let orig = record(&["A"], vec![fv("f1", Value::Int(0))]);
    let sane = downcast(&impls, &orig).unwrap();
    assert_eq!(orig, upcast(&impls, &sane));
}

#[test]
fn mod_test_copy_unwrapped() {
    let items = vec![
        SchemaItem::Struct(Struct {
            name: "MsgA".to_string(),
            fields: vec![field("f1", ty("i32"))],
        }),
        SchemaItem::Struct(Struct {
            name: "MsgB".to_string(),
            fields: vec![field("f1", ty1("Option", ty("MsgA")))],
        }),
    ];
    let (_out, impls) = setup(
        items,
        vec![Directive::WithStruct(path(&["MsgB"]), path(&["f1"]))],
    );

    let orig = record(
        &["MsgB"],
        vec![fv(
            "f1",
            Value::Optional(Some(Box::new(record(
                &["MsgA"],
                vec![fv("f1", Value::Int(0))],
            )))),
        )],
    );
    let sane = downcast(&impls, &orig).unwrap();
    assert_eq!(field_value(field_value(&sane, "f1"), "f1"), &Value::Int(0));
    let _orig2 = upcast(&impls, &sane);
}

#[test]
fn mod_test_conversion_nested_struct() {
    let items = vec![
        SchemaItem::Struct(msg_a_schema()),
        SchemaItem::Struct(Struct {
            name: "MsgB".to_string(),
            fields: vec![field("f1", ty1("Option", ty("MsgA")))],
        }),
    ];
    let (_out, impls) = setup(
        items,
        vec![Directive::WithStruct(path(&["MsgB"]), path(&["f1"]))],
    );

    let orig = record(
        &["MsgB"],
        vec![fv(
            "f1",
            Value::Optional(Some(Box::new(msg_a_value(
                0,
                false,
                "foo",
                &[0, 1, 2, 3, 4, 5],
            )))),
        )],
    );
    let sane = downcast(&impls, &orig).unwrap();
    assert_eq!(orig, upcast(&impls, &sane));
}

#[test]
#[should_panic]
fn mod_test_error() {
    let items = vec![
        SchemaItem::Struct(msg_a_schema()),
        SchemaItem::Struct(Struct {
            name: "MsgB".to_string(),
            fields: vec![field("f1", ty1("Option", ty("MsgA")))],
        }),
    ];
    let (_out, impls) = setup(
        items,
        vec![Directive::WithStruct(path(&["MsgB"]), path(&["f1"]))],
    );

    let orig = record(&["MsgB"], vec![fv("f1", Value::Optional(None))]);
    let _sane = downcast(&impls, &orig).unwrap();
}

fn scalar_map_schema_b() -> Struct {
    Struct {
        name: "MsgB".to_string(),
        fields: vec![
            field("f3", TypeName {
                segments: vec!["HashMap".to_string()],
                args: vec![ty("String"), ty("i32")],
            }),
            field("f13", TypeName {
                segments: vec!["HashMap".to_string()],
                args: vec![ty("String"), ty("bool")],
            }),
            field("f14", TypeName {
                segments: vec!["HashMap".to_string()],
                args: vec![ty("String"), ty("String")],
            }),
        ],
    }
}

fn map1(key: &str, v: Value) -> Value {
    Value::Mapping(vec![MapEntry {
        key: key.to_string(),
        value: v,
    }])
}

#[test]
fn mod_test_conversion_hashmap_of_scalars() {
    let items = vec![SchemaItem::Struct(scalar_map_schema_b())];
    let (_out, impls) = setup(
        items,
        vec![Directive::WithStruct(path(&["MsgB"]), Vec::new())],
    );

    let orig = record(
        &["MsgB"],
        vec![
            fv("f3", map1("foo", Value::Int(0))),
            fv("f13", map1("foo", Value::Bool(false))),
            fv("f14", map1("foo", Value::Str("".to_string()))),
        ],
    );
    let sane = downcast(&impls, &orig).unwrap();
    assert_eq!(orig, upcast(&impls, &sane));
}

#[test]
fn mod_test_conversion_hashmap_of_structs() {
    let items = vec![
        SchemaItem::Struct(msg_a_schema()),
        SchemaItem::Struct(Struct {
            name: "MsgB".to_string(),
            fields: vec![field("f1", TypeName {
                segments: vec!["HashMap".to_string()],
                args: vec![ty("String"), ty("MsgA")],
            })],
        }),
    ];
    let (_out, impls) = setup(
        items,
        vec![Directive::WithStruct(path(&["MsgB"]), Vec::new())],
    );

    let orig = record(
        &["MsgB"],
        vec![fv(
            "f1",
            Value::Mapping(vec![
                MapEntry {
                    key: "foo".to_string(),
                    value: msg_a_value(0, false, "foo", &[0, 1, 2, 3, 4, 5]),
                },
                MapEntry {
                    key: "bar".to_string(),
                    value: msg_a_value(1, true, "bar", &[5, 4, 3, 2, 1, 0]),
                },
            ]),
        )],
    );
    let sane = downcast(&impls, &orig).unwrap();
    assert_eq!(orig, upcast(&impls, &sane));
}

#[test]
fn mod_test_conversion_nested_enum() {
    let items = vec![
        SchemaItem::Enum(Enum {
            name: "EnumA".to_string(),
            variants: vec![
                VariantDef {
                    name: "Default".to_string(),
                    payload: None,
                },
                VariantDef {
                    name: "NonDefault".to_string(),
                    payload: None,
                },
            ],
        }),
        SchemaItem::Struct(Struct {
            name: "MsgB".to_string(),
            fields: vec![field("f1", ty("i32"))],
        }),
    ];
    let (_out, impls) = setup(
        items,
        vec![Directive::WithStruct(path(&["MsgB"]), Vec::new())],
    );

    let orig = record(&["MsgB"], vec![fv("f1", Value::Int(1))]);
    let sane = downcast(&impls, &orig).unwrap();
    assert_eq!(orig, upcast(&impls, &sane));
}

#[test]
fn mod_test_conversion_repeated_scalar() {
    let items = vec![SchemaItem::Struct(Struct {
        name: "MsgB".to_string(),
        fields: vec![
            field("f3", ty1("Vec", ty("i32"))),
            field("f13", ty1("Vec", ty("bool"))),
            field("f14", ty1("Vec", ty("String"))),
            field("f15", ty1("Vec", ty1("Vec", ty("u8")))),
        ],
    })];
    let (_out, impls) = setup(
        items,
        vec![Directive::WithStruct(path(&["MsgB"]), Vec::new())],
    );

    let orig = record(
        &["MsgB"],
        vec![
            fv(
                "f3",
                Value::Sequence(vec![Value::Int(0), Value::Int(1)]),
            ),
            fv(
                "f13",
                Value::Sequence(vec![Value::Bool(false), Value::Bool(true)]),
            ),
            fv(
                "f14",
                Value::Sequence(vec![
                    Value::Str("foo".to_string()),
                    Value::Str("bar".to_string()),
                ]),
            ),
            fv(
                "f15",
                Value::Sequence(vec![
                    Value::Sequence(vec![Value::Uint(0), Value::Uint(1)]),
                    Value::Sequence(vec![Value::Uint(0), Value::Uint(1)]),
                ]),
            ),
        ],
    );
    let sane = downcast(&impls, &orig).unwrap();
    match field_value(&sane, "f3") {
        Value::Sequence(v) => assert_eq!(2, v.len()),
        _ => panic!("not a sequence"),
    }
    assert_eq!(orig, upcast(&impls, &sane));
}

#[test]
fn mod_test_conversion_repeated_enum() {
    let items = vec![
        SchemaItem::Enum(Enum {
            name: "EnumA".to_string(),
            variants: vec![
                VariantDef {
                    name: "Default".to_string(),
                    payload: None,
                },
                VariantDef {
                    name: "NonDefault".to_string(),
                    payload: None,
                },
            ],
        }),
        SchemaItem::Struct(Struct {
            name: "MsgB".to_string(),
            fields: vec![field("f1", ty1("Vec", ty("i32")))],
        }),
    ];
    let (_out, impls) = setup(
        items,
        vec![Directive::WithStruct(path(&["MsgB"]), Vec::new())],
    );

    let orig = record(
        &["MsgB"],
        vec![fv(
            "f1",
            Value::Sequence(vec![Value::Int(0), Value::Int(1)]),
        )],
    );
    let sane = downcast(&impls, &orig).unwrap();
    match field_value(&sane, "f1") {
        Value::Sequence(v) => assert_eq!(2, v.len()),
        _ => panic!("not a sequence"),
    }
    assert_eq!(orig, upcast(&impls, &sane));
}

#[test]
fn mod_test_conversion_repeated_struct() {
    let items = vec![
        SchemaItem::Struct(Struct {
            name: "MsgA".to_string(),
            fields: vec![field("f1", ty("i32"))],
        }),
        SchemaItem::Struct(Struct {
            name: "MsgB".to_string(),
            fields: vec![field("f1", ty1("Vec", ty("MsgA")))],
        }),
    ];
    let (_out, impls) = setup(
        items,
        vec![Directive::WithStruct(path(&["MsgB"]), Vec::new())],
    );

    let orig = record(
        &["MsgB"],
        vec![fv(
            "f1",
            Value::Sequence(vec![
                record(&["MsgA"], vec![fv("f1", Value::Int(0))]),
                record(&["MsgA"], vec![fv("f1", Value::Int(1))]),
                record(&["MsgA"], vec![fv("f1", Value::Int(2))]),
            ]),
        )],
    );
    let sane = downcast(&impls, &orig).unwrap();
    match field_value(&sane, "f1") {
        Value::Sequence(v) => assert_eq!(3, v.len()),
        _ => panic!("not a sequence"),
    }
    assert_eq!(orig, upcast(&impls, &sane));
}

fn oneof_items(payload: TypeName, with_msg_a1: bool) -> Vec<SchemaItem> {
    let mut items = Vec::new();
    if with_msg_a1 {
        let mut a1 = msg_a_schema();
        a1.name = "MsgA1".to_string();
        items.push(SchemaItem::Struct(a1));
    }
    items.push(SchemaItem::Mod(Mod {
        name: "msg_b".to_string(),
        items: vec![SchemaItem::Enum(Enum {
            name: "F0".to_string(),
            variants: vec![VariantDef {
                name: "F1".to_string(),
                payload: Some(payload),
            }],
        })],
    }));
    items.push(SchemaItem::Struct(Struct {
        name: "MsgB".to_string(),
        fields: vec![field("f0", ty1("Option", ty("F0")))],
    }));
    items
}

fn oneof_value(payload: Value) -> Value {
    record(
        &["MsgB"],
        vec![fv(
            "f0",
            Value::Optional(Some(Box::new(Value::Union(UnionValue {
                fqn: path(&["msg_b", "F0"]),
                variant: "F1".to_string(),
                payload: Some(Box::new(payload)),
            })))),
        )],
    )
}

#[test]
fn mod_test_conversion_wrapped_oneof_scalars() {
    let (_out, impls) = setup(
        oneof_items(ty("i32"), false),
        vec![Directive::WithStruct(path(&["MsgB"]), Vec::new())],
    );
    let orig = oneof_value(Value::Int(0));
    let sane = downcast(&impls, &orig).unwrap();
    assert_eq!(orig, upcast(&impls, &sane));
}

#[test]
fn mod_test_conversion_unwrapped_oneof_scalars() {
    let (_out, impls) = setup(
        oneof_items(ty("i32"), false),
        vec![Directive::WithStruct(path(&["MsgB"]), path(&["f0"]))],
    );
    let orig = oneof_value(Value::Int(0));
    let sane = downcast(&impls, &orig).unwrap();
    assert_eq!(orig, upcast(&impls, &sane));
}

#[test]
fn mod_test_error_oneof_scalars() {
    let (_out, impls) = setup(
        oneof_items(ty("i32"), false),
        vec![Directive::WithStruct(path(&["MsgB"]), path(&["f0"]))],
    );
    let orig = record(&["MsgB"], vec![fv("f0", Value::Optional(None))]);
    assert!(downcast(&impls, &orig).is_err());
}

#[test]
fn mod_test_conversion_wrapped_oneof_structs() {
    let (_out, impls) = setup(
        oneof_items(ty("MsgA1"), true),
        vec![Directive::WithStruct(path(&["MsgB"]), Vec::new())],
    );
    let mut inner = msg_a_value(0, false, "foo", &[0, 1, 2, 3, 4, 5]);
    if let Value::Record(rv) = &mut inner {
        rv.fqn = path(&["MsgA1"]);
    }
    let orig = oneof_value(inner);
    let sane = downcast(&impls, &orig).unwrap();
    assert_eq!(orig, upcast(&impls, &sane));
}

#[test]
fn mod_test_conversion_unwrapped_oneof_structs() {
    let (_out, impls) = setup(
        oneof_items(ty("MsgA1"), true),
        vec![Directive::WithStruct(path(&["MsgB"]), path(&["f0"]))],
    );
    let mut inner = msg_a_value(0, false, "foo", &[0, 1, 2, 3, 4, 5]);
    if let Value::Record(rv) = &mut inner {
        rv.fqn = path(&["MsgA1"]);
    }
    let orig = oneof_value(inner);
    let sane = downcast(&impls, &orig).unwrap();
    assert_eq!(orig, upcast(&impls, &sane));
}

#[test]
fn mod_test_error_oneof_structs() {
    let (_out, impls) = setup(
        oneof_items(ty("MsgA1"), true),
        vec![Directive::WithStruct(path(&["MsgB"]), path(&["f0"]))],
    );
    let orig = record(&["MsgB"], vec![fv("f0", Value::Optional(None))]);
    assert!(downcast(&impls, &orig).is_err());
}

#[test]
fn mod_test_conversion_wrapped_oneof_enums() {
    let (_out, impls) = setup(
        oneof_items(ty("i32"), false),
        vec![Directive::WithStruct(path(&["MsgB"]), Vec::new())],
    );
    let orig = oneof_value(Value::Int(1));
    let sane = downcast(&impls, &orig).unwrap();
    assert_eq!(orig, upcast(&impls, &sane));
}

#[test]
fn mod_test_conversion_unwrapped_oneof_enums() {
    let (_out, impls) = setup(
        oneof_items(ty("i32"), false),
        vec![Directive::WithStruct(path(&["MsgB"]), path(&["f0"]))],
    );
    let orig = oneof_value(Value::Int(1));
    let sane = downcast(&impls, &orig).unwrap();
    assert_eq!(orig, upcast(&impls, &sane));
}

#[test]
fn mod_test_error_oneof_enums() {
    let (_out, impls) = setup(
        oneof_items(ty("i32"), false),
        vec![Directive::WithStruct(path(&["MsgB"]), path(&["f0"]))],
    );
    let orig = record(&["MsgB"], vec![fv("f0", Value::Optional(None))]);
    assert!(downcast(&impls, &orig).is_err());
}
