use prost_unwrap::config::Config;
use prost_unwrap::config::Directive;
use prost_unwrap::config::SourceFile;
use prost_unwrap::convert::downcast;
use prost_unwrap::macro_args::MacroArgs;
use prost_unwrap::macro_args::split_string;
use prost_unwrap::schema::Enum;
use prost_unwrap::schema::FieldDef;
use prost_unwrap::schema::Mod;
use prost_unwrap::schema::SchemaItem;
use prost_unwrap::schema::Struct;
use prost_unwrap::schema::VariantDef;
use prost_unwrap::traverse::copy_unwrapped;
use prost_unwrap::traverse::item_struct_impl::StructImpl;
use prost_unwrap::type_path::TypeName;
use prost_unwrap::value::FieldVal;
use prost_unwrap::value::RecordValue;
use prost_unwrap::value::Value;

fn path(parts: &[&str]) -> Vec<String> {
    parts.iter().map(|s| s.to_string()).collect()
}

fn ty(name: &str) -> TypeName {
    TypeName {
        segments: vec![name.to_string()],
        args: vec![],
    }
}

fn ty1(name: &str, arg: TypeName) -> TypeName {
    TypeName {
        segments: vec![name.to_string()],
        args: vec![arg],
    }
}

fn field(name: &str, t: TypeName) -> FieldDef {
    FieldDef {
        name: name.to_string(),
        ty: t,
    }
}

fn fv(name: &str, v: Value) -> FieldVal {
    FieldVal {
        name: name.to_string(),
        value: v,
    }
}

fn record(fqn: &[&str], fields: Vec<FieldVal>) -> Value {
    Value::Record(RecordValue {
        fqn: path(fqn),
        fields,
    })
}

/// Turns marker literals of the compact form into record markers and runs
/// the whole synthesis over the given schema items.
fn mirror_with(items: Vec<SchemaItem>, literals: &[&str]) -> Vec<StructImpl> {
    let lits: Vec<String> = literals.iter().map(|s| s.to_string()).collect();
    let args = MacroArgs::parse("mirror".to_string(), &lits).unwrap();
    let mut directives = vec![
        Directive::FromSource(SourceFile {
            fqn: path(&["test"]),
            items,
        }),
        Directive::WithThisMod(path(&["crate", "mirror"])),
        Directive::WithOriginalMod(path(&["crate", "orig"])),
    ];
    for (fqn, fields) in args.affected_structs.into_iter() {
        let segments = split_string(fqn.as_str(), '.');
        directives.push(Directive::WithStruct(segments, fields));
    }
    let config = Config::parse(directives).unwrap();
    let out = copy_unwrapped(&config).unwrap();
    out.struct_impls()
}

/// The `foo::bar` module tree holding `Foo { a }` and
/// `Bar { a: Option<Foo>, b: Option<Foo>, c: Vec<Foo> }`.
fn foo_bar_items() -> Vec<SchemaItem> {
    vec![SchemaItem::Mod(Mod {
        name: "foo".to_string(),
        items: vec![SchemaItem::Mod(Mod {
            name: "bar".to_string(),
            items: vec![
                SchemaItem::Struct(Struct {
                    name: "Foo".to_string(),
                    fields: vec![field("a", ty("i32"))],
                }),
                SchemaItem::Struct(Struct {
                    name: "Bar".to_string(),
                    fields: vec![
                        field("a", ty1("Option", ty("Foo"))),
                        field("b", ty1("Option", ty("Foo"))),
                        field("c", ty1("Vec", ty("Foo"))),
                    ],
                }),
            ],
        })],
    })]
}

fn foo_value(a: i64) -> Value {
    record(&["foo", "bar", "Foo"], vec![fv("a", Value::Int(a))])
}

#[test]
fn casting_success() {
    let impls = mirror_with(foo_bar_items(), &["foo.bar.Bar.a"]);

    let a = 1;

    let orig = record(
        &["foo", "bar", "Bar"],
        vec![
            fv("a", Value::Optional(Some(Box::new(foo_value(a))))),
            fv("b", Value::Optional(None)),
            fv("c", Value::Sequence(vec![foo_value(a), foo_value(a)])),
        ],
    );
    let sane = record(
        &["foo", "bar", "Bar"],
        vec![
            fv("a", foo_value(a)),
            fv("b", Value::Optional(None)),
            fv("c", Value::Sequence(vec![foo_value(a), foo_value(a)])),
        ],
    );

    assert_eq!(sane, downcast(&impls, &orig).unwrap())
}

#[test]
fn error() {
    let impls = mirror_with(foo_bar_items(), &["foo.bar.Bar.a"]);

    let orig = record(
        &["foo", "bar", "Bar"],
        vec![
            fv("a", Value::Optional(None)),
            fv("b", Value::Optional(None)),
            fv("c", Value::Sequence(vec![])),
        ],
    );

    assert_eq!(
        "foo.bar.Bar.a is required",
        downcast(&impls, &orig).unwrap_err().reason
    )
}

#[test]
fn mirroring_success() {
    let items = vec![SchemaItem::Mod(Mod {
        name: "foo".to_string(),
        items: vec![
            SchemaItem::Enum(Enum {
                name: "Foo".to_string(),
                variants: vec![
                    VariantDef {
                        name: "A".to_string(),
                        payload: Some(ty("BarOne")),
                    },
                    VariantDef {
                        name: "B".to_string(),
                        payload: Some(ty("BarTwo")),
                    },
                ],
            }),
            SchemaItem::Mod(Mod {
                name: "bar_one".to_string(),
                items: vec![
                    SchemaItem::Struct(Struct {
                        name: "BarOne".to_string(),
                        fields: vec![field("a", ty("i32"))],
                    }),
                    SchemaItem::Mod(Mod {
                        name: "baz".to_string(),
                        items: vec![SchemaItem::Struct(Struct {
                            name: "Baz".to_string(),
                            fields: vec![field("a", ty("i32"))],
                        })],
                    }),
                ],
            }),
            SchemaItem::Mod(Mod {
                name: "bar_two".to_string(),
                items: vec![
                    SchemaItem::Struct(Struct {
                        name: "BarTwo".to_string(),
                        fields: vec![field("a", ty("i32"))],
                    }),
                    SchemaItem::Mod(Mod {
                        name: "baz".to_string(),
                        items: vec![SchemaItem::Struct(Struct {
                            name: "Baz".to_string(),
                            fields: vec![field("a", ty("i32"))],
                        })],
                    }),
                ],
            }),
        ],
    })];
    let _impls = mirror_with(items, &[]);
}

#[test]
fn multiple_fields_success() {
    let items = vec![SchemaItem::Mod(Mod {
        name: "foo".to_string(),
        items: vec![
            SchemaItem::Struct(Struct {
                name: "Foo".to_string(),
                fields: vec![field("a", ty("i32"))],
            }),
            SchemaItem::Mod(Mod {
                name: "bar".to_string(),
                items: vec![SchemaItem::Struct(Struct {
                    name: "Bar".to_string(),
                    fields: vec![
                        field("a", ty1("Option", ty("Foo"))),
                        field("b", ty1("Option", ty("Foo"))),
                    ],
                })],
            }),
        ],
    })];
    let impls = mirror_with(items, &["foo.bar.Bar.{a, b}"]);

    let a = 1;
    let foo = |n: i64| record(&["foo", "Foo"], vec![fv("a", Value::Int(n))]);
    let orig = record(
        &["foo", "bar", "Bar"],
        vec![
            fv("a", Value::Optional(Some(Box::new(foo(a))))),
            fv("b", Value::Optional(Some(Box::new(foo(a))))),
        ],
    );
    let _sane = downcast(&impls, &orig).unwrap();
}

#[test]
fn unwrapping_success() {
    let items = vec![SchemaItem::Mod(Mod {
        name: "foo".to_string(),
        items: vec![
            SchemaItem::Struct(Struct {
                name: "Foo".to_string(),
                fields: vec![field("a", ty("i32"))],
            }),
            SchemaItem::Mod(Mod {
                name: "bar".to_string(),
                items: vec![SchemaItem::Struct(Struct {
                    name: "Bar".to_string(),
                    fields: vec![
                        field("a", ty1("Option", ty("Foo"))),
                        field("b", ty1("Option", ty("Foo"))),
                        field("c", ty1("Vec", ty("Foo"))),
                    ],
                })],
            }),
        ],
    })];
    let impls = mirror_with(items, &["foo.bar.Bar.a"]);

    let a = 1;
    let foo = |n: i64| record(&["foo", "Foo"], vec![fv("a", Value::Int(n))]);
    let orig = record(
        &["foo", "bar", "Bar"],
        vec![
            fv("a", Value::Optional(Some(Box::new(foo(a))))),
            fv("b", Value::Optional(None)),
            fv("c", Value::Sequence(vec![foo(a)])),
        ],
    );
    let _sane = downcast(&impls, &orig).unwrap();
}
