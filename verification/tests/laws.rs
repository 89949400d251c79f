use prost_unwrap::config::Config;
use prost_unwrap::config::ConfigError;
use prost_unwrap::config::Directive;
use prost_unwrap::config::ParamKind;
use prost_unwrap::config::SourceFile;
use prost_unwrap::convert::downcast;
use prost_unwrap::convert::upcast;
use prost_unwrap::macro_args::MacroArgs;
use prost_unwrap::macro_args::MacroArgsError;
use prost_unwrap::macro_args::split_string;
use prost_unwrap::macro_args::trim_string;
use prost_unwrap::paths::join_dots;
use prost_unwrap::schema::FieldDef;
use prost_unwrap::schema::SchemaItem;
use prost_unwrap::schema::Struct;
use prost_unwrap::traverse::AdapterKind;
use prost_unwrap::traverse::MirrorFile;
use prost_unwrap::traverse::OutputItem;
use prost_unwrap::traverse::TraverseError;
use prost_unwrap::traverse::copy_unwrapped;
use prost_unwrap::traverse::item_struct_impl::StructImpl;
use prost_unwrap::type_path::Shape;
use prost_unwrap::type_path::TypeName;
use prost_unwrap::type_path::classify;
use prost_unwrap::value::FieldVal;
use prost_unwrap::value::MapEntry;
use prost_unwrap::value::RecordValue;
use prost_unwrap::value::Value;

fn path(parts: &[&str]) -> Vec<String> {
    parts.iter().map(|s| s.to_string()).collect()
}

fn ty(name: &str) -> TypeName {
    TypeName {
        segments: vec![name.to_string()],
        args: vec![],
    }
}

fn ty1(name: &str, arg: TypeName) -> TypeName {
    TypeName {
        segments: vec![name.to_string()],
        args: vec![arg],
    }
}

fn field(name: &str, t: TypeName) -> FieldDef {
    FieldDef {
        name: name.to_string(),
        ty: t,
    }
}

fn fv(name: &str, v: Value) -> FieldVal {
    FieldVal {
        name: name.to_string(),
        value: v,
    }
}

fn record(fqn: &[&str], fields: Vec<FieldVal>) -> Value {
    Value::Record(RecordValue {
        fqn: path(fqn),
        fields,
    })
}

fn base_directives(items: Vec<SchemaItem>) -> Vec<Directive> {
    vec![
        Directive::FromSource(SourceFile {
            fqn: path(&["test"]),
            items,
        }),
        Directive::WithThisMod(path(&["crate", "sane"])),
        Directive::WithOriginalMod(path(&["crate", "generated"])),
    ]
}

fn mirror(
    items: Vec<SchemaItem>,
    extra: Vec<Directive>,
) -> Result<(MirrorFile, Vec<StructImpl>), TraverseError> {
    let mut directives = base_directives(items);
    directives.extend(extra);
    let config = Config::parse(directives).unwrap();
    let out = copy_unwrapped(&config)?;
    let impls = out.struct_impls();
    Ok((out, impls))
}

fn inner_schema() -> Struct {
    Struct {
        name: "Inner".to_string(),
        fields: vec![field("x", ty1("Option", ty("i32")))],
    }
}

fn inner_present(n: i64) -> Value {
    record(
        &["Inner"],
        vec![fv("x", Value::Optional(Some(Box::new(Value::Int(n)))))],
    )
}

fn inner_absent() -> Value {
    record(&["Inner"], vec![fv("x", Value::Optional(None))])
}

// A single failing element in a three-element sequence of records fails the
// whole downcast; the first failing element decides the reason, and no
// partial mirror sequence is observable.
#[test]
fn sequence_of_records_fails_fast() {
    let items = vec![
        SchemaItem::Struct(inner_schema()),
        SchemaItem::Struct(Struct {
            name: "Outer".to_string(),
            fields: vec![field("f1", ty1("Vec", ty("Inner")))],
        }),
    ];
    let (_out, impls) = mirror(
        items,
        vec![Directive::WithStruct(path(&["Inner"]), path(&["x"]))],
    )
    .unwrap();

    let ok = record(
        &["Outer"],
        vec![fv(
            "f1",
            Value::Sequence(vec![inner_present(0), inner_present(1), inner_present(2)]),
        )],
    );
    assert!(downcast(&impls, &ok).is_ok());

    let failing = record(
        &["Outer"],
        vec![fv(
            "f1",
            Value::Sequence(vec![inner_present(0), inner_absent(), inner_absent()]),
        )],
    );
    let err = downcast(&impls, &failing).unwrap_err();
    assert_eq!("Inner.x is required", err.reason);
}

// The worked example: record `MsgB { f1: Optional<Record MsgA> }` with `f1`
// required. A present optional unwraps into the mirror; an absent one fails
// with the qualified reason.
#[test]
fn required_field_example() {
    let items = vec![
        SchemaItem::Struct(Struct {
            name: "MsgA".to_string(),
            fields: vec![field("x", ty("i32"))],
        }),
        SchemaItem::Struct(Struct {
            name: "MsgB".to_string(),
            fields: vec![field("f1", ty1("Option", ty("MsgA")))],
        }),
    ];
    let (_out, impls) = mirror(
        items,
        vec![Directive::WithStruct(path(&["MsgB"]), path(&["f1"]))],
    )
    .unwrap();

    let msg_a = |n: i64| record(&["MsgA"], vec![fv("x", Value::Int(n))]);
    let present = record(
        &["MsgB"],
        vec![fv("f1", Value::Optional(Some(Box::new(msg_a(0)))))],
    );
    let expected = record(&["MsgB"], vec![fv("f1", msg_a(0))]);
    let got = downcast(&impls, &present).unwrap();
    assert_eq!(expected, got);
    assert_eq!(present, upcast(&impls, &got));

    let absent = record(&["MsgB"], vec![fv("f1", Value::Optional(None))]);
    let err = downcast(&impls, &absent).unwrap_err();
    assert_eq!("MsgB.f1 is required", err.reason);
}

// The worked example: record `MsgB { f1: Map<String, Record MsgA> }` with no
// marker. Every map value converts through the record's own conversions,
// all keys stay, and the upcast restores the original exactly.
#[test]
fn map_of_records_round_trips() {
    let items = vec![
        SchemaItem::Struct(Struct {
            name: "MsgA".to_string(),
            fields: vec![field("x", ty("i32"))],
        }),
        SchemaItem::Struct(Struct {
            name: "MsgB".to_string(),
            fields: vec![field(
                "f1",
                TypeName {
                    segments: vec!["HashMap".to_string()],
                    args: vec![ty("String"), ty("MsgA")],
                },
            )],
        }),
    ];
    let (_out, impls) = mirror(items, vec![]).unwrap();

    let orig = record(
        &["MsgB"],
        vec![fv(
            "f1",
            Value::Mapping(vec![
                MapEntry {
                    key: "foo".to_string(),
                    value: record(&["MsgA"], vec![fv("x", Value::Int(0))]),
                },
                MapEntry {
                    key: "bar".to_string(),
                    value: record(&["MsgA"], vec![fv("x", Value::Int(1))]),
                },
            ]),
        )],
    );
    let sane = downcast(&impls, &orig).unwrap();
    match &sane {
        Value::Record(rv) => match &rv.fields[0].value {
            Value::Mapping(entries) => {
                assert_eq!(2, entries.len());
                assert_eq!("foo", entries[0].key);
                assert_eq!("bar", entries[1].key);
            }
            _ => panic!("not a map"),
        },
        _ => panic!("not a record"),
    }
    assert_eq!(orig, upcast(&impls, &sane));
}

// Marking a non-optional field as required is rejected at traversal time,
// and the error identifies the field's actual type.
#[test]
fn required_non_optional_rejected() {
    let items = vec![SchemaItem::Struct(Struct {
        name: "A".to_string(),
        fields: vec![field("x", ty("i32"))],
    })];
    let err = mirror(
        items,
        vec![Directive::WithStruct(path(&["A"]), path(&["x"]))],
    )
    .unwrap_err();
    assert_eq!(
        TraverseError::FieldNotOptional {
            fqn: path(&["A"]),
            field: "x".to_string(),
            ty: ty("i32"),
        },
        err
    );
}

// Marking field names absent from the record is rejected, listing exactly
// the unmatched names.
#[test]
fn missing_required_names_listed() {
    let items = vec![SchemaItem::Struct(Struct {
        name: "A".to_string(),
        fields: vec![field("x", ty1("Option", ty("i32")))],
    })];
    let err = mirror(
        items,
        vec![Directive::WithStruct(
            path(&["A"]),
            path(&["nope", "x", "gone"]),
        )],
    )
    .unwrap_err();
    assert_eq!(
        TraverseError::MissingFields {
            fqn: path(&["A"]),
            fields: path(&["nope", "gone"]),
        },
        err
    );
}

// A union marker sitting on a record path, and a record marker sitting on a
// union path, are hard mismatches.
#[test]
fn marker_kind_mismatches_rejected() {
    let items = vec![SchemaItem::Struct(Struct {
        name: "A".to_string(),
        fields: vec![field("x", ty("i32"))],
    })];
    let err = mirror(items, vec![Directive::WithEnum(path(&["A"]))]).unwrap_err();
    assert_eq!(
        TraverseError::ExpectedEnumFoundStruct { fqn: path(&["A"]) },
        err
    );

    let items = vec![SchemaItem::Enum(prost_unwrap::schema::Enum {
        name: "E".to_string(),
        variants: vec![],
    })];
    let err = mirror(
        items,
        vec![Directive::WithStruct(path(&["E"]), Vec::new())],
    )
    .unwrap_err();
    assert_eq!(
        TraverseError::ExpectedStructFoundEnum { fqn: path(&["E"]) },
        err
    );
}

// A module whose traversal contributes nothing is omitted from the output.
#[test]
fn empty_modules_are_collapsed() {
    let items = vec![SchemaItem::Mod(prost_unwrap::schema::Mod {
        name: "empty".to_string(),
        items: vec![],
    })];
    let (out, _impls) = mirror(items, vec![]).unwrap();
    for item in out.items.iter() {
        if let OutputItem::Mod(_) = item {
            panic!("an empty module survived");
        }
    }
}

// Every output starts with the error definition and the fixed adapter
// catalog, emitted exactly once.
#[test]
fn prelude_is_emitted_once() {
    let (out, _impls) = mirror(vec![], vec![]).unwrap();
    assert_eq!(7, out.items.len());
    assert_eq!(OutputItem::ErrorDef, out.items[0]);
    assert_eq!(OutputItem::Adapter(AdapterKind::OptionTryFrom), out.items[1]);
    assert_eq!(OutputItem::Adapter(AdapterKind::OptionInto), out.items[2]);
    assert_eq!(OutputItem::Adapter(AdapterKind::VecTryFrom), out.items[3]);
    assert_eq!(OutputItem::Adapter(AdapterKind::VecInto), out.items[4]);
    assert_eq!(
        OutputItem::Adapter(AdapterKind::HashmapTryFrom),
        out.items[5]
    );
    assert_eq!(OutputItem::Adapter(AdapterKind::HashmapInto), out.items[6]);
}

#[test]
fn configuration_errors_are_reported() {
    let no_this = vec![
        Directive::FromSource(SourceFile {
            fqn: path(&["test"]),
            items: vec![],
        }),
        Directive::WithOriginalMod(path(&["crate", "generated"])),
    ];
    assert_eq!(
        ConfigError::MissingParameter(ParamKind::ThisMod),
        Config::parse(no_this).unwrap_err()
    );

    let no_source = vec![
        Directive::WithThisMod(path(&["crate", "sane"])),
        Directive::WithOriginalMod(path(&["crate", "generated"])),
    ];
    assert_eq!(
        ConfigError::MissingParameter(ParamKind::Source),
        Config::parse(no_source).unwrap_err()
    );

    let mut twice = base_directives(vec![]);
    twice.push(Directive::WithThisMod(path(&["crate", "other"])));
    assert_eq!(
        ConfigError::MultipleParameter(ParamKind::ThisMod),
        Config::parse(twice).unwrap_err()
    );

    let relative = vec![
        Directive::FromSource(SourceFile {
            fqn: path(&["test"]),
            items: vec![],
        }),
        Directive::WithThisMod(path(&["sane"])),
    ];
    assert_eq!(
        ConfigError::NotAbsoluteModPath(path(&["sane"])),
        Config::parse(relative).unwrap_err()
    );

    let mut duplicate = base_directives(vec![]);
    duplicate.push(Directive::WithStruct(path(&["p", "A"]), Vec::new()));
    duplicate.push(Directive::WithEnum(path(&["p", "A"])));
    match Config::parse(duplicate).unwrap_err() {
        ConfigError::Duplicate(d) => assert_eq!(d.fqn, path(&["p", "A"])),
        other => panic!("unexpected error: {:?}", other),
    }

    let mut empty_path = base_directives(vec![]);
    empty_path.push(Directive::WithStruct(Vec::new(), Vec::new()));
    assert_eq!(
        ConfigError::EmptySpecPath,
        Config::parse(empty_path).unwrap_err()
    );

    let mut two_suffixes = base_directives(vec![]);
    two_suffixes.push(Directive::WithSuffix("Mirror".to_string()));
    two_suffixes.push(Directive::WithSuffix("Sane".to_string()));
    assert_eq!(
        ConfigError::MultipleParameter(ParamKind::Suffix),
        Config::parse(two_suffixes).unwrap_err()
    );
}

#[test]
fn classification_is_structural() {
    assert_eq!(Shape::Primitive, classify(&ty("i32")));
    assert_eq!(Shape::Primitive, classify(&ty("String")));
    assert_eq!(Shape::Optional, classify(&ty1("Option", ty("i32"))));
    assert_eq!(Shape::Sequence, classify(&ty1("Vec", ty("MsgA"))));
    assert_eq!(
        Shape::Mapping,
        classify(&TypeName {
            segments: vec!["HashMap".to_string()],
            args: vec![ty("String"), ty("i32")],
        })
    );
    assert_eq!(Shape::Reference, classify(&ty("MsgA")));
    // the byte-string special case: a doubly-nested sequence passes through
    assert_eq!(Shape::Primitive, classify(&ty1("Vec", ty1("Vec", ty("u8")))));
    // classification goes by the outer symbol's name and arity alone
    assert_eq!(
        Shape::Optional,
        classify(&TypeName {
            segments: path(&["core", "option", "Option"]),
            args: vec![ty("u64")],
        })
    );
    // a bare `Option` path without arguments is no optional
    assert_eq!(Shape::Reference, classify(&ty("Option")));
}

#[test]
fn literal_expansion_matches_the_documented_examples() {
    let single = MacroArgs::from_litstr(&"foo.bar.Baz.a".to_string()).unwrap();
    assert_eq!(
        vec![("foo.bar.Baz".to_string(), "a".to_string())],
        single
    );

    let multiple = MacroArgs::from_litstr(&"foo.bar.Baz.{a,b,c}".to_string()).unwrap();
    assert_eq!(
        vec![
            ("foo.bar.Baz".to_string(), "a".to_string()),
            ("foo.bar.Baz".to_string(), "b".to_string()),
            ("foo.bar.Baz".to_string(), "c".to_string()),
        ],
        multiple
    );

    let spaced = MacroArgs::from_litstr(&"foo.bar.Baz.{a, b}".to_string()).unwrap();
    assert_eq!(
        vec![
            ("foo.bar.Baz".to_string(), "a".to_string()),
            ("foo.bar.Baz".to_string(), "b".to_string()),
        ],
        spaced
    );

    assert_eq!(
        MacroArgsError::BadLiteral("a.b".to_string()),
        MacroArgs::from_litstr(&"a.b".to_string()).unwrap_err()
    );
    assert_eq!(
        MacroArgsError::UnterminatedFieldList("{a".to_string()),
        MacroArgs::from_litstr(&"a.b.{a".to_string()).unwrap_err()
    );
}

#[test]
fn literals_group_by_record_in_first_appearance_order() {
    let lits = vec![
        "p.A.x".to_string(),
        "p.B.y".to_string(),
        "p.A.z".to_string(),
    ];
    let args = MacroArgs::parse("mirror".to_string(), &lits).unwrap();
    assert_eq!("mirror", args.mod_ident);
    assert_eq!(
        vec![
            ("p.A".to_string(), path(&["x", "z"])),
            ("p.B".to_string(), path(&["y"])),
        ],
        args.affected_structs
    );
}

#[test]
fn string_helpers_behave() {
    assert_eq!(path(&["a", "b", "c"]), split_string("a.b.c", '.'));
    assert_eq!(path(&["", "a", ""]), split_string(".a.", '.'));
    assert_eq!(path(&["abc"]), split_string("abc", '.'));
    assert_eq!("a b".to_string(), trim_string("  a b\t "));
    assert_eq!("".to_string(), trim_string("   "));
    assert_eq!("x".to_string(), trim_string("x"));
    assert_eq!("a.b.c".to_string(), join_dots(&path(&["a", "b", "c"])));
    assert_eq!("".to_string(), join_dots(&Vec::new()));
}

#[test]
fn error_typepath_climbs_out_of_nested_modules() {
    let t = prost_unwrap::type_path::error_typepath(&path(&["foo", "bar"]));
    assert_eq!(path(&["super", "super", "Error"]), t.segments);
    assert!(t.args.is_empty());
    let top = prost_unwrap::type_path::error_typepath(&Vec::new());
    assert_eq!(path(&["Error"]), top.segments);
}

#[test]
fn typepath_helpers_qualify_names() {
    let config = Config::parse(base_directives(vec![])).unwrap();
    assert_eq!(
        path(&["crate", "generated", "m", "A"]),
        config.orig_item_typepath(&path(&["m", "A"]))
    );
    assert_eq!(
        path(&["crate", "sane", "m", "A"]),
        config.this_item_typepath(&path(&["m", "A"]))
    );
    assert_eq!(path(&["crate", "sane", "Error"]), config.error_typepath());
}
