use envir::convert::{NoConverters, TableConverters};
use envir::errors::Error;
use envir::marshal::{collect, from};
use envir::schema::{Container, Field, FieldDefault, Schema, Shape};
use envir::store::Store;
use envir::value::{FieldValue, Kind, Scalar, StructValue};

fn plain_field(ident: &str, shape: Shape) -> Field {
    Field {
        ident: ident.to_string(),
        name: None,
        default: FieldDefault::Required,
        noprefix: false,
        separator: ',',
        skip: false,
        skip_load: false,
        skip_export: false,
        skip_export_if: None,
        load_with: None,
        export_with: None,
        shape,
    }
}

fn schema(prefix: Option<&str>, fields: Vec<Field>) -> Schema {
    Schema {
        container: Container {
            prefix: prefix.map(|p| p.to_string()),
        },
        fields,
    }
}

fn no_conv() -> NoConverters {
    NoConverters
}

fn str_value(s: &str) -> FieldValue {
    FieldValue::Scalar(Scalar::Str(s.to_string()))
}

#[test]
fn deserialize() {
    let mut field1 = plain_field("field1", Shape::Scalar(Kind::Str));
    field1.name = Some("FOO".to_string());
    let mut field2 = plain_field("field2", Shape::Scalar(Kind::Str));
    field2.default = FieldDefault::ZeroValue;
    let mut field3 = plain_field("field3", Shape::Scalar(Kind::Str));
    field3.default = FieldDefault::Explicit("field3".to_string());
    let field4 = plain_field("field4", Shape::Scalar(Kind::U8));
    let mut field5 = plain_field("field5", Shape::Scalar(Kind::Str));
    field5.load_with = Some("load_field5".to_string());
    let field6 = plain_field("field6", Shape::Optional(Kind::Char));
    let s = schema(
        Some("ENV_"),
        vec![field1, field2, field3, field4, field5, field6],
    );

    let mut env = Store::new();
    env.insert("ENV_FOO".to_string(), "foo".to_string());
    env.insert("ENV_FIELD4".to_string(), "4".to_string());
    let vars = Store::new();
    let conv = TableConverters {
        loads: vec![("load_field5".to_string(), "field5".to_string())],
        exports: vec![],
        skips: vec![],
    };

    let test = from(&s, &env, &vars, &conv).unwrap();
    assert_eq!(
        test,
        StructValue {
            fields: vec![
                str_value("foo"),
                str_value(""),
                str_value("field3"),
                FieldValue::Scalar(Scalar::U8(4)),
                str_value("field5"),
                FieldValue::Optional(None),
            ],
        }
    );
}

#[test]
fn serialize() {
    let mut field1 = plain_field("field1", Shape::Scalar(Kind::Str));
    field1.name = Some("FOO".to_string());
    let field2 = plain_field("field2", Shape::Scalar(Kind::Str));
    let s = schema(Some("ENV2_"), vec![field1, field2]);

    let test = StructValue {
        fields: vec![str_value("field1"), str_value("field2")],
    };

    let out = collect(&s, &test, &no_conv());
    assert_eq!(out.len(), 2);
    assert_eq!(out.get("ENV2_FOO").unwrap(), "field1");
    assert_eq!(out.get("ENV2_FIELD2").unwrap(), "field2");
}

#[test]
fn nested() {
    let inner = schema(
        Some("ENV3_"),
        vec![plain_field("foo", Shape::Optional(Kind::Str))],
    );
    let outer = schema(None, vec![plain_field("nested", Shape::Nested(inner))]);

    let mut env = Store::new();
    env.insert("ENV3_FOO".to_string(), "foo".to_string());
    let vars = Store::new();

    let test = from(&outer, &env, &vars, &no_conv()).unwrap();
    assert_eq!(
        test,
        StructValue {
            fields: vec![FieldValue::Nested(StructValue {
                fields: vec![FieldValue::Optional(Some(Scalar::Str("foo".to_string())))],
            })],
        }
    );

    let out = collect(&outer, &test, &no_conv());
    assert_eq!(out.len(), 1);
    assert_eq!(out.get("ENV3_FOO").unwrap(), "foo");
}

#[test]
fn env() {
    let mut config_dir = plain_field("config_dir", Shape::Scalar(Kind::Str));
    config_dir.default = FieldDefault::Explicit("${HOME}/.config".to_string());
    let s = schema(None, vec![config_dir]);

    let env = Store::new();
    let mut vars = Store::new();
    vars.insert("HOME".to_string(), "/home/test".to_string());

    let test = from(&s, &env, &vars, &no_conv()).unwrap();
    assert_eq!(
        test,
        StructValue {
            fields: vec![str_value("/home/test/.config")],
        }
    );
}

#[test]
fn extrapolation_error() {
    let mut config_dir = plain_field("config_dir", Shape::Scalar(Kind::Str));
    config_dir.default = FieldDefault::Explicit("${MISSING_ENV}/.config".to_string());
    let s = schema(None, vec![config_dir]);

    let env = Store::new();
    let vars = Store::new();
    let e = from(&s, &env, &vars, &no_conv()).unwrap_err();
    assert!(matches!(e, Error::Missing(k) if k == "MISSING_ENV"));
}

#[test]
fn skip_export() {
    let mut f = plain_field("skip_export", Shape::Scalar(Kind::Str));
    f.skip_export = true;
    let s = schema(None, vec![f]);

    let test = StructValue {
        fields: vec![str_value("skip")],
    };
    let out = collect(&s, &test, &no_conv());
    assert_eq!(out.len(), 0);
    assert!(out.get("SKIP_EXPORT").is_none());
}

#[test]
fn skip_load() {
    let mut f = plain_field("home", Shape::Scalar(Kind::Str));
    f.skip_load = true;
    let s = schema(None, vec![f]);

    let mut env = Store::new();
    env.insert("HOME".to_string(), "/root".to_string());
    let vars = Store::new();

    let test = from(&s, &env, &vars, &no_conv()).unwrap();
    assert_eq!(test, StructValue { fields: vec![str_value("")] });
}

#[test]
fn prefix_and_name() {
    let mut field1 = plain_field("field1", Shape::Scalar(Kind::Str));
    field1.name = Some("FOO".to_string());
    let s = schema(Some("ENV_"), vec![field1]);

    let mut env = Store::new();
    env.insert("ENV_FOO".to_string(), "foo".to_string());
    let vars = Store::new();

    let test = from(&s, &env, &vars, &no_conv()).unwrap();
    assert_eq!(test, StructValue { fields: vec![str_value("foo")] });
}

#[test]
fn required_parse_failure_details() {
    let field4 = plain_field("field4", Shape::Scalar(Kind::U8));
    let s = schema(Some("ENV_"), vec![field4]);
    let vars = Store::new();

    let mut env = Store::new();
    env.insert("ENV_FIELD4".to_string(), "4".to_string());
    let ok = from(&s, &env, &vars, &no_conv()).unwrap();
    assert_eq!(
        ok,
        StructValue { fields: vec![FieldValue::Scalar(Scalar::U8(4))] }
    );

    let mut env = Store::new();
    env.insert("ENV_FIELD4".to_string(), "x".to_string());
    let e = from(&s, &env, &vars, &no_conv()).unwrap_err();
    match e {
        Error::Parse(p) => {
            assert_eq!(p.key, "ENV_FIELD4");
            assert_eq!(p.ty, "u8");
            assert_eq!(p.raw, "x");
        }
        other => panic!("expected a parse error, got {:?}", other),
    }
}

#[test]
fn required_missing_key() {
    let f = plain_field("port", Shape::Scalar(Kind::U64));
    let s = schema(Some("APP_"), vec![f]);
    let env = Store::new();
    let vars = Store::new();
    let e = from(&s, &env, &vars, &no_conv()).unwrap_err();
    assert!(matches!(e, Error::Missing(k) if k == "APP_PORT"));
}

#[test]
fn load_with_ignores_store() {
    let mut f = plain_field("field5", Shape::Scalar(Kind::Str));
    f.load_with = Some("load_field5".to_string());
    let s = schema(None, vec![f]);

    let mut env = Store::new();
    env.insert("FIELD5".to_string(), "from store".to_string());
    let vars = Store::new();
    let conv = TableConverters {
        loads: vec![("load_field5".to_string(), "field5".to_string())],
        exports: vec![],
        skips: vec![],
    };

    let test = from(&s, &env, &vars, &conv).unwrap();
    assert_eq!(test, StructValue { fields: vec![str_value("field5")] });
}

#[test]
fn export_with_replaces_field() {
    let mut f = plain_field("extras", Shape::Scalar(Kind::Str));
    f.export_with = Some("export_extras".to_string());
    let s = schema(None, vec![f]);
    let conv = TableConverters {
        loads: vec![],
        exports: vec![(
            "export_extras".to_string(),
            ("K".to_string(), "V".to_string()),
        )],
        skips: vec![],
    };

    let test = StructValue {
        fields: vec![str_value("ignored")],
    };
    let out = collect(&s, &test, &conv);
    assert_eq!(out.len(), 1);
    assert_eq!(out.get("K").unwrap(), "V");
    assert!(out.get("EXTRAS").is_none());
}

#[test]
fn skip_export_if_suppresses() {
    let mut f = plain_field("secret", Shape::Scalar(Kind::Str));
    f.skip_export_if = Some("hide".to_string());
    let s = schema(None, vec![f]);
    let test = StructValue {
        fields: vec![str_value("v")],
    };

    let hiding = TableConverters {
        loads: vec![],
        exports: vec![],
        skips: vec!["hide".to_string()],
    };
    let out = collect(&s, &test, &hiding);
    assert_eq!(out.len(), 0);

    let keeping = TableConverters {
        loads: vec![],
        exports: vec![],
        skips: vec![],
    };
    let out = collect(&s, &test, &keeping);
    assert_eq!(out.len(), 1);
    assert_eq!(out.get("SECRET").unwrap(), "v");
}

#[test]
fn noprefix_field() {
    let mut f = plain_field("global", Shape::Scalar(Kind::Str));
    f.noprefix = true;
    let s = schema(Some("APP_"), vec![f]);

    let mut env = Store::new();
    env.insert("GLOBAL".to_string(), "g".to_string());
    let vars = Store::new();
    let test = from(&s, &env, &vars, &no_conv()).unwrap();
    assert_eq!(test, StructValue { fields: vec![str_value("g")] });

    let out = collect(&s, &test, &no_conv());
    assert_eq!(out.len(), 1);
    assert_eq!(out.get("GLOBAL").unwrap(), "g");
}

#[test]
fn list_split_and_join() {
    let f = plain_field("ports", Shape::List(Kind::U64));
    let s = schema(None, vec![f]);

    let mut env = Store::new();
    env.insert("PORTS".to_string(), "1,2,3".to_string());
    let vars = Store::new();
    let test = from(&s, &env, &vars, &no_conv()).unwrap();
    assert_eq!(
        test,
        StructValue {
            fields: vec![FieldValue::List(vec![
                Scalar::U64(1),
                Scalar::U64(2),
                Scalar::U64(3),
            ])],
        }
    );

    let out = collect(&s, &test, &no_conv());
    assert_eq!(out.get("PORTS").unwrap(), "1,2,3");
}

#[test]
fn list_custom_separator() {
    let mut f = plain_field("path", Shape::List(Kind::Str));
    f.separator = ';';
    let s = schema(None, vec![f]);

    let mut env = Store::new();
    env.insert("PATH".to_string(), "a;b".to_string());
    let vars = Store::new();
    let test = from(&s, &env, &vars, &no_conv()).unwrap();
    assert_eq!(
        test,
        StructValue {
            fields: vec![FieldValue::List(vec![
                Scalar::Str("a".to_string()),
                Scalar::Str("b".to_string()),
            ])],
        }
    );
    let out = collect(&s, &test, &no_conv());
    assert_eq!(out.get("PATH").unwrap(), "a;b");
}

#[test]
fn list_element_parse_failure() {
    let f = plain_field("ports", Shape::List(Kind::U64));
    let s = schema(None, vec![f]);
    let mut env = Store::new();
    env.insert("PORTS".to_string(), "1,x,3".to_string());
    let vars = Store::new();
    let e = from(&s, &env, &vars, &no_conv()).unwrap_err();
    match e {
        Error::Parse(p) => {
            assert_eq!(p.key, "PORTS");
            assert_eq!(p.ty, "u64");
            assert_eq!(p.raw, "1,x,3");
        }
        other => panic!("expected a parse error, got {:?}", other),
    }
}

#[test]
fn extrapolation_trims_spaces() {
    let mut f = plain_field("dir", Shape::Scalar(Kind::Str));
    f.default = FieldDefault::Explicit("${ HOME }/x".to_string());
    let s = schema(None, vec![f]);
    let env = Store::new();
    let mut vars = Store::new();
    vars.insert("HOME".to_string(), "/h".to_string());
    let test = from(&s, &env, &vars, &no_conv()).unwrap();
    assert_eq!(test, StructValue { fields: vec![str_value("/h/x")] });
}

#[test]
fn extrapolation_unclosed_kept_verbatim() {
    let mut f = plain_field("dir", Shape::Scalar(Kind::Str));
    f.default = FieldDefault::Explicit("${HOME/x".to_string());
    let s = schema(None, vec![f]);
    let env = Store::new();
    let vars = Store::new();
    let test = from(&s, &env, &vars, &no_conv()).unwrap();
    assert_eq!(test, StructValue { fields: vec![str_value("${HOME/x")] });
}

#[test]
fn extrapolation_two_placeholders() {
    let mut f = plain_field("pair", Shape::Scalar(Kind::Str));
    f.default = FieldDefault::Explicit("${A}:${B}".to_string());
    let s = schema(None, vec![f]);
    let env = Store::new();
    let mut vars = Store::new();
    vars.insert("A".to_string(), "1".to_string());
    vars.insert("B".to_string(), "2".to_string());
    let test = from(&s, &env, &vars, &no_conv()).unwrap();
    assert_eq!(test, StructValue { fields: vec![str_value("1:2")] });
}

#[test]
fn round_trip() {
    let host = plain_field("host", Shape::Scalar(Kind::Str));
    let port = plain_field("port", Shape::Scalar(Kind::U64));
    let debug = plain_field("debug", Shape::Scalar(Kind::Bool));
    let s = schema(Some("APP_"), vec![host, port, debug]);

    let mut env = Store::new();
    env.insert("APP_HOST".to_string(), "localhost".to_string());
    env.insert("APP_PORT".to_string(), "8080".to_string());
    env.insert("APP_DEBUG".to_string(), "true".to_string());
    let vars = Store::new();

    let first = from(&s, &env, &vars, &no_conv()).unwrap();
    let exported = collect(&s, &first, &no_conv());
    let second = from(&s, &exported, &vars, &no_conv()).unwrap();
    assert_eq!(first, second);
    assert_eq!(exported.get("APP_PORT").unwrap(), "8080");
}

#[test]
fn nested_ignores_outer_prefix() {
    let inner = schema(
        Some("ENV3_"),
        vec![plain_field("foo", Shape::Optional(Kind::Str))],
    );
    let outer = schema(
        Some("OUTER_"),
        vec![plain_field("nested", Shape::Nested(inner))],
    );

    let mut env = Store::new();
    env.insert("ENV3_FOO".to_string(), "foo".to_string());
    env.insert("OUTER_ENV3_FOO".to_string(), "wrong".to_string());
    let vars = Store::new();
    let test = from(&outer, &env, &vars, &no_conv()).unwrap();
    assert_eq!(
        test,
        StructValue {
            fields: vec![FieldValue::Nested(StructValue {
                fields: vec![FieldValue::Optional(Some(Scalar::Str("foo".to_string())))],
            })],
        }
    );
}

#[test]
fn optional_nested_export() {
    let inner = schema(
        Some("IN_"),
        vec![plain_field("x", Shape::Scalar(Kind::U8))],
    );
    let f = plain_field("maybe", Shape::OptionalNested(inner));
    let s = schema(None, vec![f]);

    let none = StructValue {
        fields: vec![FieldValue::OptionalNested(None)],
    };
    let out = collect(&s, &none, &no_conv());
    assert_eq!(out.len(), 0);

    let some = StructValue {
        fields: vec![FieldValue::OptionalNested(Some(StructValue {
            fields: vec![FieldValue::Scalar(Scalar::U8(7))],
        }))],
    };
    let out = collect(&s, &some, &no_conv());
    assert_eq!(out.len(), 1);
    assert_eq!(out.get("IN_X").unwrap(), "7");
}
