use envir::errors::{Error, Parse};
use envir::store::Store;
use envir::value::{Kind, Scalar};

#[test]
fn try_parse() {
    let env = Store::new();
    assert!(envir::try_parse(&env, "MISSING_ENV", Kind::Str)
        .unwrap()
        .is_none());
}

#[test]
fn parse() {
    let mut env = Store::new();
    env.insert("TEST".to_string(), "1".to_string());
    assert_eq!(envir::parse(&env, "TEST", Kind::U8).unwrap(), Scalar::U8(1));
}

#[test]
fn try_get() {
    let env = Store::new();
    assert!(envir::try_get(&env, "MISSING_ENV").unwrap().is_none());
}

#[test]
fn get() {
    let mut env = Store::new();
    env.insert("TEST".to_string(), "1".to_string());
    assert_eq!(envir::get(&env, "TEST").unwrap(), "1");
}

#[test]
fn get_missing_is_error() {
    let env = Store::new();
    let e = envir::get(&env, "NOPE").unwrap_err();
    assert!(matches!(e, Error::Missing(k) if k == "NOPE"));
}

#[test]
fn parse_missing_is_error() {
    let env = Store::new();
    let e = envir::parse(&env, "NOPE", Kind::U64).unwrap_err();
    assert!(matches!(e, Error::Missing(k) if k == "NOPE"));
}

#[test]
fn try_parse_bad_value_is_parse_error() {
    let mut env = Store::new();
    env.insert("N".to_string(), "x".to_string());
    let e = envir::try_parse(&env, "N", Kind::U64).unwrap_err();
    match e {
        Error::Parse(p) => {
            assert_eq!(p.key, "N");
            assert_eq!(p.ty, "u64");
            assert_eq!(p.raw, "x");
        }
        other => panic!("expected a parse error, got {:?}", other),
    }
}

#[test]
fn scalar_kinds_parse() {
    let mut env = Store::new();
    env.insert("B".to_string(), "true".to_string());
    env.insert("C".to_string(), "z".to_string());
    env.insert("I".to_string(), "-5".to_string());
    env.insert("U".to_string(), "18446744073709551615".to_string());
    assert_eq!(
        envir::parse(&env, "B", Kind::Bool).unwrap(),
        Scalar::Bool(true)
    );
    assert_eq!(
        envir::parse(&env, "C", Kind::Char).unwrap(),
        Scalar::Char('z')
    );
    assert_eq!(envir::parse(&env, "I", Kind::I64).unwrap(), Scalar::I64(-5));
    assert_eq!(
        envir::parse(&env, "U", Kind::U64).unwrap(),
        Scalar::U64(u64::MAX)
    );
}

#[test]
fn scalar_kinds_reject() {
    let mut env = Store::new();
    env.insert("B".to_string(), "TRUE".to_string());
    env.insert("C".to_string(), "zz".to_string());
    env.insert("U".to_string(), "18446744073709551616".to_string());
    env.insert("E".to_string(), "".to_string());
    assert!(envir::parse(&env, "B", Kind::Bool).is_err());
    assert!(envir::parse(&env, "C", Kind::Char).is_err());
    assert!(envir::parse(&env, "U", Kind::U64).is_err());
    assert!(envir::parse(&env, "E", Kind::U8).is_err());
}

#[test]
fn store_insert_overwrites() {
    let mut env = Store::new();
    env.insert("K".to_string(), "a".to_string());
    env.insert("K".to_string(), "b".to_string());
    assert_eq!(env.len(), 1);
    assert_eq!(env.get("K").unwrap(), "b");
}

#[test]
fn error_messages() {
    let e = Error::Missing("FOO".to_string());
    assert_eq!(e.message(), "Missing 'FOO' environment variable");
    let p = Parse::new("K", "u8", "x", "invalid value");
    assert_eq!(p.message(), "Enable to parse 'K' variable to 'u8': invalid value");
}
