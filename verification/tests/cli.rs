use vade::cli::{OverrideError, OverrideScope, VarOverride};
use vade::config::{UserVar, UserVarString};
use vade::json::JsonScalar;
use vade::text::IntErrorKind;

#[test]
fn parses_caddyfile_domains() {
    let o = VarOverride::from_str("caddyfile.vars.domains=[\"example.com\"]").unwrap();
    assert_eq!(o.scope, OverrideScope::Caddyfile);
    assert_eq!(o.name, "domains");
    assert_eq!(
        o.value,
        UserVar::List(vec![UserVar::String(UserVarString::json(
            "example.com".to_string(),
            "caddyfile.vars.domains".to_string()
        ))])
    );
}

#[test]
fn parses_systemd_exec_start() {
    let o = VarOverride::from_str(r#"systemd-unit[2].vars.exec_start="touch /tmp/i-was-here""#).unwrap();
    assert_eq!(o.scope, OverrideScope::SystemdUnit(2));
    assert_eq!(o.name, "exec_start");
    let expected = UserVar::String(UserVarString::json(
        "touch /tmp/i-was-here".to_string(),
        "systemd-unit[2].vars.exec_start".to_string(),
    ));
    assert_eq!(o.value, expected);
}

#[test]
fn value_may_contain_equals_sign() {
    let o = VarOverride::from_str(r#"systemd-unit[0].vars.exec_start="run --flag=1""#).unwrap();
    assert_eq!(o.name, "exec_start");
    assert_eq!(
        o.value,
        UserVar::String(UserVarString::json(
            "run --flag=1".to_string(),
            "systemd-unit[0].vars.exec_start".to_string()
        ))
    );
}

#[test]
fn rejects_missing_equals() {
    assert!(VarOverride::from_str("caddyfile.vars.domains").is_err());
}

#[test]
fn rejects_invalid_index() {
    assert!(VarOverride::from_str("systemd-unit[x].vars.foo=1").is_err());
    assert!(VarOverride::from_str("systemd-unit[0.foo=1").is_err());
}

#[test]
fn rejects_empty_variable_name() {
    assert!(VarOverride::from_str("caddyfile.vars.=x").is_err());
    assert!(VarOverride::from_str("systemd-unit[0].vars.=x").is_err());
    assert!(VarOverride::from_str("systemd-unit[0].vars=x").is_err());
}

#[test]
fn rejects_invalid_json() {
    assert!(VarOverride::from_str("caddyfile.vars.domains=[").is_err());
}

#[test]
fn deploy_rejects_malformed_overrides() {
    let e = VarOverride::from_str("no-equals-sign-to-be-seen").unwrap_err();
    assert_eq!(e, OverrideError::MissingEquals);
    assert_eq!(e.message(), "expected the format `<path>=<value>`");

    let e = VarOverride::from_str("foo=42").unwrap_err();
    assert_eq!(
        e.message(),
        "failed to parse path `foo`: it must start with `caddyfile.vars.` or `systemd-unit[<index>].vars.`"
    );

    let e = VarOverride::from_str("systemd-unit[0].vars.exec_start=this_string_is_missing_quotes").unwrap_err();
    assert_eq!(
        e.message(),
        "failed to parse JSON in `this_string_is_missing_quotes`, expected ident at line 1 column 2"
    );
}

#[test]
fn override_index_errors_name_the_index() {
    let e = VarOverride::from_str("systemd-unit[x].vars.foo=1").unwrap_err();
    assert_eq!(
        e,
        OverrideError::BadIndex {
            path: "systemd-unit[x].vars.foo".to_string(),
            index: "x".to_string(),
            kind: IntErrorKind::InvalidDigit,
        }
    );
    assert_eq!(
        e.message(),
        "failed to parse path `systemd-unit[x].vars.foo`: `x` is not a valid index (invalid digit found in string)"
    );
    let e = VarOverride::from_str("systemd-unit[].vars.foo=1").unwrap_err();
    assert_eq!(
        e.message(),
        "failed to parse path `systemd-unit[].vars.foo`: `` is not a valid index (cannot parse integer from empty string)"
    );
}

#[test]
fn override_objects_keep_keys_and_scalars() {
    let o = VarOverride::from_str(r#"caddyfile.vars.site={"port": 8080, "names": ["a"], "tls": true}"#).unwrap();
    assert_eq!(o.name, "site");
    match o.value {
        UserVar::Object(entries) => {
            let keys: Vec<&str> = entries.iter().map(|(k, _)| k.as_str()).collect();
            assert_eq!(keys.len(), 3);
            assert!(keys.contains(&"port") && keys.contains(&"names") && keys.contains(&"tls"));
            for (k, v) in &entries {
                match k.as_str() {
                    "names" => assert!(matches!(v, UserVar::List(items) if items.len() == 1)),
                    "port" => assert_eq!(*v, UserVar::Scalar(JsonScalar::Number(serde_json::Number::from(8080)))),
                    _ => assert_eq!(*v, UserVar::Scalar(JsonScalar::Bool(true))),
                }
            }
        }
        other => panic!("expected an object, got {other:?}"),
    }
}
