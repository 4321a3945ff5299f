use vade::app_name::AppName;
use vade::config::deserialize::{choose_template_origin, finish_load, toml_error_to_report, TomlErrorInfo, TomlErrorKind};
use vade::config::validate::validate;
use vade::config::{
    AppConfig, SystemdUnitConfig, TemplateConfig, TemplateOrigin, UserVar, UserVarString, UserVars,
};
use vade::json::{JsonScalar, JsonValue};
use vade::templating::context::CtxValue;
use vade::util::{SourceRef, Span, Spanned};

fn sp<T>(value: T, start: usize, end: usize) -> Spanned<T> {
    Spanned { value, span: Span::new(start, end) }
}

fn s(text: &str) -> UserVar {
    UserVar::String(UserVarString::json(text.to_string(), "p".to_string()))
}

fn entries(c: CtxValue) -> Vec<(String, CtxValue)> {
    match c {
        CtxValue::Object(e) => e,
        _ => panic!("expected an object"),
    }
}

fn text(c: &CtxValue) -> &str {
    match c {
        CtxValue::Str(s) => s,
        _ => panic!("expected a string"),
    }
}

fn unit(suffix: Option<&str>, extension: Option<&str>, start: usize) -> Spanned<SystemdUnitConfig> {
    sp(
        SystemdUnitConfig {
            filename_suffix: suffix.map(|x| sp(x.to_string(), 0, 0)),
            file_extension: extension.map(|x| sp(x.to_string(), 0, 0)),
            template: sp(
                TemplateConfig { origin: sp(TemplateOrigin::Inline(sp("x".to_string(), 0, 0)), 0, 0), vars: sp(vec![], 0, 0) },
                0,
                0,
            ),
        },
        start,
        start + 1,
    )
}

#[test]
fn set_replaces_only_its_key() {
    let mut vars = UserVars::from_toml(vec![("a".to_string(), s("1")), ("b".to_string(), s("2"))]);
    vars.set("a".to_string(), s("3"));
    vars.set("c".to_string(), s("4"));
    vars.set("c".to_string(), s("5"));
    let e = entries(vars.into_minijinja());
    let get = |k: &str| e.iter().find(|(key, _)| key == k).map(|(_, v)| text(v).to_string());
    assert_eq!(get("a").unwrap(), "3");
    assert_eq!(get("b").unwrap(), "2");
    assert_eq!(get("c").unwrap(), "5");
    assert_eq!(e.len(), 3);
}

#[test]
fn unit_filenames_follow_suffix_and_extension() {
    assert_eq!(unit(None, None, 0).value.filename("my-app"), "my-app.service");
    assert_eq!(unit(Some("worker"), None, 0).value.filename("my-app"), "my-app-worker.service");
    assert_eq!(unit(None, Some("timer"), 0).value.filename("my-app"), "my-app.timer");
    assert_eq!(unit(Some("b"), Some("timer"), 0).value.filename("my-app"), "my-app-b.timer");
}

#[test]
fn template_origin_needs_exactly_one_source() {
    let b = Some(sp("webapp.service".to_string(), 10, 26));
    let i = Some(sp("oops".to_string(), 37, 43));
    let origin = choose_template_origin(Span::new(0, 50), b.clone(), None, None).unwrap();
    assert_eq!(origin.value, TemplateOrigin::Builtin("webapp.service".to_string()));
    assert_eq!(origin.span, Span::new(10, 26));

    let issues = choose_template_origin(Span::new(0, 50), None, None, None).unwrap_err();
    assert_eq!(issues.len(), 1);
    assert_eq!(issues[0].message, "missing template source: set exactly one of `builtin`, `file`, or `inline`");
    assert_eq!(issues[0].span, Span::new(0, 50));

    let issues = choose_template_origin(Span::new(0, 50), b, None, i).unwrap_err();
    assert_eq!(issues.len(), 2);
    for (issue, span) in issues.iter().zip([Span::new(10, 26), Span::new(37, 43)]) {
        assert_eq!(issue.message, "conflicting template source: set only one of `builtin`, `file`, or `inline`");
        assert_eq!(issue.span, span);
    }
}

#[test]
fn toml_errors_point_at_each_key_and_first_definition() {
    let errors = vec![
        TomlErrorInfo {
            kind: TomlErrorKind::UnexpectedKeys(vec![("typo-key".to_string(), Span::new(5, 13)), ("other".to_string(), Span::new(20, 25))]),
            message: "unexpected keys".to_string(),
            span: Span::new(0, 30),
        },
        TomlErrorInfo { kind: TomlErrorKind::Duplicate { first: Span::new(1, 2) }, message: "duplicate key".to_string(), span: Span::new(3, 4) },
        TomlErrorInfo { kind: TomlErrorKind::Other, message: "expected a right bracket, found a newline".to_string(), span: Span::new(15, 16) },
    ];
    let d = toml_error_to_report(&errors, SourceRef::Text("x".to_string()));
    assert_eq!(d.message, "failed to parse vade config file");
    let labels: Vec<(&str, Span, bool)> = d.labels.iter().map(|l| (l.message.as_str(), l.span, l.primary)).collect();
    assert_eq!(
        labels,
        vec![
            ("unexpected key `typo-key`", Span::new(5, 13), true),
            ("unexpected key `other`", Span::new(20, 25), true),
            ("duplicate key", Span::new(3, 4), true),
            ("first defined here", Span::new(1, 2), false),
            ("expected a right bracket, found a newline", Span::new(15, 16), true),
        ]
    );
}

#[test]
fn loading_validates_what_was_read() {
    let app = AppName::from_str("my-app").unwrap();
    let ok = AppConfig { artifacts: None, network: None, caddyfile: None, systemd_units: vec![unit(Some("a"), None, 0), unit(Some("b"), None, 10)] };
    assert!(finish_load(&app, Ok(ok), SourceRef::NoSource).is_ok());

    let dup = AppConfig { artifacts: None, network: None, caddyfile: None, systemd_units: vec![unit(None, None, 0), unit(None, None, 10)] };
    let d = finish_load(&app, Ok(dup), SourceRef::NoSource).err().unwrap();
    assert_eq!(d.message, "invalid vade config file");
    assert_eq!(d.labels.len(), 2);

    let d = finish_load(&app, Err(vec![]), SourceRef::NoSource).err().unwrap();
    assert_eq!(d.message, "failed to parse vade config file");
}

#[test]
fn validation_errors_come_in_source_order() {
    let config = AppConfig {
        artifacts: None,
        network: None,
        caddyfile: None,
        systemd_units: vec![
            unit(None, None, 40),
            unit(Some("x"), None, 30),
            unit(None, None, 10),
            unit(Some("x"), None, 20),
        ],
    };
    let d = validate("app", &config).err().unwrap().into_report(SourceRef::NoSource);
    let starts: Vec<usize> = d.labels.iter().map(|l| l.span.start).collect();
    assert_eq!(starts, vec![10, 20, 30, 40]);
    assert!(d.labels.iter().all(|l| l.primary));
}

#[test]
fn json_values_become_user_vars() {
    let json = JsonValue::Object(vec![(
        "a".to_string(),
        JsonValue::Array(vec![
            JsonValue::String("x".to_string()),
            JsonValue::Scalar(JsonScalar::Number(serde_json::Number::from(1))),
            JsonValue::Scalar(JsonScalar::Null),
        ]),
    )]);
    let v = UserVar::from_json("caddyfile.vars.a", json);
    let UserVar::Object(e) = &v else { panic!("expected an object") };
    assert_eq!(e[0].0, "a");
    let UserVar::List(items) = &e[0].1 else { panic!("expected a list") };
    assert_eq!(items[0], UserVar::String(UserVarString::json("x".to_string(), "caddyfile.vars.a".to_string())));
    assert_eq!(items[1], UserVar::Scalar(JsonScalar::Number(serde_json::Number::from(1))));
    assert_eq!(items[2], UserVar::Scalar(JsonScalar::Null));
    assert_eq!(v.clone(), v);
}
