use vade::app_deployment::{AppDeployment, SystemdUnit};
use vade::app_name::AppName;
use vade::config::{TemplateAndUserVars, UserVarString, UserVars, UserVarStringOrigin};
use vade::templating::base::base_minijinja_context;
use vade::templating::context::{build_context, with_vars, CtxValue};
use vade::templating::render::{
    base_minijinja_env, dirname_filter, port_function, render_internal, render_user_template,
    render_user_var_string,
};
use vade::templating::{
    missing_user_var_hint, BuiltinTemplateKind, BuiltinTemplates, TemplateErrorKind, TemplateSource,
    TomlSource,
};
use vade::util::{ResolvedPath, SourceRef, Span};

// Stand-ins for the templates that ship with vade, exercising the variables they read.
fn builtins() -> BuiltinTemplates {
    BuiltinTemplates {
        caddyfile_static_files: "{{ vars.domains | join(' ') }} {\n  root * {{ vade.app.artifacts.active }}\n}\n".to_string(),
        caddyfile_reverse_proxy: "{{ vars.domains | join(' ') }} {\n  reverse_proxy :{{ port('main') }}\n}\n".to_string(),
        systemd_webapp_service: "[Service]\nExecStart={{ vars.exec_start }}\nWorkingDirectory={{ vade.app.paths.storage }}\n".to_string(),
        header: "# app {{ vade.app.name }};".to_string(),
        create_tasks: "{% include 'shared/header.py.j2' %}home = '{{ vade.app.paths.home }}';".to_string(),
        promote_script: "ln -sfn {{ vade.app.paths.candidate_deployment }} {{ vade.app.paths.active_deployment }}\n".to_string(),
        deploy: "{% include 'shared/create-tasks.py.j2' %}{% for unit in vade.app.systemd_units %}unit = '{{ unit.installed_path }}'\n{% endfor %}{% if vade.app.caddyfile.local is defined %}caddy = '{{ vade.app.caddyfile.local | dirname }}'\n{% endif %}".to_string(),
        create: "{% include 'shared/create-tasks.py.j2' %}".to_string(),
        destroy: "user = '{{ vade.app.username }}'\n".to_string(),
        server_setup: "script = '{{ vade.internal.assign_ports_script.remote }}'\n".to_string(),
        assign_ports_script: "#!/usr/bin/env python3\n".to_string(),
    }
}

fn get_test_context(deployment: Option<&AppDeployment>) -> CtxValue {
    base_minijinja_context("/tmp/vadegen", Some(&AppName::from_str("foo").unwrap()), deployment)
}

fn lookup<'a>(c: &'a CtxValue, path: &str) -> Option<&'a CtxValue> {
    let mut cur = c;
    for part in path.split('.') {
        match cur {
            CtxValue::Object(entries) => {
                cur = &entries.iter().find(|(k, _)| k == part)?.1;
            }
            _ => return None,
        }
    }
    Some(cur)
}

fn lookup_str(c: &CtxValue, path: &str) -> Option<String> {
    match lookup(c, path)? {
        CtxValue::Str(s) => Some(s.clone()),
        _ => None,
    }
}

fn file_template(path: &str, value: &str) -> TemplateSource {
    TemplateSource::file(path.to_string(), value.to_string())
}

fn dummy_toml() -> TomlSource {
    TomlSource { path: "/path/to/vade.toml".to_string(), value: "# dummy toml file".to_string() }
}

fn test_render_deploy(app_deployment: &AppDeployment) -> String {
    let b = builtins();
    let context = get_test_context(Some(app_deployment));
    let env = base_minijinja_env(&b).unwrap();
    render_internal(&env, &context, "deploy", &b.deploy).unwrap()
}

#[test]
fn test_render_deploy_minimal() {
    let deployment = AppDeployment { artifacts: None, caddyfile: None, systemd_units: vec![] };
    let out = test_render_deploy(&deployment);
    assert_eq!(out, "# app foo;home = '/opt/vade/apps/foo';");
}

#[test]
fn test_render_deploy_full() {
    let deployment = AppDeployment {
        artifacts: Some(ResolvedPath::from_str("/my/local/artifacts")),
        caddyfile: Some(TemplateAndUserVars {
            source: file_template("", "Believe me, I'm a Caddyfile -.-"),
            user_vars: UserVars::new(),
        }),
        systemd_units: vec![SystemdUnit {
            name: "foo.service".to_string(),
            template: TemplateAndUserVars {
                source: file_template("", "Believe me, I'm a systemd unit :)"),
                user_vars: UserVars::new(),
            },
        }],
    };
    let out = test_render_deploy(&deployment);
    assert!(out.contains("unit = '/etc/systemd/system/foo.service'"));
    assert!(out.contains("caddy = '/tmp/vadegen'"));
}

#[test]
fn test_missing_user_var_hint() {
    // Only undefined errors in the `vars` namespace produce a hint
    assert!(missing_user_var_hint(TemplateErrorKind::Undefined, "vars.domains").is_some());
    assert!(missing_user_var_hint(TemplateErrorKind::Undefined, "vars.foo.bar").is_some());
    assert!(missing_user_var_hint(TemplateErrorKind::Undefined, "vars.list[0]").is_some());

    // Not the `vars` namespace
    assert!(missing_user_var_hint(TemplateErrorKind::Undefined, "vade.app.unknown").is_none());
    assert!(missing_user_var_hint(TemplateErrorKind::Undefined, "vars").is_none());
    // A different error kind (e.g. a syntax error) shouldn't trigger the hint
    assert!(missing_user_var_hint(TemplateErrorKind::Syntax, "vars.domains").is_none());
}

#[test]
fn missing_user_var_hint_names_the_top_level_key() {
    assert_eq!(
        missing_user_var_hint(TemplateErrorKind::Undefined, " vars.foo.bar ").unwrap(),
        "`foo` is a user-defined variable. Declare it in your `vade.toml` file under the relevant template's `vars`, e.g. `vars = { foo = ... }`, or inject it through the CLI using the `--set` option."
    );
    assert!(missing_user_var_hint(TemplateErrorKind::Undefined, "vars.[0]").is_none());
}

#[test]
fn test_render_create() {
    let b = builtins();
    let context = get_test_context(None);
    let env = base_minijinja_env(&b).unwrap();
    let out = render_internal(&env, &context, "shared/create-tasks.py.j2", &b.create_tasks).unwrap();
    assert_eq!(out, "# app foo;home = '/opt/vade/apps/foo';");
}

#[test]
fn test_render_error() {
    let b = builtins();
    let context = get_test_context(None);
    let env = base_minijinja_env(&b).unwrap();

    let template = "hello {{ does_not_exist }}";
    let Err(err) = render_user_template(
        &env,
        &context,
        &dummy_toml(),
        &TemplateSource::file("tmp".to_string(), template.into()),
        "failed to render template",
    ) else {
        panic!("expected rendering to fail");
    };

    assert_eq!(err.message, "failed to render template");
    assert_eq!(err.labels.len(), 1);
    assert_eq!(err.labels[0].message, "undefined value");
    assert_eq!(err.labels[0].span, Span::new(9, 23));
    assert_eq!(err.help, None);
    assert_eq!(err.source, SourceRef::Named { name: "tmp".to_string(), text: template.to_string() });
}

#[test]
fn test_render_error_hints_at_missing_user_var() {
    let b = builtins();
    let env = base_minijinja_env(&b).unwrap();

    // `vars.exec_start` is referenced but never declared in the (empty) `vars` namespace
    let context = with_vars(get_test_context(None), UserVars::new().into_minijinja());
    let template = "ExecStart={{ vars.exec_start }}";
    let Err(err) = render_user_template(
        &env,
        &context,
        &dummy_toml(),
        &TemplateSource::file("main.service".to_string(), template.into()),
        "failed to render template",
    ) else {
        panic!("expected rendering to fail");
    };

    // The diagnostic points at the offending expression and hints at declaring the user
    // variable in `vade.toml`.
    assert_eq!(err.message, "failed to render template");
    assert_eq!(err.labels[0].message, "undefined value");
    assert_eq!(err.labels[0].span, Span::new(13, 28));
    assert_eq!(
        err.help.as_deref(),
        Some("`exec_start` is a user-defined variable. Declare it in your `vade.toml` file under the relevant template's `vars`, e.g. `vars = { exec_start = ... }`, or inject it through the CLI using the `--set` option.")
    );
    assert_eq!(err.source, SourceRef::Named { name: "main.service".to_string(), text: template.to_string() });
}

#[test]
fn builtin_template_errors_name_the_builtin() {
    let b = builtins();
    let env = base_minijinja_env(&b).unwrap();
    let context = with_vars(get_test_context(None), UserVars::new().into_minijinja());
    let source = TemplateSource::builtin(
        "webapp.service".to_string(),
        BuiltinTemplateKind::SystemdUnit,
        b.systemd_webapp_service.clone(),
    );
    let err = render_user_template(&env, &context, &dummy_toml(), &source, "failed to render jinja2 template for systemd unit")
        .unwrap_err();
    assert_eq!(err.message, "failed to render jinja2 template for systemd unit");
    assert_eq!(
        err.source,
        SourceRef::Named {
            name: "webapp.service (builtin systemd unit template)".to_string(),
            text: b.systemd_webapp_service.clone()
        }
    );
    assert!(err.help.unwrap().starts_with("`exec_start` is a user-defined variable."));
}

#[test]
fn internal_template_errors_ask_for_a_report() {
    let b = builtins();
    let env = base_minijinja_env(&b).unwrap();
    let context = get_test_context(None);
    let err = render_internal(&env, &context, "broken", "{{ nope }}").unwrap_err();
    assert_eq!(err.message, "failed to render internal template (this is a bug)");
    assert_eq!(err.help.as_deref(), Some("this is an internal error in vade, please report it so we can fix it"));
    assert_eq!(
        err.source,
        SourceRef::Named { name: "broken (builtin internal template)".to_string(), text: "{{ nope }}".to_string() }
    );
}

#[test]
fn syntax_errors_in_internal_blocks_fail_the_environment() {
    let mut b = builtins();
    b.header = "{% if %}".to_string();
    let err = base_minijinja_env(&b).err().unwrap();
    assert_eq!(err.message, "failed to render internal template (this is a bug)");
    assert!(err.labels[0].message.starts_with("syntax error"));
}

#[test]
fn user_strings_from_the_cli_carry_the_set_hint() {
    let b = builtins();
    let env = base_minijinja_env(&b).unwrap();
    let context = get_test_context(None);
    let s = UserVarString::json(
        "hello {{ vars.world }}".to_string(),
        "systemd-unit[0].vars.exec_start".to_string(),
    );
    let err = render_user_var_string(&env, &context, &dummy_toml(), &s).unwrap_err();
    assert_eq!(err.message, "failed to render user-provided string");
    assert_eq!(err.labels[0].span, Span::new(9, 19));
    assert_eq!(
        err.help.as_deref(),
        Some("1. this template string was assigned to `systemd-unit[0].vars.exec_start` through the `--set` flag\n2. `world` is a user-defined variable. Declare it in your `vade.toml` file under the relevant template's `vars`, e.g. `vars = { world = ... }`, or inject it through the CLI using the `--set` option.")
    );
    assert_eq!(err.source, SourceRef::Text("hello {{ vars.world }}".to_string()));
}

#[test]
fn user_strings_from_the_configuration_point_into_it() {
    let b = builtins();
    let env = base_minijinja_env(&b).unwrap();
    let context = get_test_context(None);
    let toml = TomlSource {
        path: "vade.toml".to_string(),
        value: "exec_start = \"{{{ vade.app.name }}\"".to_string(),
    };
    let s = UserVarString::toml("{{{ vade.app.name }}".to_string(), Span::new(14, 34));
    assert!(matches!(s.origin, UserVarStringOrigin::Toml(_)));
    let err = render_user_var_string(&env, &context, &toml, &s).unwrap_err();
    assert_eq!(err.message, "failed to render user-provided string");
    assert!(err.labels[0].message.starts_with("syntax error"));
    assert!(err.labels[0].span.start >= 14);
    assert_eq!(err.source, SourceRef::Named { name: "vade.toml".to_string(), text: toml.value.clone() });

    let ok = UserVarString::toml("{{ vade.app.name }}-x".to_string(), Span::new(0, 0));
    assert_eq!(render_user_var_string(&env, &context, &toml, &ok).unwrap(), "foo-x");
}

#[test]
fn base_context_describes_the_app() {
    let c = get_test_context(None);
    assert_eq!(lookup_str(&c, "vade.app.name").unwrap(), "foo");
    assert_eq!(lookup_str(&c, "vade.app.username").unwrap(), "foo");
    assert_eq!(lookup_str(&c, "vade.app.paths.home").unwrap(), "/opt/vade/apps/foo");
    assert_eq!(lookup_str(&c, "vade.app.paths.secrets").unwrap(), "/opt/vade/apps/foo/secrets");
    assert_eq!(lookup_str(&c, "vade.app.paths.storage").unwrap(), "/opt/vade/apps/foo/storage");
    assert_eq!(lookup_str(&c, "vade.app.paths.active_deployment").unwrap(), "/opt/vade/apps/foo/active-deployment");
    assert_eq!(lookup_str(&c, "vade.app.paths.previous_deployment").unwrap(), "/opt/vade/apps/foo/previous-deployment");
    assert_eq!(lookup_str(&c, "vade.app.paths.candidate_deployment").unwrap(), "/opt/vade/apps/foo/candidate-deployment");
    assert_eq!(
        lookup_str(&c, "vade.app.paths.active_systemd_unit_copies").unwrap(),
        "/opt/vade/apps/foo/active-deployment/systemd-unit-copies"
    );
    assert_eq!(lookup_str(&c, "vade.app.artifacts.active").unwrap(), "/opt/vade/apps/foo/active-deployment/artifacts");
    assert_eq!(lookup_str(&c, "vade.app.artifacts.candidate").unwrap(), "/opt/vade/apps/foo/candidate-deployment/artifacts");
    assert_eq!(lookup_str(&c, "vade.app.caddyfile.active").unwrap(), "/opt/vade/apps/foo/active-deployment/Caddyfile");
    assert_eq!(lookup_str(&c, "vade.app.paths.artifacts").unwrap(), "/opt/vade/apps/foo/active-deployment/artifacts");
    assert_eq!(lookup_str(&c, "vade.internal.assign_ports_script.local").unwrap(), "/tmp/vadegen/assign-ports.py");
    assert_eq!(lookup_str(&c, "vade.internal.assign_ports_script.remote").unwrap(), "/opt/vade/scripts/assign-ports.py");
    // Without a deployment, nothing about one is defined
    assert!(lookup(&c, "vade.app.systemd_units").is_none());
    assert!(lookup(&c, "vade.app.caddyfile.local").is_none());
    assert!(lookup(&c, "vade.app.artifacts.local").is_none());
}

#[test]
fn base_context_without_app_has_only_internal_variables() {
    let c = base_minijinja_context("/out", None, None);
    assert_eq!(lookup_str(&c, "vade.internal.assign_ports_script.local").unwrap(), "/out/assign-ports.py");
    assert!(lookup(&c, "vade.app").is_none());
}

#[test]
fn base_context_describes_the_deployment() {
    let deployment = AppDeployment {
        artifacts: Some(ResolvedPath::from_str("/my/local/artifacts")),
        caddyfile: Some(TemplateAndUserVars { source: file_template("", ""), user_vars: UserVars::new() }),
        systemd_units: vec![SystemdUnit {
            name: "foo.service".to_string(),
            template: TemplateAndUserVars { source: file_template("", ""), user_vars: UserVars::new() },
        }],
    };
    let c = get_test_context(Some(&deployment));
    assert_eq!(lookup_str(&c, "vade.app.artifacts.local").unwrap(), "/my/local/artifacts");
    assert_eq!(lookup_str(&c, "vade.app.caddyfile.local").unwrap(), "/tmp/vadegen/Caddyfile");
    assert_eq!(lookup_str(&c, "vade.app.caddyfile.candidate").unwrap(), "/opt/vade/apps/foo/candidate-deployment/Caddyfile");
    let Some(CtxValue::List(units)) = lookup(&c, "vade.app.systemd_units") else { panic!("no unit list") };
    assert_eq!(units.len(), 1);
    assert_eq!(lookup_str(&units[0], "name").unwrap(), "foo.service");
    assert_eq!(lookup_str(&units[0], "local_path").unwrap(), "/tmp/vadegen/foo.service");
    assert_eq!(
        lookup_str(&units[0], "candidate_path").unwrap(),
        "/opt/vade/apps/foo/candidate-deployment/systemd-unit-copies/foo.service"
    );
    assert_eq!(
        lookup_str(&units[0], "active_path").unwrap(),
        "/opt/vade/apps/foo/active-deployment/systemd-unit-copies/foo.service"
    );
    assert_eq!(lookup_str(&units[0], "installed_path").unwrap(), "/etc/systemd/system/foo.service");
}

#[test]
fn build_context_nests_dotted_paths() {
    let vars = vec![
        ("a.b.c".to_string(), CtxValue::Str("1".to_string())),
        ("a.b.d".to_string(), CtxValue::Str("2".to_string())),
        ("a.e".to_string(), CtxValue::List(vec![])),
        ("f".to_string(), CtxValue::Str("3".to_string())),
    ];
    let c = build_context(vars);
    assert_eq!(lookup_str(&c, "a.b.c").unwrap(), "1");
    assert_eq!(lookup_str(&c, "a.b.d").unwrap(), "2");
    assert!(matches!(lookup(&c, "a.e"), Some(CtxValue::List(v)) if v.is_empty()));
    assert_eq!(lookup_str(&c, "f").unwrap(), "3");
    assert!(matches!(lookup(&c, "a.b"), Some(CtxValue::Object(v)) if v.len() == 2));
    assert!(lookup(&c, "a.x").is_none());
}

#[test]
fn build_context_keeps_the_later_value() {
    let s = |t: &str| CtxValue::Str(t.to_string());
    let c = build_context(vec![("a".to_string(), s("1")), ("b.c".to_string(), s("2")), ("a".to_string(), s("3"))]);
    assert_eq!(lookup_str(&c, "a").unwrap(), "3");
    assert_eq!(lookup_str(&c, "b.c").unwrap(), "2");
    let CtxValue::Object(top) = &c else { panic!("expected a map") };
    assert_eq!(top.len(), 2);

    // A later variable on the way to earlier ones replaces them
    let c = build_context(vec![("x.y".to_string(), s("1")), ("x.z".to_string(), s("2")), ("x".to_string(), s("3"))]);
    assert_eq!(lookup_str(&c, "x").unwrap(), "3");
    assert!(lookup(&c, "x.y").is_none());
}

#[test]
fn build_context_nests_map_values() {
    let inner = CtxValue::Object(vec![("k".to_string(), CtxValue::Str("v".to_string()))]);
    let c = build_context(vec![("a.m".to_string(), inner), ("a.n".to_string(), CtxValue::Str("w".to_string()))]);
    assert_eq!(lookup_str(&c, "a.m.k").unwrap(), "v");
    assert_eq!(lookup_str(&c, "a.n").unwrap(), "w");
}

#[test]
fn port_function_builds_a_placeholder() {
    assert_eq!(port_function("main").unwrap(), "{{ port(\"main\") }}");
    assert!(port_function("ma\"in").is_err());
}

#[test]
fn dirname_filter_gives_the_parent() {
    assert_eq!(dirname_filter("/a/b/c.txt").unwrap(), "/a/b");
    assert_eq!(dirname_filter("rel/x").unwrap(), "rel");
    assert!(dirname_filter("/").is_err());
    assert!(dirname_filter("").is_err());
}

#[test]
fn port_and_dirname_are_registered() {
    let b = builtins();
    let env = base_minijinja_env(&b).unwrap();
    let context = get_test_context(None);
    let out = render_internal(&env, &context, "t", "{{ port('web') }} {{ '/x/y' | dirname }}").unwrap();
    assert_eq!(out, "{{ port(\"web\") }} /x");
}

#[test]
fn vars_sit_beside_base_variables() {
    let mut vars = UserVars::new();
    vars.set("vade".to_string(), vade::config::UserVar::String(UserVarString::json("shadow".to_string(), "p".to_string())));
    let c = with_vars(get_test_context(None), vars.into_minijinja());
    assert_eq!(lookup_str(&c, "vars.vade").unwrap(), "shadow");
    assert_eq!(lookup_str(&c, "vade.app.name").unwrap(), "foo");
}

#[test]
fn float_variables_render_as_floats() {
    let b = builtins();
    let env = base_minijinja_env(&b).unwrap();
    let vars = CtxValue::Object(vec![
        ("a".to_string(), CtxValue::Scalar(vade::json::JsonScalar::Float(minijinja::Value::from(f64::NAN)))),
        ("b".to_string(), CtxValue::Scalar(vade::json::JsonScalar::Float(minijinja::Value::from(f64::INFINITY)))),
    ]);
    let context = with_vars(get_test_context(None), vars);
    let out = render_internal(&env, &context, "t", "{{ vars.a }} {{ vars.b }}").unwrap();
    assert_eq!(out, "NaN inf");
}
