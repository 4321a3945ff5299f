use vade::app_deployment::{AppDeployment, ReadOutcomes};
use vade::app_name::AppName;
use vade::cli::{OverrideScope, ServerSetupCommand, VarOverride};
use vade::commands::deploy::Deploy;
use vade::commands::server_setup::{server_setup, ServerSetup};
use vade::commands::{create, destroy, OutputFile};
use vade::config::validate::validate;
use vade::config::{
    AppConfig, ArtifactsConfig, CaddyfileConfig, SystemdUnitConfig, TemplateConfig, TemplateOrigin, UserVar,
    UserVarString,
};
use vade::templating::context::CtxValue;
use vade::templating::{BuiltinTemplates, TomlSource};
use vade::util::{Diagnostic, RelativePathResolver, SourceRef, Span, Spanned};

fn builtins() -> BuiltinTemplates {
    BuiltinTemplates {
        caddyfile_static_files: "{{ vars.domains | join(' ') }} {\n  root * {{ vade.app.artifacts.active }}\n}\n".to_string(),
        caddyfile_reverse_proxy: "{{ vars.domains | join(' ') }} {\n  reverse_proxy :{{ port('main') }}\n}\n".to_string(),
        systemd_webapp_service: "[Service]\nExecStart={{ vars.exec_start }}\n".to_string(),
        header: "# app {{ vade.app.name }};".to_string(),
        create_tasks: "{% include 'shared/header.py.j2' %}create {{ vade.app.paths.home }};".to_string(),
        promote_script: "promote\n".to_string(),
        deploy: "{% include 'shared/create-tasks.py.j2' %}{% for unit in vade.app.systemd_units %}unit {{ unit.name }}\n{% endfor %}".to_string(),
        create: "{% include 'shared/create-tasks.py.j2' %}".to_string(),
        destroy: "destroy {{ vade.app.username }}".to_string(),
        server_setup: "setup {{ vade.internal.assign_ports_script.remote }}".to_string(),
        assign_ports_script: "#!/usr/bin/env python3\n".to_string(),
    }
}

fn app() -> AppName {
    AppName::from_str("test-app").unwrap()
}

fn sp<T>(value: T, start: usize, end: usize) -> Spanned<T> {
    Spanned { value, span: Span::new(start, end) }
}

fn template(origin: TemplateOrigin, vars: Vec<(String, UserVar)>) -> Spanned<TemplateConfig> {
    sp(TemplateConfig { origin: sp(origin, 0, 0), vars: sp(vars, 0, 0) }, 0, 0)
}

fn unit(suffix: Option<&str>, origin: TemplateOrigin, vars: Vec<(String, UserVar)>) -> Spanned<SystemdUnitConfig> {
    sp(
        SystemdUnitConfig {
            filename_suffix: suffix.map(|s| sp(s.to_string(), 0, 0)),
            file_extension: None,
            template: template(origin, vars),
        },
        0,
        0,
    )
}

fn toml(text: &str) -> TomlSource {
    TomlSource { path: "vade.toml".to_string(), value: text.to_string() }
}

fn reads(n_units: usize) -> ReadOutcomes {
    ReadOutcomes { artifacts_is_dir: true, caddyfile: None, systemd_units: (0..n_units).map(|_| None).collect() }
}

fn deployment_error(r: Result<AppDeployment, Diagnostic>) -> Diagnostic {
    match r {
        Ok(_) => panic!("expected an error"),
        Err(d) => d,
    }
}

fn names(files: &[OutputFile]) -> Vec<&str> {
    files.iter().map(|f| f.name.as_str()).collect()
}

fn var_text(vars: CtxValue, key: &str) -> Option<String> {
    match vars {
        CtxValue::Object(entries) => entries.into_iter().find(|(k, _)| k == key).and_then(|(_, v)| match v {
            CtxValue::Str(s) => Some(s),
            _ => None,
        }),
        _ => None,
    }
}

#[test]
fn deploy_rejects_var_for_missing_config() {
    let empty = || AppConfig { artifacts: None, network: None, caddyfile: None, systemd_units: vec![] };
    let resolver = RelativePathResolver::with_root("/project".to_string());

    let o = vec![VarOverride::from_str("caddyfile.vars.foo=42").unwrap()];
    let d = deployment_error(AppDeployment::from_config(&app(), empty(), &toml(""), &o, &resolver, &builtins(), reads(0)));
    assert_eq!(d.message, "--set targets `caddyfile`, but the configuration does not have a `[caddyfile]` section");
    assert!(d.labels.is_empty());

    let o = vec![VarOverride::from_str("systemd-unit[0].vars.foo=42").unwrap()];
    let d = deployment_error(AppDeployment::from_config(&app(), empty(), &toml(""), &o, &resolver, &builtins(), reads(0)));
    assert_eq!(
        d.message,
        "--set targets `systemd-unit[0]`, but the configuration does not have a systemd unit at that index (the total number of systemd units is 0)"
    );
}

#[test]
fn first_override_with_a_missing_target_is_reported() {
    let config = AppConfig {
        artifacts: None,
        network: None,
        caddyfile: None,
        systemd_units: vec![unit(None, TemplateOrigin::Builtin("webapp.service".to_string()), vec![])],
    };
    let o = vec![
        VarOverride::from_str("systemd-unit[0].vars.a=1").unwrap(),
        VarOverride::from_str("systemd-unit[12].vars.b=1").unwrap(),
        VarOverride::from_str("caddyfile.vars.c=1").unwrap(),
    ];
    let resolver = RelativePathResolver::with_root("/project".to_string());
    let d = deployment_error(AppDeployment::from_config(&app(), config, &toml(""), &o, &resolver, &builtins(), reads(1)));
    assert_eq!(
        d.message,
        "--set targets `systemd-unit[12]`, but the configuration does not have a systemd unit at that index (the total number of systemd units is 1)"
    );
}

#[test]
fn overrides_replace_configured_variables() {
    let configured = vec![
        ("domains".to_string(), UserVar::String(UserVarString::toml("old.example.com".to_string(), Span::new(1, 2)))),
        ("keep".to_string(), UserVar::String(UserVarString::toml("kept".to_string(), Span::new(3, 4)))),
    ];
    let config = AppConfig {
        artifacts: None,
        network: None,
        caddyfile: Some(sp(CaddyfileConfig { template: template(TemplateOrigin::Builtin("static-files".to_string()), configured) }, 0, 0)),
        systemd_units: vec![unit(Some("web"), TemplateOrigin::Inline(sp("x".to_string(), 5, 6)), vec![])],
    };
    let o = vec![
        VarOverride::from_str("caddyfile.vars.domains=\"first.example.com\"").unwrap(),
        VarOverride::from_str("caddyfile.vars.domains=\"new.example.com\"").unwrap(),
        VarOverride::from_str("systemd-unit[0].vars.exec_start=\"run\"").unwrap(),
    ];
    assert_eq!(o[2].scope, OverrideScope::SystemdUnit(0));
    let resolver = RelativePathResolver::with_root("/project".to_string());
    let d = match AppDeployment::from_config(&app(), config, &toml(""), &o, &resolver, &builtins(), reads(1)) {
        Ok(d) => d,
        Err(e) => panic!("unexpected error: {e:?}"),
    };
    let caddy = d.caddyfile.unwrap();
    assert_eq!(caddy.source.value, builtins().caddyfile_static_files);
    let vars = caddy.user_vars.into_minijinja();
    assert_eq!(var_text(vars, "domains").unwrap(), "new.example.com");
    assert_eq!(d.systemd_units[0].name, "test-app-web.service");
    let unit = d.systemd_units.into_iter().next().unwrap();
    assert_eq!(var_text(unit.template.user_vars.into_minijinja(), "exec_start").unwrap(), "run");
}

#[test]
fn deploy_with_invalid_artifacts_not_found_raises_error() {
    let config = AppConfig {
        artifacts: Some(sp(ArtifactsConfig { path: sp("nothing-here".to_string(), 20, 32) }, 0, 32)),
        network: None,
        caddyfile: None,
        systemd_units: vec![],
    };
    let source = toml("[artifacts]\npath = \"nothing-here\"\n");
    let mut r = reads(0);
    r.artifacts_is_dir = false;
    let resolver = RelativePathResolver::with_root("/repo/tests/resources".to_string());
    let d = deployment_error(AppDeployment::from_config(&app(), config, &source, &vec![], &resolver, &builtins(), r));
    assert_eq!(d.message, "failed to locate artifacts");
    assert_eq!(d.labels.len(), 1);
    assert_eq!(d.labels[0].message, "the provided path does not exist or is not a directory");
    assert_eq!(d.labels[0].span, Span::new(20, 32));
    assert_eq!(d.help.as_deref(), Some("the artifacts path resolved to `/repo/tests/resources/nothing-here`"));
    assert_eq!(d.source, SourceRef::Named { name: "vade.toml".to_string(), text: source.value.clone() });
}

#[test]
fn artifacts_directory_is_resolved_against_the_configuration() {
    let config = AppConfig {
        artifacts: Some(sp(ArtifactsConfig { path: sp("dist".to_string(), 0, 0) }, 0, 0)),
        network: None,
        caddyfile: None,
        systemd_units: vec![],
    };
    let resolver = RelativePathResolver::with_root("/repo".to_string());
    let Ok(d) = AppDeployment::from_config(&app(), config, &toml(""), &vec![], &resolver, &builtins(), reads(0)) else {
        panic!("expected a deployment")
    };
    assert_eq!(d.artifacts.unwrap().as_str(), "/repo/dist");
}

#[test]
fn deploy_builtin_with_non_existing_name_raises_error() {
    let config = AppConfig {
        artifacts: None,
        network: None,
        caddyfile: None,
        systemd_units: vec![sp(
            SystemdUnitConfig {
                filename_suffix: None,
                file_extension: None,
                template: sp(
                    TemplateConfig {
                        origin: sp(TemplateOrigin::Builtin("webapp.servic".to_string()), 11, 26),
                        vars: sp(vec![], 0, 0),
                    },
                    0,
                    0,
                ),
            },
            0,
            0,
        )],
    };
    let resolver = RelativePathResolver::with_root("/repo".to_string());
    let d = deployment_error(AppDeployment::from_config(&app(), config, &toml("x"), &vec![], &resolver, &builtins(), reads(1)));
    assert_eq!(d.message, "unknown builtin template");
    assert_eq!(d.labels[0].message, "there is no systemd unit template with this name");
    assert_eq!(d.labels[0].span, Span::new(11, 26));
}

#[test]
fn deploy_file_with_non_existing_template_raises_error() {
    let config = AppConfig {
        artifacts: None,
        network: None,
        caddyfile: None,
        systemd_units: vec![unit(None, TemplateOrigin::File("not-found.service".to_string()), vec![])],
    };
    let resolver = RelativePathResolver::with_root("/repo/tests/resources".to_string());
    let mut r = reads(1);
    r.systemd_units[0] = Some(Err("No such file or directory (os error 2)".to_string()));
    let d = deployment_error(AppDeployment::from_config(&app(), config, &toml("x"), &vec![], &resolver, &builtins(), r));
    assert_eq!(d.message, "failed to load template");
    assert_eq!(d.labels[0].message, "reading the file resulted in an error: No such file or directory (os error 2)");
    assert_eq!(d.help.as_deref(), Some("the path resolved to `/repo/tests/resources/not-found.service`"));
}

#[test]
fn deploy_with_duplicate_unit_filenames_raises_error() {
    let config = AppConfig {
        artifacts: None,
        network: None,
        caddyfile: None,
        systemd_units: vec![
            sp(SystemdUnitConfig { filename_suffix: None, file_extension: None, template: template(TemplateOrigin::Inline(sp("first".to_string(), 0, 0)), vec![]) }, 55, 71),
            sp(SystemdUnitConfig { filename_suffix: None, file_extension: None, template: template(TemplateOrigin::Inline(sp("second".to_string(), 0, 0)), vec![]) }, 112, 128),
        ],
    };
    let errors = validate("test-app", &config).err().unwrap();
    let d = errors.into_report(SourceRef::NoSource);
    assert_eq!(d.message, "invalid vade config file");
    assert_eq!(d.labels.len(), 2);
    for (label, start) in d.labels.iter().zip([55, 112]) {
        assert_eq!(
            label.message,
            "systemd unit filename `test-app.service` is declared multiple times, you can use the `filename-suffix` and `file-extension` properties to differentiate between them"
        );
        assert_eq!(label.span.start, start);
    }
}

#[test]
fn units_differing_by_suffix_are_valid() {
    let config = AppConfig {
        artifacts: None,
        network: None,
        caddyfile: None,
        systemd_units: vec![
            unit(None, TemplateOrigin::Inline(sp("a".to_string(), 0, 0)), vec![]),
            unit(Some("worker"), TemplateOrigin::Inline(sp("b".to_string(), 0, 0)), vec![]),
        ],
    };
    assert!(validate("my-app", &config).is_ok());
    assert_eq!(config.systemd_units[1].value.filename("my-app"), "my-app-worker.service");
}

fn deploy(config: AppConfig, source: &TomlSource, overrides: Vec<VarOverride>) -> Result<Vec<OutputFile>, Diagnostic> {
    let n = config.systemd_units.len();
    let resolver = RelativePathResolver::with_root("/repo".to_string());
    let app_deployment = match AppDeployment::from_config(&app(), config, source, &overrides, &resolver, &builtins(), reads(n)) {
        Ok(d) => d,
        Err(e) => panic!("unexpected error: {e:?}"),
    };
    Deploy { app_name: app(), app_deployment, out_dir: "/tmp/vadegen".to_string() }.execute(source, &builtins())
}

#[test]
fn deploy_applies_var_overrides() {
    let config = AppConfig {
        artifacts: None,
        network: None,
        caddyfile: Some(sp(
            CaddyfileConfig {
                template: template(
                    TemplateOrigin::Builtin("reverse-proxy".to_string()),
                    vec![("domains".to_string(), UserVar::List(vec![UserVar::String(UserVarString::toml("python-site.example.com".to_string(), Span::new(0, 0)))]))],
                ),
            },
            0,
            0,
        )),
        systemd_units: vec![unit(
            None,
            TemplateOrigin::Builtin("webapp.service".to_string()),
            vec![("exec_start".to_string(), UserVar::String(UserVarString::toml("python3 main.py".to_string(), Span::new(0, 0))))],
        )],
    };
    let overrides = vec![
        VarOverride::from_str("caddyfile.vars.domains=[\"override.example.com\"]").unwrap(),
        VarOverride::from_str("systemd-unit[0].vars.exec_start=\"python3 /custom/main.py\"").unwrap(),
    ];
    let files = deploy(config, &toml(""), overrides).unwrap();
    assert_eq!(names(&files), vec!["test-app.service", "Caddyfile", "execute.py"]);
    let caddyfile = &files[1].contents;
    assert!(caddyfile.contains("override.example.com"), "Caddyfile did not use the overridden domain:\n{caddyfile}");
    assert!(!caddyfile.contains("python-site.example.com"), "Caddyfile still contains the configured domain:\n{caddyfile}");
    assert!(caddyfile.contains("reverse_proxy :{{ port(\"main\") }}"));
    let unit = &files[0].contents;
    assert!(unit.contains("ExecStart=python3 /custom/main.py"), "systemd unit did not use the overridden exec_start:\n{unit}");
    assert_eq!(files[2].contents, "# app test-app;create /opt/vade/apps/test-app;unit test-app.service\n");
}

#[test]
fn user_strings_are_rendered_before_their_template() {
    let config = AppConfig {
        artifacts: None,
        network: None,
        caddyfile: None,
        systemd_units: vec![unit(
            None,
            TemplateOrigin::Inline(sp("ExecStart={{ vars.exec_start }}".to_string(), 0, 0)),
            vec![("exec_start".to_string(), UserVar::String(UserVarString::toml("{{ vade.app.paths.storage }}/bin".to_string(), Span::new(0, 0))))],
        )],
    };
    let files = deploy(config, &toml(""), vec![]).unwrap();
    assert_eq!(files[0].contents, "ExecStart=/opt/vade/apps/test-app/storage/bin");
}

#[test]
fn deploy_with_invalid_inline_template_raises_error() {
    let text = "[caddyfile.template]\ninline = \"\"\"\nOops... undefined variable {{ vars.kaboom }}\n\"\"\"\n";
    let start = text.find("Oops").unwrap();
    let value = "Oops... undefined variable {{ vars.kaboom }}\n";
    let config = AppConfig {
        artifacts: None,
        network: None,
        caddyfile: Some(sp(
            CaddyfileConfig { template: template(TemplateOrigin::Inline(sp(value.to_string(), start, start + value.len())), vec![]) },
            0,
            0,
        )),
        systemd_units: vec![],
    };
    let source = toml(text);
    let d = deploy(config, &source, vec![]).unwrap_err();
    assert_eq!(d.message, "failed to render jinja2 template for Caddyfile");
    assert_eq!(d.labels[0].message, "undefined value");
    assert_eq!(&text[d.labels[0].span.start..d.labels[0].span.end], "vars.kaboom");
    assert_eq!(
        d.help.as_deref(),
        Some("`kaboom` is a user-defined variable. Declare it in your `vade.toml` file under the relevant template's `vars`, e.g. `vars = { kaboom = ... }`, or inject it through the CLI using the `--set` option.")
    );
    assert_eq!(d.source, SourceRef::Named { name: "vade.toml".to_string(), text: text.to_string() });
}

#[test]
fn deploy_builtin_with_missing_var_raises_error() {
    let config = AppConfig {
        artifacts: None,
        network: None,
        caddyfile: None,
        systemd_units: vec![unit(None, TemplateOrigin::Builtin("webapp.service".to_string()), vec![])],
    };
    let d = deploy(config, &toml(""), vec![]).unwrap_err();
    assert_eq!(d.message, "failed to render jinja2 template for systemd unit");
    assert!(matches!(&d.source, SourceRef::Named { name, .. } if name == "webapp.service (builtin systemd unit template)"));
    assert!(d.help.unwrap().starts_with("`exec_start` is a user-defined variable."));
}

#[test]
fn deploy_with_invalid_user_string_in_cli_flag_raises_error() {
    let config = AppConfig {
        artifacts: None,
        network: None,
        caddyfile: None,
        systemd_units: vec![unit(None, TemplateOrigin::Builtin("webapp.service".to_string()), vec![])],
    };
    let overrides = vec![VarOverride::from_str("systemd-unit[0].vars.exec_start=\"hello {{ vars.world }}\"").unwrap()];
    let d = deploy(config, &toml(""), overrides).unwrap_err();
    assert_eq!(d.message, "failed to render user-provided string");
    assert_eq!(d.source, SourceRef::Text("hello {{ vars.world }}".to_string()));
    assert_eq!(
        d.help.as_deref(),
        Some("1. this template string was assigned to `systemd-unit[0].vars.exec_start` through the `--set` flag\n2. `world` is a user-defined variable. Declare it in your `vade.toml` file under the relevant template's `vars`, e.g. `vars = { world = ... }`, or inject it through the CLI using the `--set` option.")
    );
}

#[test]
fn run_create() {
    let files = create::execute(&app(), "vadegen", &builtins()).unwrap();
    assert_eq!(names(&files), vec!["execute.py"]);
    assert_eq!(files[0].contents, "# app test-app;create /opt/vade/apps/test-app;");
}

#[test]
fn destroy_renders_for_the_app() {
    let files = destroy::execute(&app(), "vadegen", &builtins()).unwrap();
    assert_eq!(names(&files), vec!["execute.py"]);
    assert_eq!(files[0].contents, "destroy test-app");
}

#[test]
fn run_server_setup() {
    let files = server_setup(ServerSetupCommand { out_dir: "/abs/vadegen".to_string() }, &builtins()).unwrap();
    assert_eq!(names(&files), vec!["execute.py", "assign-ports.py"]);
    assert_eq!(files[0].contents, "setup /opt/vade/scripts/assign-ports.py");
    assert_eq!(files[1].contents, builtins().assign_ports_script);
    let again = ServerSetup { out_dir: "/abs/vadegen".to_string() }.execute(&builtins()).unwrap();
    assert_eq!(names(&again), names(&files));
}
