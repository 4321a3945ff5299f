use vade::app_name::AppName;
use vade::config::reading::load_from_str;
use vade::config::{AppConfig, TemplateOrigin, UserVar, UserVarStringOrigin};
use vade::json::JsonScalar;
use vade::util::{Diagnostic, SourceRef, Span};

fn load(src: &str) -> Result<AppConfig, Diagnostic> {
    load_from_str(&AppName::from_str("my-app").unwrap(), src, SourceRef::Text(src.to_string()))
}

fn span_of(src: &str, needle: &str) -> Span {
    let start = src.find(needle).unwrap();
    Span::new(start, start + needle.len())
}

// The text a span covers, without the quotes of a string.
fn covered(src: &str, span: Span) -> &str {
    src[span.start..span.end].trim_matches('"')
}

fn load_err(src: &str) -> Diagnostic {
    match load(src) {
        Err(d) => d,
        Ok(_) => panic!("expected an error"),
    }
}

fn label_messages(d: &Diagnostic) -> Vec<&str> {
    d.labels.iter().map(|l| l.message.as_str()).collect()
}

#[test]
fn test_load_minimal() {
    let config = load("").unwrap();
    assert!(config.systemd_units.is_empty());
    assert!(config.caddyfile.is_none());
    assert!(config.artifacts.is_none());
}

#[test]
fn test_load_allows_units_differing_by_suffix() {
    // Same extension, but different suffixes, so the filenames don't collide
    let src = r#"
[[systemd-unit]]
filename-suffix = "a"
[systemd-unit.template]
inline = "first"

[[systemd-unit]]
filename-suffix = "b"
[systemd-unit.template]
inline = "second"
"#;

    let config = load(src).unwrap();
    assert_eq!(config.systemd_units().len(), 2);
}

#[test]
fn loading_reads_every_table() {
    let src = r#"
[artifacts]
path = "artifacts"

[network]
reserve-ports = 3

[[systemd-unit]]
file-extension = "timer"
[systemd-unit.template]
builtin = "webapp.service"
vars = { exec_start = "run", workers = 4, debug = true, names = ["a"] }

[caddyfile.template]
inline = "site"
"#;
    let config = load(src).unwrap();
    let artifacts = config.artifacts().unwrap();
    assert_eq!(artifacts.path.value, "artifacts");
    assert_eq!(covered(src, artifacts.path.span), "artifacts");
    assert_eq!(config.network.as_ref().unwrap().value.reserve_ports.as_ref().unwrap().value, 3);

    let unit = &config.systemd_units()[0].value;
    assert_eq!(unit.filename("my-app"), "my-app.timer");
    assert_eq!(unit.template.value.origin.value, TemplateOrigin::Builtin("webapp.service".to_string()));
    let vars = &unit.template.value.vars.value;
    let get = |k: &str| &vars.iter().find(|(name, _)| name == k).unwrap().1;
    let UserVar::String(exec_start) = get("exec_start") else { panic!("expected a string") };
    assert_eq!(exec_start.value, "run");
    let UserVarStringOrigin::Toml(span) = exec_start.origin else { panic!("expected a span") };
    assert_eq!(covered(src, span), "run");
    assert_eq!(*get("workers"), UserVar::Scalar(JsonScalar::Number(serde_json::Number::from(4))));
    assert_eq!(*get("debug"), UserVar::Scalar(JsonScalar::Bool(true)));
    assert!(matches!(get("names"), UserVar::List(items) if items.len() == 1));

    let caddyfile = config.caddyfile().unwrap();
    let TemplateOrigin::Inline(text) = &caddyfile.template.value.origin.value else { panic!("expected an inline template") };
    assert_eq!(text.value, "site");
    assert_eq!(covered(src, text.span), "site");
}

#[test]
fn loading_points_at_unexpected_keys() {
    let src = "[artifacts]\npath = \"a\"\ncolour = 1\n";
    let d = load_err(src);
    assert_eq!(d.message, "failed to parse vade config file");
    assert_eq!(label_messages(&d), vec!["unexpected key `colour`"]);
    assert_eq!(d.labels[0].span, span_of(src, "colour"));
}

#[test]
fn loading_reports_missing_and_mistyped_keys() {
    let src = "[caddyfile]\n\n[network]\nreserve-ports = \"many\"\n";
    let d = load_err(src);
    assert_eq!(label_messages(&d), vec!["expected u32, found string", "missing field 'template' in table"]);

    let d = load_err("[network]\nreserve-ports = 5000000000\n");
    assert_eq!(label_messages(&d), vec!["out of range of 'u32'"]);

    let d = load_err("artifacts = 3\n");
    assert_eq!(label_messages(&d), vec!["expected a table, found integer"]);
}

#[test]
fn loading_reports_every_conflicting_template_source() {
    let src = "[caddyfile.template]\nbuiltin = \"a\"\ninline = \"b\"\n";
    let d = load_err(src);
    assert_eq!(
        label_messages(&d),
        vec![
            "conflicting template source: set only one of `builtin`, `file`, or `inline`",
            "conflicting template source: set only one of `builtin`, `file`, or `inline`",
        ]
    );
    assert_eq!(covered(src, d.labels[0].span), "a");
    assert_eq!(covered(src, d.labels[1].span), "b");
}

#[test]
fn loading_reports_syntax_errors() {
    let d = load_err("[[systemd-unit\n");
    assert_eq!(d.message, "failed to parse vade config file");
    assert_eq!(d.labels.len(), 1);
}

#[test]
fn loading_validates_the_units() {
    let src = "[[systemd-unit]]\n[systemd-unit.template]\ninline = \"a\"\n\n[[systemd-unit]]\n[systemd-unit.template]\ninline = \"b\"\n";
    let d = load_err(src);
    assert_eq!(d.message, "invalid vade config file");
}

#[test]
fn test_load_two_units() {
    let src = r#"
[[systemd-unit]]
[systemd-unit.template]
inline = """
[Unit]
Description=Touches a file, demonstrating that the service ran to completion

[Service]
ExecStart=touch /tmp/a-new-file-is-born
"""

[[systemd-unit]]
file-extension = "timer"

[systemd-unit.template]
inline = """
[Timer]
# Fires right after the timer is activated (e.g. on boot or `systemctl start`)
OnActiveSec=0s
# Then repeat every hour relative to the last time the service was activated
OnUnitActiveSec=1h

[Install]
WantedBy=timers.target
"""
"#;

    let config = load(src).unwrap();
    assert!(config.artifacts().is_none());
    assert_eq!(config.systemd_units().len(), 2);
    assert!(config.caddyfile().is_none());

    let systemd_config = &config.systemd_units()[0].value;
    assert_eq!(systemd_config.filename("my-app"), "my-app.service");
    assert!(matches!(systemd_config.template.value.origin.value, TemplateOrigin::Inline(_)));
    assert_eq!(systemd_config.template.value.vars.value.len(), 0);

    let systemd_config = &config.systemd_units()[1].value;
    assert_eq!(systemd_config.filename("my-app"), "my-app.timer");
    assert!(matches!(systemd_config.template.value.origin.value, TemplateOrigin::Inline(_)));
    assert_eq!(systemd_config.template.value.vars.value.len(), 0);
}

// The single-unit configuration, written with the keys and inline tables that are accepted
#[test]
fn loads_a_single_unit_with_its_caddyfile() {
    let src = r#"
[artifacts]
path = "artifacts"

[[systemd-unit]]
[systemd-unit.template]
builtin = "webapp.service"
vars = { exec_start = "{{ vade.app.artifacts.active }}/goatcounter serve -listen :{{ port('main') }}" }

[caddyfile.template]
builtin = "reverse-proxy"
vars = { domains = ["goats.example.com"] }
"#;

    let config = load(src).unwrap();
    assert_eq!(config.artifacts().unwrap().path.value, "artifacts");
    assert_eq!(config.systemd_units().len(), 1);
    assert!(config.caddyfile().is_some());

    let systemd_config = &config.systemd_units()[0].value;
    assert_eq!(systemd_config.filename("my-app"), "my-app.service");
    assert_eq!(systemd_config.template.value.origin.value, TemplateOrigin::Builtin("webapp.service".to_string()));
    assert_eq!(systemd_config.template.value.vars.value.len(), 1);
    let (name, value) = &systemd_config.template.value.vars.value[0];
    assert_eq!(name, "exec_start");
    let UserVar::String(s) = value else { panic!("expected a string") };
    assert_eq!(s.value, "{{ vade.app.artifacts.active }}/goatcounter serve -listen :{{ port('main') }}");
    let UserVarStringOrigin::Toml(span) = s.origin else { panic!("expected a span") };
    assert_eq!(covered(src, span), s.value);

    let caddyfile_config = config.caddyfile().unwrap();
    assert_eq!(caddyfile_config.template.value.origin.value, TemplateOrigin::Builtin("reverse-proxy".to_string()));
    let (name, value) = &caddyfile_config.template.value.vars.value[0];
    assert_eq!(name, "domains");
    assert!(matches!(value, UserVar::List(items) if items.len() == 1));
}

#[test]
fn loading_bad_toml_points_at_the_syntax_error() {
    let src = "[[systemd-unit]\n[systemd-unit.template]\nbuiltin = \"webapp.service\"\n";
    let d = load_err(src);
    assert_eq!(d.message, "failed to parse vade config file");
    assert_eq!(label_messages(&d), vec!["expected a right bracket, found a newline"]);
    assert_eq!(d.labels[0].span.start, 15);
}

#[test]
fn loading_reports_multiple_issues_together() {
    let src = "[[systemd-unit]]\n[systemd-unit.template]\nbuiltin = \"webapp.service\"\ninline = \"oops, two sources\"\ntypo-key = 1\n";
    let d = load_err(src);
    assert_eq!(d.message, "failed to parse vade config file");
    assert_eq!(
        label_messages(&d),
        vec![
            "conflicting template source: set only one of `builtin`, `file`, or `inline`",
            "conflicting template source: set only one of `builtin`, `file`, or `inline`",
            "unexpected key `typo-key`",
        ]
    );
    assert_eq!(covered(src, d.labels[0].span), "webapp.service");
    assert_eq!(covered(src, d.labels[1].span), "oops, two sources");
    assert_eq!(d.labels[2].span, span_of(src, "typo-key"));
}

#[test]
fn non_finite_floats_stay_floats() {
    let src = "[caddyfile.template]\ninline = \"x\"\nvars = { a = nan, b = inf, c = 1.5 }\n";
    let config = load(src).unwrap();
    let vars = &config.caddyfile().unwrap().template.value.vars.value;
    let shown: Vec<String> = vars
        .iter()
        .map(|(_, v)| match v {
            UserVar::Scalar(JsonScalar::Float(x)) => x.to_string(),
            other => panic!("expected a float, got {other:?}"),
        })
        .collect();
    assert_eq!(shown, vec!["NaN", "inf", "1.5"]);
}
