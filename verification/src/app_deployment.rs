//! An application deployment: what `vade deploy` ships, after the configuration was loaded.

use vstd::prelude::*;
use crate::app_name::AppName;
use crate::cli::{OverrideScope, VarOverride};
use crate::config::{
    AppConfig, SystemdUnitConfig, TemplateAndUserVars, TemplateConfig, UserVarView, entries_view,
    load_template_spec, lookup, read_view,
};
use crate::templating::{BuiltinTemplateKind, BuiltinTemplates, MetaView, TomlSource, meta_view};
use crate::util::{RelativePathResolver, Spanned, diagnostic_with_help, join_path, single_label_view};
use crate::text::{decimal, format_decimal};
use crate::util::{Diagnostic, DiagnosticView, ResolvedPath, SourceView};

verus! {

/// What is deployed: the artifacts directory (if any), the Caddyfile template (if any), and the
/// systemd unit templates with their file names on the server.
pub struct AppDeployment {
    pub artifacts: Option<ResolvedPath>,
    pub caddyfile: Option<TemplateAndUserVars>,
    pub systemd_units: Vec<SystemdUnit>,
}

pub struct SystemdUnit {
    pub name: String,
    pub template: TemplateAndUserVars,
}

/// Whether an override targets a template that the deployment does not have.
pub open spec fn target_missing(scope: OverrideScope, has_caddyfile: bool, n_units: nat) -> bool {
    match scope {
        OverrideScope::Caddyfile => !has_caddyfile,
        OverrideScope::SystemdUnit(i) => i >= n_units,
    }
}

/// Whether override `k` is the first one whose target is missing.
pub open spec fn is_first_missing(overrides: Seq<VarOverride>, k: int, has_caddyfile: bool, n_units: nat) -> bool {
    &&& 0 <= k < overrides.len()
    &&& target_missing(overrides[k].scope, has_caddyfile, n_units)
    &&& forall|j: int| 0 <= j < k ==> !target_missing(#[trigger] overrides[j].scope, has_caddyfile, n_units)
}

/// The message of an override whose target is missing.
pub open spec fn missing_target_message(scope: OverrideScope, n_units: nat) -> Seq<char> {
    match scope {
        OverrideScope::Caddyfile =>
            "--set targets `caddyfile`, but the configuration does not have a `[caddyfile]` section"@,
        OverrideScope::SystemdUnit(i) => "--set targets `systemd-unit["@ + decimal(i as nat)
            + "]`, but the configuration does not have a systemd unit at that index (the total number of systemd units is "@
            + decimal(n_units) + ")"@,
    }
}

/// A diagnostic that is only a message.
pub open spec fn message_view(m: Seq<char>) -> DiagnosticView {
    DiagnosticView { message: m, labels: Seq::empty(), help: None, source: SourceView::NoSource }
}

/// The value that the last override of `key` in the template `scope` sets, if any does.
pub open spec fn last_override(overrides: Seq<VarOverride>, scope: OverrideScope, key: Seq<char>) -> Option<UserVarView>
    decreases overrides.len(),
{
    if overrides.len() == 0 {
        None
    } else if overrides.last().scope == scope && overrides.last().name@ == key {
        Some(overrides.last().value@)
    } else {
        last_override(overrides.drop_last(), scope, key)
    }
}

/// A variable after the overrides: what the last override of it sets, else what it was.
pub open spec fn overridden(before: Option<UserVarView>, overrides: Seq<VarOverride>, scope: OverrideScope, key: Seq<char>) -> Option<UserVarView> {
    match last_override(overrides, scope, key) {
        Some(v) => Some(v),
        None => before,
    }
}

/// `after` is `before` with the overrides of `scope` applied: the same source, and every
/// variable as [`overridden`] says.
pub open spec fn template_overridden(
    before: TemplateAndUserVars,
    after: TemplateAndUserVars,
    overrides: Seq<VarOverride>,
    scope: OverrideScope,
) -> bool {
    &&& after.source == before.source
    &&& forall|key: Seq<char>| #[trigger] after.user_vars.get_spec(key) == overridden(before.user_vars.get_spec(key), overrides, scope, key)
}

/// The Caddyfile and the systemd units after applying the overrides.
pub open spec fn all_overridden(
    caddyfile: Option<TemplateAndUserVars>,
    units: Seq<SystemdUnit>,
    caddyfile2: Option<TemplateAndUserVars>,
    units2: Seq<SystemdUnit>,
    overrides: Seq<VarOverride>,
) -> bool {
    &&& caddyfile2 is Some == caddyfile is Some
    &&& (caddyfile matches Some(c) ==> template_overridden(c, caddyfile2->0, overrides, OverrideScope::Caddyfile))
    &&& units2.len() == units.len()
    &&& forall|i: int| 0 <= i < units.len() ==> (#[trigger] units2[i]).name == units[i].name
        && template_overridden(units[i].template, units2[i].template, overrides, OverrideScope::SystemdUnit(i as usize))
}

fn missing_target_error(scope: OverrideScope, n_units: usize) -> (r: Diagnostic)
    ensures
        r@ == message_view(missing_target_message(scope, n_units as nat)),
{
    let message = match scope {
        OverrideScope::Caddyfile => String::from_str(
            "--set targets `caddyfile`, but the configuration does not have a `[caddyfile]` section",
        ),
        OverrideScope::SystemdUnit(i) => String::from_str("--set targets `systemd-unit[").concat(
            format_decimal(i).as_str(),
        ).concat(
            "]`, but the configuration does not have a systemd unit at that index (the total number of systemd units is ",
        ).concat(format_decimal(n_units).as_str()).concat(")"),
    };
    let r = Diagnostic::message_only(message);
    assert(r@.labels =~= Seq::<crate::util::LabelView>::empty());
    r
}

/// Applies the `--set` overrides, in order, to the variables of the templates they target. It
/// fails at the first override whose target the deployment does not have.
pub fn apply_overrides(
    overrides: &Vec<VarOverride>,
    caddyfile: Option<TemplateAndUserVars>,
    systemd_units: Vec<SystemdUnit>,
) -> (r: Result<(Option<TemplateAndUserVars>, Vec<SystemdUnit>), Diagnostic>)
    ensures
        r is Err <==> exists|k: int| 0 <= k < overrides@.len()
            && target_missing(#[trigger] overrides@[k].scope, caddyfile is Some, systemd_units@.len()),
        r matches Err(d) ==> exists|k: int| is_first_missing(overrides@, k, caddyfile is Some, systemd_units@.len())
            && d@ == message_view(missing_target_message(overrides@[k].scope, systemd_units@.len())),
        r matches Ok((c, us)) ==> all_overridden(caddyfile, systemd_units@, c, us@, overrides@),
{
    let ghost c0 = caddyfile;
    let ghost u0 = systemd_units@;
    let ghost has_c = caddyfile is Some;
    let n_units = systemd_units.len();
    let mut cfile = caddyfile;
    let mut units = systemd_units;
    let mut k: usize = 0;
    while k < overrides.len()
        invariant
            k <= overrides@.len(),
            n_units == u0.len(),
            has_c == c0 is Some,
            c0 == caddyfile,
            u0 == systemd_units@,
            forall|j: int| 0 <= j < k ==> !target_missing(#[trigger] overrides@[j].scope, has_c, n_units as nat),
            all_overridden(c0, u0, cfile, units@, overrides@.take(k as int)),
        decreases overrides@.len() - k,
    {
        let o = &overrides[k];
        let missing = match o.scope {
            OverrideScope::Caddyfile => cfile.is_none(),
            OverrideScope::SystemdUnit(i) => i >= units.len(),
        };
        if missing {
            let e = missing_target_error(o.scope, n_units);
            proof {
                assert(is_first_missing(overrides@, k as int, has_c, n_units as nat));
            }
            return Err(e);
        }
        let ghost before_u = units@;
        let ghost done = overrides@.take(k as int);
        let ghost next = overrides@.take(k + 1);
        proof {
            assert(next.drop_last() =~= done);
            assert(next.last() == overrides@[k as int]);
        }
        match o.scope {
            OverrideScope::Caddyfile => {
                if let Some(c) = &mut cfile {
                    c.user_vars.set(o.name.clone(), o.value.duplicate());
                }
            },
            OverrideScope::SystemdUnit(i) => {
                let mut unit = units.remove(i);
                unit.template.user_vars.set(o.name.clone(), o.value.duplicate());
                units.insert(i, unit);
            },
        }
        proof {
            assert forall|j: int| 0 <= j < u0.len() implies (#[trigger] units@[j]).name == u0[j].name
                && template_overridden(u0[j].template, units@[j].template, next, OverrideScope::SystemdUnit(j as usize)) by {
                assert(before_u[j].name == u0[j].name);
            }
        }
        k = k + 1;
    }
    proof {
        assert(overrides@.take(k as int) =~= overrides@);
    }
    Ok((cfile, units))
}

} // verus!

verus! {

/// What the caller found on disk for a configuration: whether the artifacts path is a
/// directory, and the outcome of reading each file template (see
/// [`TemplateConfig::file_to_read`]): the Caddyfile's, and each systemd unit's in order.
pub struct ReadOutcomes {
    pub artifacts_is_dir: bool,
    pub caddyfile: Option<Result<String, String>>,
    pub systemd_units: Vec<Option<Result<String, String>>>,
}

pub open spec fn toml_pair(t: &TomlSource) -> (Seq<char>, Seq<char>) {
    (t.path@, t.value@)
}

/// The error of an artifacts path that is not a directory once resolved to `resolved`.
pub open spec fn artifacts_error(span: crate::util::Span, resolved: Seq<char>, toml: (Seq<char>, Seq<char>)) -> DiagnosticView {
    single_label_view(
        "failed to locate artifacts"@,
        "the provided path does not exist or is not a directory"@,
        span,
        Some("the artifacts path resolved to `"@ + resolved + "`"@),
        SourceView::Named { name: toml.0, text: toml.1 },
    )
}

pub open spec fn load_spec(
    t: TemplateConfig,
    toml: (Seq<char>, Seq<char>),
    root: Seq<char>,
    kind: BuiltinTemplateKind,
    builtins: BuiltinTemplates,
    read: Option<Result<String, String>>,
) -> Result<(Seq<char>, MetaView, Seq<(Seq<char>, UserVarView)>), DiagnosticView> {
    load_template_spec(t.origin, entries_view(t.vars.value@), toml, root, kind, builtins, read_view(read))
}

/// The first systemd unit, from the `i`-th on, whose template fails to load, with its error.
pub open spec fn first_unit_error(
    units: Seq<Spanned<SystemdUnitConfig>>,
    reads: Seq<Option<Result<String, String>>>,
    toml: (Seq<char>, Seq<char>),
    root: Seq<char>,
    builtins: BuiltinTemplates,
    i: int,
) -> Option<DiagnosticView>
    decreases units.len() - i,
{
    if i < 0 || i >= units.len() {
        None
    } else {
        match load_spec(units[i].value.template.value, toml, root, BuiltinTemplateKind::SystemdUnit, builtins, reads[i]) {
            Err(d) => Some(d),
            Ok(_) => first_unit_error(units, reads, toml, root, builtins, i + 1),
        }
    }
}

/// Why a configuration cannot be deployed, if it cannot: its artifacts path is not a directory;
/// else its Caddyfile template fails to load; else one of its systemd unit templates does (the
/// first); else an override targets a template that is not there (the first such override).
pub open spec fn config_error(
    config: AppConfig,
    toml: (Seq<char>, Seq<char>),
    overrides: Seq<crate::cli::VarOverride>,
    root: Seq<char>,
    builtins: BuiltinTemplates,
    reads: ReadOutcomes,
) -> Option<DiagnosticView> {
    let n_units = config.systemd_units@.len();
    let has_caddyfile = config.caddyfile is Some;
    let caddy_error = match config.caddyfile {
        Some(c) => match load_spec(c.value.template.value, toml, root, BuiltinTemplateKind::Caddyfile, builtins, reads.caddyfile) {
            Err(d) => Some(d),
            Ok(_) => None,
        },
        None => None,
    };
    if config.artifacts is Some && !reads.artifacts_is_dir {
        let a = config.artifacts->0.value;
        Some(artifacts_error(a.path.span, join_path(root, a.path.value@), toml))
    } else if caddy_error is Some {
        caddy_error
    } else if first_unit_error(config.systemd_units@, reads.systemd_units@, toml, root, builtins, 0) is Some {
        first_unit_error(config.systemd_units@, reads.systemd_units@, toml, root, builtins, 0)
    } else if exists|k: int| 0 <= k < overrides.len() && target_missing(#[trigger] overrides[k].scope, has_caddyfile, n_units) {
        let k = choose|k: int| is_first_missing(overrides, k, has_caddyfile, n_units);
        Some(message_view(missing_target_message(overrides[k].scope, n_units)))
    } else {
        None
    }
}

/// `t` is the template loaded as `loaded` says, with the overrides of `scope` applied.
pub open spec fn loaded_and_overridden(
    t: TemplateAndUserVars,
    loaded: Result<(Seq<char>, MetaView, Seq<(Seq<char>, UserVarView)>), DiagnosticView>,
    overrides: Seq<crate::cli::VarOverride>,
    scope: OverrideScope,
) -> bool {
    &&& loaded matches Ok((value, meta, vars))
    &&& t.source.value@ == value
    &&& meta_view(t.source.meta) == meta
    &&& forall|key: Seq<char>| #[trigger] t.user_vars.get_spec(key) == overridden(lookup(vars, key), overrides, scope, key)
}

/// What a deployable configuration deploys: the resolved artifacts path; the loaded Caddyfile
/// template; each systemd unit under its file name, with its loaded template; the overrides
/// applied to the templates' variables.
pub open spec fn deployment_of(
    d: AppDeployment,
    app_name: Seq<char>,
    config: AppConfig,
    toml: (Seq<char>, Seq<char>),
    overrides: Seq<crate::cli::VarOverride>,
    root: Seq<char>,
    builtins: BuiltinTemplates,
    reads: ReadOutcomes,
) -> bool {
    &&& match config.artifacts {
        Some(a) => d.artifacts matches Some(p) && p@ == join_path(root, a.value.path.value@),
        None => d.artifacts is None,
    }
    &&& match config.caddyfile {
        Some(c) => d.caddyfile matches Some(t) && loaded_and_overridden(
            t,
            load_spec(c.value.template.value, toml, root, BuiltinTemplateKind::Caddyfile, builtins, reads.caddyfile),
            overrides,
            OverrideScope::Caddyfile,
        ),
        None => d.caddyfile is None,
    }
    &&& d.systemd_units@.len() == config.systemd_units@.len()
    &&& forall|i: int| 0 <= i < config.systemd_units@.len() ==> {
        &&& (#[trigger] d.systemd_units@[i]).name@ == config.systemd_units@[i].value.filename_spec(app_name)
        &&& loaded_and_overridden(
            d.systemd_units@[i].template,
            load_spec(config.systemd_units@[i].value.template.value, toml, root, BuiltinTemplateKind::SystemdUnit, builtins, reads.systemd_units@[i]),
            overrides,
            OverrideScope::SystemdUnit(i as usize),
        )
    }
}

} // verus!

verus! {

impl AppDeployment {
    /// Builds the deployment from a configuration: checks the artifacts path, loads the
    /// templates (built-in, from the files read in `reads`, or inline) and applies the `--set`
    /// overrides to their variables (see [`config_error`] and [`deployment_of`]).
    pub fn from_config(
        app_name: &AppName,
        config: AppConfig,
        config_source: &TomlSource,
        overrides: &Vec<VarOverride>,
        path_resolver: &RelativePathResolver,
        builtins: &BuiltinTemplates,
        reads: ReadOutcomes,
    ) -> (r: Result<AppDeployment, Diagnostic>)
        requires
            reads.systemd_units@.len() == config.systemd_units@.len(),
            config.caddyfile matches Some(c) && c.value.template.value.origin.value is File ==> reads.caddyfile is Some,
            forall|i: int| 0 <= i < config.systemd_units@.len()
                && (#[trigger] config.systemd_units@[i]).value.template.value.origin.value is File
                ==> reads.systemd_units@[i] is Some,
        ensures
            match config_error(config, toml_pair(config_source), overrides@, path_resolver@, *builtins, reads) {
                Some(d) => r matches Err(x) && x@ == d,
                None => r matches Ok(dep) && deployment_of(
                    dep,
                    app_name@,
                    config,
                    toml_pair(config_source),
                    overrides@,
                    path_resolver@,
                    *builtins,
                    reads,
                ),
            },
    {
        let ghost cfg = config;
        let ghost rd = reads;
        let ghost toml = toml_pair(config_source);
        let ghost root = path_resolver@;
        let AppConfig { artifacts, network: _, caddyfile, systemd_units } = config;
        let ReadOutcomes { artifacts_is_dir, caddyfile: caddyfile_read, systemd_units: unit_reads } = reads;
        let artifacts_dir = match &artifacts {
            Some(a) => {
                let resolved = path_resolver.resolve(a.value.path.value.as_str());
                if !artifacts_is_dir {
                    let help = String::from_str("the artifacts path resolved to `").concat(resolved.as_str()).concat("`");
                    return Err(diagnostic_with_help(
                        "failed to locate artifacts",
                        String::from_str("the provided path does not exist or is not a directory"),
                        help,
                        a.value.span(),
                        config_source.to_named_source(),
                    ));
                }
                Some(resolved)
            },
            None => None,
        };
        let caddyfile_loaded = match caddyfile {
            Some(c) => match c.value.template.value.load_template_source(
                config_source,
                path_resolver,
                BuiltinTemplateKind::Caddyfile,
                builtins,
                caddyfile_read,
            ) {
                Ok(t) => Some(t),
                Err(d) => {
                    return Err(d);
                },
            },
            None => None,
        };
        let ghost n = cfg.systemd_units@.len();
        let ghost unit_cfgs = cfg.systemd_units@;
        let mut units_left = systemd_units;
        let mut reads_left = unit_reads;
        let mut loaded: Vec<SystemdUnit> = Vec::new();
        let ghost mut i: int = 0;
        while units_left.len() > 0
            invariant
                0 <= i <= n,
                n == unit_cfgs.len(),
                n == rd.systemd_units@.len(),
                unit_cfgs == cfg.systemd_units@,
                units_left@ == unit_cfgs.subrange(i, n as int),
                reads_left@ == rd.systemd_units@.subrange(i, n as int),
                loaded@.len() == i,
                first_unit_error(unit_cfgs, rd.systemd_units@, toml, root, *builtins, 0)
                    == first_unit_error(unit_cfgs, rd.systemd_units@, toml, root, *builtins, i),
                toml == toml_pair(config_source),
                root == path_resolver@,
                cfg == config,
                rd == reads,
                !(cfg.artifacts is Some && !rd.artifacts_is_dir),
                forall|j: int| 0 <= j < n && (#[trigger] unit_cfgs[j]).value.template.value.origin.value is File
                    ==> rd.systemd_units@[j] is Some,
                match cfg.caddyfile {
                    Some(c) => load_spec(c.value.template.value, toml, root, BuiltinTemplateKind::Caddyfile, *builtins, rd.caddyfile) is Ok,
                    None => true,
                },
                forall|j: int| 0 <= j < i ==> {
                    &&& (#[trigger] loaded@[j]).name@ == unit_cfgs[j].value.filename_spec(app_name@)
                    &&& load_spec(unit_cfgs[j].value.template.value, toml, root, BuiltinTemplateKind::SystemdUnit, *builtins, rd.systemd_units@[j])
                        == Ok::<_, DiagnosticView>(crate::config::loaded_template(loaded@[j].template))
                },
            decreases units_left@.len(),
        {
            let u = units_left.remove(0);
            let unit_read = reads_left.remove(0);
            proof {
                assert(u == unit_cfgs[i]);
                assert(unit_read == rd.systemd_units@[i]);
            }
            let name = u.value.filename(app_name.as_str());
            match u.value.template.value.load_template_source(
                config_source,
                path_resolver,
                BuiltinTemplateKind::SystemdUnit,
                builtins,
                unit_read,
            ) {
                Ok(t) => {
                    loaded.push(SystemdUnit { name, template: t });
                },
                Err(d) => {
                    proof {
                        assert(load_spec(unit_cfgs[i].value.template.value, toml, root, BuiltinTemplateKind::SystemdUnit, *builtins, rd.systemd_units@[i])
                            == Err::<(Seq<char>, MetaView, Seq<(Seq<char>, UserVarView)>), DiagnosticView>(d@));
                        assert(first_unit_error(unit_cfgs, rd.systemd_units@, toml, root, *builtins, i) == Some(d@));
                    }
                    return Err(d);
                },
            }
            proof {
                assert(units_left@ =~= unit_cfgs.subrange(i + 1, n as int));
                assert(reads_left@ =~= rd.systemd_units@.subrange(i + 1, n as int));
                i = i + 1;
            }
        }
        let ghost caddy_before = caddyfile_loaded;
        let ghost units_before = loaded@;
        match apply_overrides(overrides, caddyfile_loaded, loaded) {
            Ok((caddyfile_final, units_final)) => {
                let r = AppDeployment { artifacts: artifacts_dir, caddyfile: caddyfile_final, systemd_units: units_final };
                proof {
                    assert forall|j: int| 0 <= j < n implies (#[trigger] r.systemd_units@[j]).name@
                        == unit_cfgs[j].value.filename_spec(app_name@) by {
                        assert(units_before[j].name == r.systemd_units@[j].name);
                    }
                }
                Ok(r)
            },
            Err(d) => Err(d),
        }
    }
}

} // verus!

verus! {

/// Whether override `m` sets the variable `key` of the template `scope`.
pub open spec fn sets_var(overrides: Seq<VarOverride>, m: int, scope: OverrideScope, key: Seq<char>) -> bool {
    overrides[m].scope == scope && overrides[m].name@ == key
}

/// Override `m` is the last that sets the variable `key` of the template `scope`.
pub open spec fn is_last_setter(overrides: Seq<VarOverride>, m: int, scope: OverrideScope, key: Seq<char>) -> bool {
    &&& 0 <= m < overrides.len()
    &&& sets_var(overrides, m, scope, key)
    &&& forall|l: int| m < l < overrides.len() ==> !#[trigger] sets_var(overrides, l, scope, key)
}

/// The value of the variable `key` of the template `scope` after the overrides is the value of
/// the last override that sets it; when none does, the overrides set nothing there.
pub proof fn lemma_last_setter_wins(overrides: Seq<VarOverride>, scope: OverrideScope, key: Seq<char>)
    ensures
        last_override(overrides, scope, key) is None <==> forall|m: int|
            0 <= m < overrides.len() ==> !#[trigger] sets_var(overrides, m, scope, key),
        forall|m: int| #[trigger] is_last_setter(overrides, m, scope, key)
            ==> last_override(overrides, scope, key) == Some(overrides[m].value@),
    decreases overrides.len(),
{
    if overrides.len() > 0 {
        let init = overrides.drop_last();
        let n = overrides.len() - 1;
        lemma_last_setter_wins(init, scope, key);
        assert forall|m: int| 0 <= m < init.len() implies #[trigger] sets_var(init, m, scope, key) == sets_var(
            overrides,
            m,
            scope,
            key,
        ) by {
            assert(init[m] == overrides[m]);
        }
        if sets_var(overrides, n, scope, key) {
            assert forall|m: int| #[trigger] is_last_setter(overrides, m, scope, key) implies m == n by {
                if m < n {
                    assert(!sets_var(overrides, n, scope, key));
                }
            }
        } else {
            assert forall|m: int| #[trigger] is_last_setter(overrides, m, scope, key) implies is_last_setter(init, m, scope, key) by {
                assert(m != n);
                assert forall|l: int| m < l < init.len() implies !#[trigger] sets_var(init, l, scope, key) by {
                    assert(!sets_var(overrides, l, scope, key));
                }
            }
            if last_override(overrides, scope, key) is None {
                assert forall|m: int| 0 <= m < overrides.len() implies !#[trigger] sets_var(overrides, m, scope, key) by {
                    if m < n {
                        assert(!sets_var(init, m, scope, key));
                    }
                }
            }
        }
    }
}

/// After applying overrides, the variable `key` of systemd unit `j` holds what the last
/// override that sets `key` in that unit gives it, and is as it was when no override sets it
/// there; the same holds of the Caddyfile.
pub proof fn lemma_overrides_land_on_their_target(
    caddyfile: Option<TemplateAndUserVars>,
    units: Seq<SystemdUnit>,
    caddyfile2: Option<TemplateAndUserVars>,
    units2: Seq<SystemdUnit>,
    overrides: Seq<VarOverride>,
    j: int,
    key: Seq<char>,
)
    requires
        all_overridden(caddyfile, units, caddyfile2, units2, overrides),
        0 <= j < units.len(),
    ensures
        (forall|m: int| 0 <= m < overrides.len() ==> !#[trigger] sets_var(overrides, m, OverrideScope::SystemdUnit(j as usize), key))
            ==> units2[j].template.user_vars.get_spec(key) == units[j].template.user_vars.get_spec(key),
        forall|m: int| #[trigger] is_last_setter(overrides, m, OverrideScope::SystemdUnit(j as usize), key)
            ==> units2[j].template.user_vars.get_spec(key) == Some(overrides[m].value@),
        caddyfile matches Some(c) ==> (forall|m: int| 0 <= m < overrides.len() ==> !#[trigger] sets_var(overrides, m, OverrideScope::Caddyfile, key))
            ==> caddyfile2->0.user_vars.get_spec(key) == c.user_vars.get_spec(key),
        caddyfile is Some ==> forall|m: int| #[trigger] is_last_setter(overrides, m, OverrideScope::Caddyfile, key)
            ==> caddyfile2->0.user_vars.get_spec(key) == Some(overrides[m].value@),
{
    lemma_last_setter_wins(overrides, OverrideScope::SystemdUnit(j as usize), key);
    lemma_last_setter_wins(overrides, OverrideScope::Caddyfile, key);
    assert(units2[j].name == units[j].name);
}

/// A single `--set systemd-unit[i].vars.KEY=VALUE` with `i` below the number of units gives
/// unit `i` that value for `KEY`, leaves its other variables as they were, and leaves every
/// variable of every other unit, and of the Caddyfile, as it was.
pub proof fn lemma_unit_override_targets_one_unit(
    caddyfile: Option<TemplateAndUserVars>,
    units: Seq<SystemdUnit>,
    caddyfile2: Option<TemplateAndUserVars>,
    units2: Seq<SystemdUnit>,
    o: VarOverride,
    i: int,
)
    requires
        all_overridden(caddyfile, units, caddyfile2, units2, seq![o]),
        units.len() <= usize::MAX,
        0 <= i < units.len(),
        o.scope == OverrideScope::SystemdUnit(i as usize),
    ensures
        units2[i].template.user_vars.get_spec(o.name@) == Some(o.value@),
        forall|key: Seq<char>| key != o.name@ ==> #[trigger] units2[i].template.user_vars.get_spec(key)
            == units[i].template.user_vars.get_spec(key),
        forall|j: int, key: Seq<char>| 0 <= j < units.len() && j != i ==> #[trigger] units2[j].template.user_vars.get_spec(key)
            == units[j].template.user_vars.get_spec(key),
        caddyfile matches Some(c) ==> forall|key: Seq<char>| #[trigger] caddyfile2->0.user_vars.get_spec(key)
            == c.user_vars.get_spec(key),
{
    let os = seq![o];
    assert(is_last_setter(os, 0, OverrideScope::SystemdUnit(i as usize), o.name@));
    lemma_overrides_land_on_their_target(caddyfile, units, caddyfile2, units2, os, i, o.name@);
    assert forall|key: Seq<char>| key != o.name@ implies #[trigger] units2[i].template.user_vars.get_spec(key)
        == units[i].template.user_vars.get_spec(key) by {
        lemma_overrides_land_on_their_target(caddyfile, units, caddyfile2, units2, os, i, key);
        assert(!sets_var(os, 0, OverrideScope::SystemdUnit(i as usize), key));
    }
    assert forall|j: int, key: Seq<char>| 0 <= j < units.len() && j != i implies #[trigger] units2[j].template.user_vars.get_spec(key)
        == units[j].template.user_vars.get_spec(key) by {
        lemma_overrides_land_on_their_target(caddyfile, units, caddyfile2, units2, os, j, key);
        assert(OverrideScope::SystemdUnit(j as usize) != OverrideScope::SystemdUnit(i as usize));
        assert(!sets_var(os, 0, OverrideScope::SystemdUnit(j as usize), key));
    }
    if caddyfile is Some {
        assert forall|key: Seq<char>| #[trigger] caddyfile2->0.user_vars.get_spec(key)
            == caddyfile->0.user_vars.get_spec(key) by {
            lemma_overrides_land_on_their_target(caddyfile, units, caddyfile2, units2, os, i, key);
            assert(!sets_var(os, 0, OverrideScope::Caddyfile, key));
        }
    }
}

} // verus!
