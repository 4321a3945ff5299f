//! `vade deploy`: the rendered templates of an app and the pyinfra deploy that ships them.

use vstd::prelude::*;
use crate::app_deployment::{AppDeployment, SystemdUnit};
use crate::app_name::AppName;
use crate::commands::{OutputFile, file_names};
use crate::config::{TemplateAndUserVars, UserVarView, some_string_fails, strings_rendered, user_var_ctx};
use crate::engine::{EngineEnvView, engine_env_view, engine_render_result};
use crate::templating::{BuiltinTemplateKind, BuiltinTemplates, MetaView, TomlSource, meta_view};
use crate::templating::base::{base_context, base_minijinja_context, unit_names};
use crate::templating::context::{CtxValue, CtxView, with_vars};
use crate::templating::render::{
    base_env_error, base_env_view, base_minijinja_env, internal_error_root, lemma_env_error_message,
    lemma_report_message, render_internal, render_user_template, user_string_root,
};
use crate::util::Diagnostic;

verus! {

/// A deployment of an app.
pub struct Deploy {
    pub app_name: AppName,
    pub app_deployment: AppDeployment,
    /// The (absolute) directory where the pyinfra deploy and related files are generated
    pub out_dir: String,
}

/// The files that a deployment writes: each systemd unit under its name, then the `Caddyfile`
/// if there is one, then `execute.py`.
pub open spec fn deploy_file_names(d: AppDeployment) -> Seq<Seq<char>> {
    unit_names(d) + (if d.caddyfile is Some { seq!["Caddyfile"@] } else { Seq::empty() }) + seq!["execute.py"@]
}

pub open spec fn unit_render_root() -> Seq<char> {
    "failed to render jinja2 template for systemd unit"@
}

pub open spec fn caddyfile_render_root() -> Seq<char> {
    "failed to render jinja2 template for Caddyfile"@
}

/// The headlines under which a deployment can fail.
pub open spec fn is_deploy_error(m: Seq<char>) -> bool {
    m == user_string_root() || m == unit_render_root() || m == caddyfile_render_root() || m == internal_error_root()
}

/// `after` is `before` with every string rendered in `env` with the context `ctx` (see
/// [`strings_rendered`]), variable by variable.
pub open spec fn vars_rendered(
    before: Seq<(Seq<char>, UserVarView)>,
    after: Seq<(Seq<char>, UserVarView)>,
    env: EngineEnvView,
    ctx: CtxView,
) -> bool {
    &&& after.len() == before.len()
    &&& forall|i: int| 0 <= i < before.len() ==> (#[trigger] after[i]).0 == before[i].0
        && strings_rendered(before[i].1, after[i].1, env, ctx)
}

/// What templates see under `vars`: the map of the variables.
pub open spec fn vars_ctx(vars: Seq<(Seq<char>, UserVarView)>) -> CtxView {
    CtxView::Object(vars.map_values(|e: (Seq<char>, UserVarView)| (e.0, user_var_ctx(e.1))))
}

/// The context a template of the deployment is rendered with: its variables under `vars`,
/// then the base variables.
pub open spec fn template_context(vars: Seq<(Seq<char>, UserVarView)>, base: CtxView) -> CtxView {
    CtxView::Object(seq![("vars"@, vars_ctx(vars))] + base->Object_0)
}

/// `text` is what a template of the deployment renders to in `env`: its user-provided strings
/// rendered with the base context `base`, then the template rendered with those variables and
/// the base variables (see [`template_context`]).
pub open spec fn template_rendered(text: Seq<char>, template: TemplateAndUserVars, base: CtxView, env: EngineEnvView) -> bool {
    exists|vars: Seq<(Seq<char>, UserVarView)>|
        #[trigger] vars_rendered(template.user_vars@, vars, env, base)
            && engine_render_result(env, template.source.value@, template_context(vars, base))
            == Ok::<Seq<char>, minijinja::Error>(text)
}

/// A template of the deployment renders in `env` with the base context `base`: every
/// user-provided string of it renders, and so does the template with the variables rendered.
pub open spec fn template_renders(template: TemplateAndUserVars, base: CtxView, env: EngineEnvView) -> bool {
    &&& forall|i: int| 0 <= i < template.user_vars@.len()
        ==> !some_string_fails(#[trigger] template.user_vars@[i].1, env, base)
    &&& forall|vars: Seq<(Seq<char>, UserVarView)>| #[trigger] vars_rendered(template.user_vars@, vars, env, base)
        ==> engine_render_result(env, template.source.value@, template_context(vars, base)) is Ok
}

/// Renders one template of the deployment: first its user-provided strings (with the base
/// context), then the template itself with its variables under `vars`.
fn render_template(
    env: &minijinja::Environment<'static>,
    base: &CtxValue,
    toml_config: &TomlSource,
    template: TemplateAndUserVars,
    error_msg: &str,
) -> (r: Result<String, Diagnostic>)
    requires
        base@ is Object,
        crate::engine::engine_standard(*env),
    ensures
        r matches Ok(s) ==> template_rendered(s@, template, base@, engine_env_view(*env)),
        template_renders(template, base@, engine_env_view(*env)) ==> r is Ok,
        r matches Err(d) ==> d@.message == user_string_root() || d@.message == error_msg@,
{
    let ghost t0 = template;
    let ghost ev = engine_env_view(*env);
    let TemplateAndUserVars { source, user_vars } = template;
    let user_vars = match user_vars.render_strings(env, base, toml_config) {
        Ok(v) => v,
        Err(d) => return Err(d),
    };
    let ghost vars = user_vars@;
    let ctx = with_vars(base.duplicate(), user_vars.into_minijinja());
    assert(ctx@ == template_context(vars, base@));
    match render_user_template(env, &ctx, toml_config, &source, error_msg) {
        Ok(s) => {
            proof {
                assert(vars_rendered(t0.user_vars@, vars, ev, base@));
            }
            Ok(s)
        },
        Err(d) => {
            proof {
                assert(vars_rendered(t0.user_vars@, vars, ev, base@));
                lemma_report_message(d@, error_msg@, Some((toml_config.path@, toml_config.value@)), source.value@, meta_view(source.meta));
            }
            Err(d)
        },
    }
}

/// The files of a deployment hold what its templates render to with the base context `c`:
/// each systemd unit its template, then the Caddyfile its template if there is one, and
/// `execute.py` the deploy.
pub open spec fn deploy_contents(files: Seq<OutputFile>, d: AppDeployment, b: BuiltinTemplates, c: CtxView) -> bool {
    let env = base_env_view(b);
    let units = d.systemd_units@;
    &&& forall|i: int| 0 <= i < units.len()
        ==> template_rendered(files[i].contents@, (#[trigger] units[i]).template, c, env)
    &&& d.caddyfile matches Some(t) ==> template_rendered(files[units.len() as int].contents@, t, c, env)
    &&& engine_render_result(env, b.deploy@, c) == Ok::<Seq<char>, minijinja::Error>(files.last().contents@)
}

/// Every template of the deployment renders with the base context `c`: the systemd units, the
/// Caddyfile if there is one, and the deploy.
pub open spec fn deploy_renders(d: AppDeployment, b: BuiltinTemplates, c: CtxView) -> bool {
    let env = base_env_view(b);
    &&& forall|i: int| 0 <= i < d.systemd_units@.len() ==> template_renders((#[trigger] d.systemd_units@[i]).template, c, env)
    &&& d.caddyfile matches Some(t) ==> template_renders(t, c, env)
    &&& engine_render_result(env, b.deploy@, c) is Ok
}

/// `r` is the outcome of deploying `app` as `d` into `out_dir` with the built-in templates `b`:
/// on success the files of [`deploy_file_names`], holding what the templates render to with the
/// base variables (see [`base_context`] and [`deploy_contents`]); success whenever the building
/// blocks compile and every template renders; errors under the headlines of
/// [`is_deploy_error`].
pub open spec fn deploy_outcome(
    r: Result<Vec<OutputFile>, Diagnostic>,
    out_dir: Seq<char>,
    app: Seq<char>,
    d: AppDeployment,
    b: BuiltinTemplates,
) -> bool {
    let c = base_context(out_dir, Some(app), Some(&d));
    &&& r matches Ok(files) ==> file_names(files@) == deploy_file_names(d) && base_env_error(b) is None
        && deploy_contents(files@, d, b, c)
    &&& (base_env_error(b) is None && deploy_renders(d, b, c)) ==> r is Ok
    &&& r matches Err(e) ==> is_deploy_error(e@.message)
}

impl Deploy {
    /// The files of `vade deploy` (see [`deploy_outcome`]): the systemd units and the
    /// Caddyfile rendered with their variables, and the deploy that ships them.
    pub fn execute(self, toml_config: &TomlSource, builtins: &BuiltinTemplates) -> (r: Result<Vec<OutputFile>, Diagnostic>)
        ensures
            deploy_outcome(r, self.out_dir@, self.app_name@, self.app_deployment, *builtins),
    {
        let ghost d0 = self.app_deployment;
        let ghost bc = base_context(self.out_dir@, Some(self.app_name@), Some(&self.app_deployment));
        let ghost names = deploy_file_names(self.app_deployment);
        let ghost units0 = unit_names(self.app_deployment);
        let Deploy { app_name, app_deployment, out_dir } = self;
        let base = base_minijinja_context(out_dir.as_str(), Some(&app_name), Some(&app_deployment));
        let ghost c = base@;
        let env = match base_minijinja_env(builtins) {
            Ok(env) => env,
            Err(d) => {
                proof {
                    lemma_env_error_message(d@, *builtins);
                }
                return Err(d);
            },
        };
        let ghost ev = engine_env_view(env);
        assert(ev == base_env_view(*builtins));
        let ghost owed = deploy_renders(d0, *builtins, c);
        let AppDeployment { artifacts: _, caddyfile, systemd_units } = app_deployment;
        let ghost all_units = systemd_units@;
        let mut files: Vec<OutputFile> = Vec::new();
        let mut units = systemd_units;
        let ghost mut i: int = 0;
        while units.len() > 0
            invariant
                c is Object,
                c == base@,
                crate::engine::engine_standard(env),
                ev == engine_env_view(env),
                ev == base_env_view(*builtins),
                all_units == d0.systemd_units@,
                owed ==> deploy_renders(d0, *builtins, c),
                owed == deploy_renders(d0, *builtins, c),
                d0 == self.app_deployment,
                c == bc,
                bc == base_context(self.out_dir@, Some(self.app_name@), Some(&self.app_deployment)),
                0 <= i <= all_units.len(),
                units0.len() == all_units.len(),
                forall|k: int| 0 <= k < all_units.len() ==> #[trigger] units0[k] == all_units[k].name@,
                units@ == all_units.subrange(i, all_units.len() as int),
                file_names(files@) == units0.subrange(0, i),
                forall|k: int| 0 <= k < i ==> template_rendered(files@[k].contents@, (#[trigger] all_units[k]).template, c, ev),
            decreases units@.len(),
        {
            let unit = units.remove(0);
            proof {
                assert(unit == all_units[i]);
            }
            let SystemdUnit { name, template } = unit;
            let contents = match render_template(&env, &base, toml_config, template, "failed to render jinja2 template for systemd unit") {
                Ok(s) => s,
                Err(d) => {
                    proof {
                        if owed {
                            assert(template_renders(all_units[i].template, c, ev));
                        }
                    }
                    return Err(d);
                },
            };
            let ghost before = files@;
            let ghost unit_name = name@;
            files.push(OutputFile { name, contents });
            proof {
                assert(unit_name == units0[i]);
                assert(file_names(files@) =~= file_names(before).push(unit_name));
                assert(units@ =~= all_units.subrange(i + 1, all_units.len() as int));
                assert(file_names(files@) =~= units0.subrange(0, i + 1));
                assert forall|k: int| 0 <= k < i + 1 implies template_rendered(files@[k].contents@, (#[trigger] all_units[k]).template, c, ev) by {
                    if k < i {
                        assert(files@[k] == before[k]);
                    }
                }
                i = i + 1;
            }
        }
        assert(units0.subrange(0, i) =~= units0);
        let ghost n_units = files@.len();
        let has_caddyfile = caddyfile.is_some();
        let ghost caddy0 = caddyfile;
        if let Some(caddyfile) = caddyfile {
            let contents = match render_template(&env, &base, toml_config, caddyfile, "failed to render jinja2 template for Caddyfile") {
                Ok(s) => s,
                Err(d) => return Err(d),
            };
            let ghost before = files@;
            files.push(OutputFile { name: String::from_str("Caddyfile"), contents });
            assert(file_names(files@) =~= file_names(before).push("Caddyfile"@));
            assert(forall|k: int| 0 <= k < n_units ==> files@[k] == before[k]);
        }
        assert(file_names(files@) =~= units0 + (if has_caddyfile { seq!["Caddyfile"@] } else { Seq::empty() }));
        match render_internal(&env, &base, "deploy.py.j2", builtins.deploy.as_str()) {
            Ok(contents) => {
                let ghost before = files@;
                files.push(OutputFile { name: String::from_str("execute.py"), contents });
                proof {
                    assert(file_names(files@) =~= file_names(before).push("execute.py"@));
                    assert(file_names(files@) =~= names);
                    assert(forall|k: int| 0 <= k < before.len() ==> files@[k] == before[k]);
                    assert(units0.len() == n_units);
                    assert(deploy_contents(files@, d0, *builtins, c));
                }
                Ok(files)
            },
            Err(d) => {
                proof {
                    lemma_report_message(
                        d@,
                        internal_error_root(),
                        None,
                        builtins.deploy@,
                        MetaView::Builtin { id: "deploy.py.j2"@, kind: BuiltinTemplateKind::Internal },
                    );
                }
                Err(d)
            },
        }
    }
}

} // verus!

verus! {

/// A successful deployment writes one file per systemd unit, in the units' order, each named
/// by its unit's file name and holding what that unit's template renders to; then `Caddyfile`,
/// holding what its template renders to, when there is one; and last `execute.py`, holding the
/// rendered deploy. It writes nothing else: the number of files is the number of units, plus
/// one for a Caddyfile, plus one.
pub proof fn lemma_deploy_writes_every_unit(
    r: Result<Vec<OutputFile>, Diagnostic>,
    out_dir: Seq<char>,
    app: Seq<char>,
    d: AppDeployment,
    b: BuiltinTemplates,
)
    requires
        deploy_outcome(r, out_dir, app, d, b),
    ensures
        r matches Ok(files) ==> files@.len() == d.systemd_units@.len() + (if d.caddyfile is Some { 1int } else { 0int }) + 1,
        r matches Ok(files) ==> forall|i: int| 0 <= i < d.systemd_units@.len() ==> (#[trigger] files@[i]).name@
            == d.systemd_units@[i].name@ && template_rendered(
            files@[i].contents@,
            d.systemd_units@[i].template,
            base_context(out_dir, Some(app), Some(&d)),
            base_env_view(b),
        ),
        r matches Ok(files) ==> (d.caddyfile matches Some(t) ==> files@[d.systemd_units@.len() as int].name@ == "Caddyfile"@
            && template_rendered(
            files@[d.systemd_units@.len() as int].contents@,
            t,
            base_context(out_dir, Some(app), Some(&d)),
            base_env_view(b),
        )),
        r matches Ok(files) ==> files@.last().name@ == "execute.py"@ && engine_render_result(
            base_env_view(b),
            b.deploy@,
            base_context(out_dir, Some(app), Some(&d)),
        ) == Ok::<Seq<char>, minijinja::Error>(files@.last().contents@),
{
    if let Ok(files) = r {
        let names = file_names(files@);
        let n = d.systemd_units@.len();
        assert(names.len() == files@.len());
        assert(names == deploy_file_names(d));
        assert forall|i: int| 0 <= i < n implies (#[trigger] files@[i]).name@ == d.systemd_units@[i].name@ by {
            assert(names[i] == files@[i].name@);
            assert(deploy_file_names(d)[i] == unit_names(d)[i]);
        }
        if d.caddyfile is Some {
            assert(names[n as int] == files@[n as int].name@);
            assert(deploy_file_names(d)[n as int] == "Caddyfile"@);
        }
        assert(names[names.len() - 1] == files@.last().name@);
        assert(deploy_file_names(d)[names.len() - 1] == "execute.py"@);
    }
}

} // verus!
