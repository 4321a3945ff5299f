//! Rendering templates with the engine, and what the library registers in it.

use vstd::prelude::*;
use crate::config::{UserVarString, UserVarStringOrigin};
use crate::engine::{
    engine_add_template_result, engine_error_detail_of, engine_error_kind_of, engine_error_range_of,
    engine_kind_class_of, engine_kind_text_of, engine_render_result, engine_templates, engine_standard,
    engine_env_view, EngineEnvView,
    engine_add_dirname_filter, engine_add_port_function, engine_add_template, engine_custom_error,
    engine_env_new, engine_error_detail, engine_error_kind, engine_error_range, engine_kind_class,
    engine_kind_text, engine_render_str, engine_set_debug, engine_set_strict_undefined,
};
use crate::templating::context::CtxValue;
use crate::templating::{
    BuiltinTemplateKind, BuiltinTemplates, MetaView, TemplateError, TemplateSource,
    TomlSource, cli_hint, meta_view, template_error_report,
    template_error_to_report, toml_view,
};
use crate::util::{Diagnostic, DiagnosticView, opt_view, path_parent, path_parent_result};

verus! {

/// The `dirname` filter: the parent of a path, or an error when it has none.
pub fn dirname_filter(path: &str) -> (r: Result<String, minijinja::Error>)
    ensures
        match path_parent_result(path@) {
            Some(p) => r matches Ok(s) && s@ == p,
            None => r is Err,
        },
{
    match path_parent(path) {
        Some(p) => Ok(p),
        None => Err(engine_custom_error("path did not have a parent")),
    }
}

/// What the `port` function gives for a port name: an expression that the port-assignment
/// script later replaces with the port's number.
pub open spec fn port_expression(name: Seq<char>) -> Seq<char> {
    "{{ port(\""@ + name + "\") }}"@
}

/// The `port` function. Port names may not contain `"`.
pub fn port_function(name: &str) -> (r: Result<String, minijinja::Error>)
    ensures
        r is Ok <==> !name@.contains('"'),
        r matches Ok(s) ==> s@ == port_expression(name@),
{
    let n = name.unicode_len();
    let mut i: usize = 0;
    while i < n
        invariant
            n == name@.len(),
            i <= n,
            forall|j: int| 0 <= j < i ==> name@[j] != '"',
        decreases n - i,
    {
        if name.get_char(i) == '"' {
            return Err(engine_custom_error("port names may not contain the `\"` character "));
        }
        i = i + 1;
    }
    Ok(String::from_str("{{ port(\"").concat(name).concat("\") }}"))
}

/// `te` is the engine error `e` as plain values: its kind (as the library tells kinds apart),
/// the kind's text, its detail and its range.
pub open spec fn error_matches(te: TemplateError, e: minijinja::Error) -> bool {
    let k = engine_error_kind_of(e);
    &&& te.kind == engine_kind_class_of(k)
    &&& te.kind_description@ == engine_kind_text_of(k)
    &&& opt_view(te.detail) == engine_error_detail_of(e)
    &&& te.range == engine_error_range_of(e)
}

/// An engine error as plain values.
fn template_error_of(e: &minijinja::Error) -> (r: TemplateError)
    ensures
        error_matches(r, *e),
{
    let k = engine_error_kind(e);
    TemplateError {
        kind: engine_kind_class(k),
        kind_description: engine_kind_text(k),
        detail: engine_error_detail(e),
        range: engine_error_range(e),
    }
}

} // verus!

verus! {

/// Whether `d` reports some engine error on the template `value` from `meta`, under the
/// headline `root` (see [`template_error_report`]).
pub open spec fn is_template_error_report(
    d: DiagnosticView,
    root: Seq<char>,
    toml: Option<(Seq<char>, Seq<char>)>,
    value: Seq<char>,
    meta: MetaView,
) -> bool {
    exists|e: TemplateError| d == #[trigger] template_error_report(e, root, toml, value, meta)
}

/// The headline of an error in one of vade's own templates.
pub open spec fn internal_error_root() -> Seq<char> {
    "failed to render internal template (this is a bug)"@
}

/// Whether `d` reports the engine error `e` on the template `value` from `meta`, under the
/// headline `root` (see [`template_error_report`]).
pub open spec fn is_error_report(
    d: DiagnosticView,
    e: minijinja::Error,
    root: Seq<char>,
    toml: Option<(Seq<char>, Seq<char>)>,
    value: Seq<char>,
    meta: MetaView,
) -> bool {
    exists|te: TemplateError| error_matches(te, e) && d == #[trigger] template_error_report(te, root, toml, value, meta)
}

pub open spec fn internal_meta(id: Seq<char>) -> MetaView {
    MetaView::Builtin { id, kind: BuiltinTemplateKind::Internal }
}

/// Whether `d` reports an error in the internal template `id` with text `text`.
pub open spec fn is_internal_error(d: DiagnosticView, id: Seq<char>, text: Seq<char>) -> bool {
    is_template_error_report(d, internal_error_root(), None, text, MetaView::Builtin { id, kind: BuiltinTemplateKind::Internal })
}

/// Reports an engine error raised by one of vade's own templates.
fn internal_error(e: &minijinja::Error, id: &str, text: &str) -> (r: Diagnostic)
    ensures
        is_internal_error(r@, id@, text@),
        is_error_report(r@, *e, internal_error_root(), None, text@, internal_meta(id@)),
{
    let te = template_error_of(e);
    let src = TemplateSource::builtin(String::from_str(id), BuiltinTemplateKind::Internal, String::from_str(text));
    let r = template_error_to_report(&te, "failed to render internal template (this is a bug)", None, &src);
    assert(r@ == template_error_report(te, internal_error_root(), None, text@, meta_view(src.meta)));
    r
}

fn add_internal_template(env: &mut minijinja::Environment<'static>, id: &str, text: &str) -> (r: Result<(), Diagnostic>)
    requires
        engine_standard(*old(env)),
    ensures
        match engine_add_template_result(id@, text@) {
            Ok(_) => r is Ok && engine_env_view(*final(env)) == (EngineEnvView {
                templates: engine_templates(*old(env)).insert(id@, text@),
                ..engine_env_view(*old(env))
            }),
            Err(e) => r matches Err(d) && is_error_report(d@, e, internal_error_root(), None, text@, internal_meta(id@)),
        },
        engine_standard(*final(env)),
        r matches Err(d) ==> is_internal_error(d@, id@, text@),
{
    match engine_add_template(env, String::from_str(id), String::from_str(text)) {
        Ok(()) => Ok(()),
        Err(e) => Err(internal_error(&e, id, text)),
    }
}

/// The templates and settings of the environment that every template is rendered in.
pub open spec fn base_env_view(b: BuiltinTemplates) -> EngineEnvView {
    EngineEnvView {
        templates: Map::empty().insert("deploy-promote.sh.j2"@, b.promote_script@).insert(
            "shared/header.py.j2"@,
            b.header@,
        ).insert("shared/create-tasks.py.j2"@, b.create_tasks@),
        strict: true,
        debug: true,
        dirname: true,
        port: true,
    }
}

/// The first internal building block that does not compile, with its error, if one does not.
pub open spec fn base_env_error(b: BuiltinTemplates) -> Option<(Seq<char>, Seq<char>, minijinja::Error)> {
    let r1 = engine_add_template_result("deploy-promote.sh.j2"@, b.promote_script@);
    let r2 = engine_add_template_result("shared/header.py.j2"@, b.header@);
    let r3 = engine_add_template_result("shared/create-tasks.py.j2"@, b.create_tasks@);
    if r1 is Err {
        Some(("deploy-promote.sh.j2"@, b.promote_script@, r1->Err_0))
    } else if r2 is Err {
        Some(("shared/header.py.j2"@, b.header@, r2->Err_0))
    } else if r3 is Err {
        Some(("shared/create-tasks.py.j2"@, b.create_tasks@, r3->Err_0))
    } else {
        None
    }
}

/// The environment that every template is rendered in: undefined values are errors, errors
/// carry ranges, the internal building blocks (`deploy-promote.sh.j2`, `shared/header.py.j2`,
/// `shared/create-tasks.py.j2`) are registered, and so are the `dirname` filter and the `port`
/// function (see [`base_env_view`]). It fails exactly when one of the building blocks does not
/// compile, reporting the first that does not.
pub fn base_minijinja_env(builtins: &BuiltinTemplates) -> (r: Result<minijinja::Environment<'static>, Diagnostic>)
    ensures
        r matches Err(d) ==> is_internal_error(d@, "deploy-promote.sh.j2"@, builtins.promote_script@)
            || is_internal_error(d@, "shared/header.py.j2"@, builtins.header@)
            || is_internal_error(d@, "shared/create-tasks.py.j2"@, builtins.create_tasks@),
        match base_env_error(*builtins) {
            Some((id, text, e)) => r matches Err(d) && is_error_report(d@, e, internal_error_root(), None, text, internal_meta(id)),
            None => r matches Ok(env) && engine_standard(env) && engine_env_view(env) == base_env_view(*builtins),
        },
{
    let mut env = engine_env_new();
    proof {
        assert(engine_templates(env) =~= Map::<Seq<char>, Seq<char>>::empty());
    }
    engine_set_strict_undefined(&mut env);
    engine_set_debug(&mut env, true);
    add_internal_template(&mut env, "deploy-promote.sh.j2", builtins.promote_script.as_str())?;
    add_internal_template(&mut env, "shared/header.py.j2", builtins.header.as_str())?;
    add_internal_template(&mut env, "shared/create-tasks.py.j2", builtins.create_tasks.as_str())?;
    engine_add_dirname_filter(&mut env);
    engine_add_port_function(&mut env);
    Ok(env)
}

/// What an error in a user-provided string points at: the `--set` path it was assigned to, or
/// where it stands in the configuration file.
pub open spec fn user_var_meta(origin: UserVarStringOrigin) -> MetaView {
    match origin {
        UserVarStringOrigin::Cli { path } => MetaView::Cli { hint: cli_hint(path@) },
        UserVarStringOrigin::Toml(span) => MetaView::Inline { span },
    }
}

pub open spec fn user_string_root() -> Seq<char> {
    "failed to render user-provided string"@
}

/// Renders a user-provided string, which may itself use template syntax.
pub fn render_user_var_string(
    env: &minijinja::Environment<'static>,
    context: &CtxValue,
    toml_config: &TomlSource,
    user_var_string: &UserVarString,
) -> (r: Result<String, Diagnostic>)
    requires
        engine_standard(*env),
    ensures
        r matches Err(d) ==> is_template_error_report(
            d@,
            user_string_root(),
            Some((toml_config.path@, toml_config.value@)),
            user_var_string.value@,
            user_var_meta(user_var_string.origin),
        ),
        match engine_render_result(engine_env_view(*env), user_var_string.value@, context@) {
            Ok(text) => r matches Ok(s) && s@ == text,
            Err(e) => r matches Err(d) && is_error_report(
                d@,
                e,
                user_string_root(),
                Some((toml_config.path@, toml_config.value@)),
                user_var_string.value@,
                user_var_meta(user_var_string.origin),
            ),
        },
{
    match engine_render_str(env, user_var_string.value.as_str(), context) {
        Ok(s) => Ok(s),
        Err(e) => {
            let te = template_error_of(&e);
            let src = TemplateSource::from_user_var(user_var_string);
            let r = template_error_to_report(&te, "failed to render user-provided string", Some(toml_config), &src);
            assert(r@ == template_error_report(te, user_string_root(), toml_view(Some(toml_config)), src.value@, meta_view(src.meta)));
            Err(r)
        },
    }
}

/// Renders a template that the user chose; errors are reported under `error_msg`.
pub fn render_user_template(
    env: &minijinja::Environment<'static>,
    context: &CtxValue,
    toml_config: &TomlSource,
    template: &TemplateSource,
    error_msg: &str,
) -> (r: Result<String, Diagnostic>)
    requires
        engine_standard(*env),
    ensures
        r matches Err(d) ==> is_template_error_report(
            d@,
            error_msg@,
            Some((toml_config.path@, toml_config.value@)),
            template.value@,
            meta_view(template.meta),
        ),
        match engine_render_result(engine_env_view(*env), template.value@, context@) {
            Ok(text) => r matches Ok(s) && s@ == text,
            Err(e) => r matches Err(d) && is_error_report(
                d@,
                e,
                error_msg@,
                Some((toml_config.path@, toml_config.value@)),
                template.value@,
                meta_view(template.meta),
            ),
        },
{
    match engine_render_str(env, template.value.as_str(), context) {
        Ok(s) => Ok(s),
        Err(e) => {
            let te = template_error_of(&e);
            let r = template_error_to_report(&te, error_msg, Some(toml_config), template);
            assert(r@ == template_error_report(te, error_msg@, toml_view(Some(toml_config)), template.value@, meta_view(template.meta)));
            Err(r)
        },
    }
}

/// Renders one of vade's own templates.
pub fn render_internal(
    env: &minijinja::Environment<'static>,
    context: &CtxValue,
    template_id: &str,
    template: &str,
) -> (r: Result<String, Diagnostic>)
    requires
        engine_standard(*env),
    ensures
        r matches Err(d) ==> is_internal_error(d@, template_id@, template@),
        match engine_render_result(engine_env_view(*env), template@, context@) {
            Ok(text) => r matches Ok(s) && s@ == text,
            Err(e) => r matches Err(d) && is_error_report(d@, e, internal_error_root(), None, template@, internal_meta(template_id@)),
        },
{
    match engine_render_str(env, template, context) {
        Ok(s) => Ok(s),
        Err(e) => Err(internal_error(&e, template_id, template)),
    }
}

} // verus!

verus! {

/// A template error report carries its headline as its message.
pub proof fn lemma_report_message(
    d: DiagnosticView,
    root: Seq<char>,
    toml: Option<(Seq<char>, Seq<char>)>,
    value: Seq<char>,
    meta: MetaView,
)
    requires
        is_template_error_report(d, root, toml, value, meta),
    ensures
        d.message == root,
{
    let e = choose|e: TemplateError| d == #[trigger] template_error_report(e, root, toml, value, meta);
    assert(template_error_report(e, root, toml, value, meta).message == root);
}

} // verus!

verus! {

/// An error of [`base_minijinja_env`] is an internal error.
pub proof fn lemma_env_error_message(d: DiagnosticView, builtins: BuiltinTemplates)
    requires
        is_internal_error(d, "deploy-promote.sh.j2"@, builtins.promote_script@)
            || is_internal_error(d, "shared/header.py.j2"@, builtins.header@)
            || is_internal_error(d, "shared/create-tasks.py.j2"@, builtins.create_tasks@),
    ensures
        d.message == internal_error_root(),
{
    let k = BuiltinTemplateKind::Internal;
    if is_internal_error(d, "deploy-promote.sh.j2"@, builtins.promote_script@) {
        lemma_report_message(d, internal_error_root(), None, builtins.promote_script@, MetaView::Builtin { id: "deploy-promote.sh.j2"@, kind: k });
    } else if is_internal_error(d, "shared/header.py.j2"@, builtins.header@) {
        lemma_report_message(d, internal_error_root(), None, builtins.header@, MetaView::Builtin { id: "shared/header.py.j2"@, kind: k });
    } else {
        lemma_report_message(d, internal_error_root(), None, builtins.create_tasks@, MetaView::Builtin { id: "shared/create-tasks.py.j2"@, kind: k });
    }
}

} // verus!
