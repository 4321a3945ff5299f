//! The template engine (minijinja) as seen from the library: its types, and one trusted
//! wrapper per engine function that the library calls.

use vstd::prelude::*;
use crate::json::JsonScalar;
use crate::templating::context::{CtxValue, CtxView};

verus! {

/// A value handed to the template engine.
#[verifier::external_type_specification]
#[verifier::external_body]
pub struct ExEngineValue(minijinja::Value);

/// `Value::clone` (derived): the copy is the same value.
pub assume_specification[ <minijinja::Value as Clone>::clone ](v: &minijinja::Value) -> (r: minijinja::Value)
    ensures
        r == *v,
;

/// A template environment.
#[verifier::external_type_specification]
#[verifier::external_body]
pub struct ExEngineEnvironment<'source>(minijinja::Environment<'source>);

/// An error raised by the template engine.
#[verifier::external_type_specification]
#[verifier::external_body]
pub struct ExEngineError(minijinja::Error);

} // verus!



verus! {

/// A kind of engine error.
#[verifier::external_type_specification]
#[verifier::external_body]
pub struct ExEngineErrorKind(minijinja::ErrorKind);

/// The template environment that the library configures and renders with.
pub type EngineEnv = minijinja::Environment<'static>;

/// The templates registered in an environment: each name with its source text.
pub uninterp spec fn engine_templates(env: EngineEnv) -> Map<Seq<char>, Seq<char>>;

/// Whether an environment makes any use of an undefined value an error
/// (`UndefinedBehavior::Strict`).
pub uninterp spec fn engine_strict(env: EngineEnv) -> bool;

/// Whether an environment's debug flag is on (errors then carry ranges).
pub uninterp spec fn engine_debug(env: EngineEnv) -> bool;

/// Whether an environment has the library's `dirname` filter registered.
pub uninterp spec fn engine_has_dirname(env: EngineEnv) -> bool;

/// Whether an environment has the library's `port` function registered.
pub uninterp spec fn engine_has_port(env: EngineEnv) -> bool;

/// Whether every other setting of an environment is the one `Environment::new` makes: the
/// template syntax, whitespace and auto-escaping, the formatter, the default filters, tests and
/// globals, and nothing else registered.
pub uninterp spec fn engine_standard(env: EngineEnv) -> bool;

/// What the library knows of an environment: its templates and the settings it changes.
pub struct EngineEnvView {
    pub templates: Map<Seq<char>, Seq<char>>,
    pub strict: bool,
    pub debug: bool,
    pub dirname: bool,
    pub port: bool,
}

pub open spec fn engine_env_view(env: EngineEnv) -> EngineEnvView {
    EngineEnvView {
        templates: engine_templates(env),
        strict: engine_strict(env),
        debug: engine_debug(env),
        dirname: engine_has_dirname(env),
        port: engine_has_port(env),
    }
}

/// What `Environment::add_template_owned` gives for a name and a source in a standard
/// environment (see [`engine_standard`]): success, or the error that compiling the source
/// raised. Compiling depends on the template configuration, which is the default one there.
pub uninterp spec fn engine_add_template_result(name: Seq<char>, source: Seq<char>) -> Result<(), minijinja::Error>;

/// What `Environment::render_str` gives for a source in a standard environment with the given
/// templates and settings, with a context that holds the values of `ctx` (as
/// [`engine_value_tree`] builds them): the rendered text, or the error raised while compiling or
/// rendering.
pub uninterp spec fn engine_render_result(
    env: EngineEnvView,
    source: Seq<char>,
    ctx: CtxView,
) -> Result<Seq<char>, minijinja::Error>;

/// What `Error::kind` gives for an error.
pub uninterp spec fn engine_error_kind_of(e: minijinja::Error) -> minijinja::ErrorKind;

/// Which of the kinds that the library tells apart an error kind is.
pub uninterp spec fn engine_kind_class_of(k: minijinja::ErrorKind) -> crate::templating::TemplateErrorKind;

/// What `ErrorKind`'s `Display` gives for a kind.
pub uninterp spec fn engine_kind_text_of(k: minijinja::ErrorKind) -> Seq<char>;

/// What `Error::detail` gives for an error.
pub uninterp spec fn engine_error_detail_of(e: minijinja::Error) -> Option<Seq<char>>;

/// What `Error::range` gives for an error, its bounds as a pair.
pub uninterp spec fn engine_error_range_of(e: minijinja::Error) -> Option<(usize, usize)>;

/// `Environment::new`: a standard environment with no templates, lenient about undefined
/// values, and with neither `dirname` nor `port` registered.
#[verifier::external_body]
pub(crate) fn engine_env_new() -> (r: EngineEnv)
    ensures
        engine_templates(r).dom() == Set::<Seq<char>>::empty(),
        engine_standard(r),
        !engine_strict(r),
        !engine_has_dirname(r),
        !engine_has_port(r),
{
    minijinja::Environment::new()
}

/// `Environment::set_undefined_behavior` with `UndefinedBehavior::Strict`: from then on any use
/// of an undefined value is an error. Nothing else changes.
#[verifier::external_body]
pub(crate) fn engine_set_strict_undefined(env: &mut EngineEnv)
    ensures
        engine_env_view(*final(env)) == (EngineEnvView { strict: true, ..engine_env_view(*old(env)) }),
        engine_standard(*final(env)) == engine_standard(*old(env)),
{
    env.set_undefined_behavior(minijinja::UndefinedBehavior::Strict)
}

/// `Environment::set_debug`: with debug on, errors carry the range of the failing expression.
/// Nothing else changes.
#[verifier::external_body]
pub(crate) fn engine_set_debug(env: &mut EngineEnv, enabled: bool)
    ensures
        engine_debug(*final(env)) == enabled,
        engine_env_view(*final(env)) == (EngineEnvView { debug: enabled, ..engine_env_view(*old(env)) }),
        engine_standard(*final(env)) == engine_standard(*old(env)),
{
    env.set_debug(enabled)
}

/// `Environment::add_template_owned`: compiles a source and registers it under a name. In a
/// standard environment the result is what [`engine_add_template_result`] names; on success
/// the template is registered (replacing one of that name); on failure no other template is
/// touched. No setting changes.
#[verifier::external_body]
pub(crate) fn engine_add_template(
    env: &mut EngineEnv,
    name: String,
    source: String,
) -> (r: Result<(), minijinja::Error>)
    requires
        engine_standard(*old(env)),
    ensures
        r == engine_add_template_result(name@, source@),
        r is Ok ==> engine_templates(*final(env)) == engine_templates(*old(env)).insert(name@, source@),
        r is Err ==> engine_templates(*final(env)).remove(name@) == engine_templates(*old(env)).remove(name@),
        engine_env_view(*final(env)) == (EngineEnvView { templates: engine_templates(*final(env)), ..engine_env_view(*old(env)) }),
        engine_standard(*final(env)),
{
    env.add_template_owned(name, source)
}

/// `Environment::add_filter` under the name `dirname`, with the library's own filter
/// [`crate::templating::render::dirname_filter`]. Nothing else changes.
#[verifier::external_body]
pub(crate) fn engine_add_dirname_filter(env: &mut EngineEnv)
    ensures
        engine_env_view(*final(env)) == (EngineEnvView { dirname: true, ..engine_env_view(*old(env)) }),
        engine_standard(*final(env)) == engine_standard(*old(env)),
{
    env.add_filter("dirname", |path: &str| crate::templating::render::dirname_filter(path))
}

/// `Environment::add_function` under the name `port`, with the library's own function
/// [`crate::templating::render::port_function`]. Nothing else changes.
#[verifier::external_body]
pub(crate) fn engine_add_port_function(env: &mut EngineEnv)
    ensures
        engine_env_view(*final(env)) == (EngineEnvView { port: true, ..engine_env_view(*old(env)) }),
        engine_standard(*final(env)) == engine_standard(*old(env)),
{
    env.add_function("port", |name: &str| crate::templating::render::port_function(name))
}

/// `Environment::render_str`: compiles `source` and renders it with the values of `ctx`. In a
/// standard environment the result is what [`engine_render_result`] names for the environment's
/// templates and settings, the source and the context.
#[verifier::external_body]
pub(crate) fn engine_render_str(
    env: &EngineEnv,
    source: &str,
    ctx: &CtxValue,
) -> (r: Result<String, minijinja::Error>)
    requires
        engine_standard(*env),
    ensures
        match r {
            Ok(s) => engine_render_result(engine_env_view(*env), source@, ctx@) == Ok::<Seq<char>, minijinja::Error>(s@),
            Err(e) => engine_render_result(engine_env_view(*env), source@, ctx@) == Err::<Seq<char>, minijinja::Error>(e),
        },
{
    env.render_str(source, engine_value_tree(ctx))
}

/// Moves a template context into the engine's values, one variant for another: strings become
/// string values, nulls, booleans and numbers the engine's scalars (as `Value::from` and
/// `Value::from_serialize` build them), floats the engine values they hold, lists sequences and
/// maps maps.
#[verifier::external_body]
fn engine_value_tree(c: &CtxValue) -> minijinja::Value {
    match c {
        CtxValue::Str(s) => minijinja::Value::from(s.as_str()),
        CtxValue::Scalar(JsonScalar::Null) => minijinja::Value::from(()),
        CtxValue::Scalar(JsonScalar::Bool(b)) => minijinja::Value::from(*b),
        CtxValue::Scalar(JsonScalar::Number(n)) => minijinja::Value::from_serialize(n),
        CtxValue::Scalar(JsonScalar::Float(v)) => v.clone(),
        CtxValue::List(items) => items.iter().map(engine_value_tree).collect(),
        CtxValue::Object(entries) => entries.iter().map(|(k, v)| (k.clone(), engine_value_tree(v))).collect(),
    }
}

/// `<Error as serde::de::Error>::custom`, which minijinja implements as
/// `Error::new(ErrorKind::CannotDeserialize, msg)`: an error carrying `msg` as its detail.
#[verifier::external_body]
pub(crate) fn engine_custom_error(msg: &str) -> (r: minijinja::Error) {
    minijinja::Error::new(minijinja::ErrorKind::CannotDeserialize, msg.to_string())
}

/// `Error::kind`.
#[verifier::external_body]
pub(crate) fn engine_error_kind(e: &minijinja::Error) -> (r: minijinja::ErrorKind)
    ensures
        r == engine_error_kind_of(*e),
{
    e.kind()
}

/// Tells `ErrorKind::UndefinedError` and `ErrorKind::SyntaxError` apart from the other kinds.
#[verifier::external_body]
pub(crate) fn engine_kind_class(k: minijinja::ErrorKind) -> (r: crate::templating::TemplateErrorKind)
    ensures
        r == engine_kind_class_of(k),
{
    match k {
        minijinja::ErrorKind::UndefinedError => crate::templating::TemplateErrorKind::Undefined,
        minijinja::ErrorKind::SyntaxError => crate::templating::TemplateErrorKind::Syntax,
        _ => crate::templating::TemplateErrorKind::Other,
    }
}

/// `ErrorKind`'s `Display` text (e.g. `undefined value`).
#[verifier::external_body]
pub(crate) fn engine_kind_text(k: minijinja::ErrorKind) -> (r: String)
    ensures
        r@ == engine_kind_text_of(k),
{
    k.to_string()
}

/// `Error::detail`, copied into a `String`.
#[verifier::external_body]
pub(crate) fn engine_error_detail(e: &minijinja::Error) -> (r: Option<String>)
    ensures
        match r {
            Some(d) => engine_error_detail_of(*e) == Some(d@),
            None => engine_error_detail_of(*e) is None,
        },
{
    e.detail().map(|d| d.to_string())
}

/// `Error::range`, its bounds as a pair.
#[verifier::external_body]
pub(crate) fn engine_error_range(e: &minijinja::Error) -> (r: Option<(usize, usize)>)
    ensures
        r == engine_error_range_of(*e),
{
    e.range().map(|x| (x.start, x.end))
}

} // verus!
