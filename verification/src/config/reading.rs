//! Reading `vade.toml`: the text is parsed by `toml_span` into a [`TomlValue`], whose tables
//! are then read into an [`AppConfig`] key by key, gathering every problem found.

use vstd::prelude::*;
use crate::app_name::AppName;
use crate::config::{
    AppConfig, ArtifactsConfig, CaddyfileConfig, NetworkConfig, SystemdUnitConfig, TemplateConfig,
    TemplateOrigin, UserVar, UserVarString, UserVarView, OriginView, lookup, lemma_lookup_first, lemma_lookup_absent,
};
use crate::config::deserialize::{
    TomlErrorInfo, TomlErrorKind, TomlIssue, choose_template_origin, finish_load,
    toml_error_report,
};
use crate::config::validate::{validation_errors, validation_report};
use crate::json::JsonScalar;
use crate::util::{Diagnostic, SourceRef, Span, Spanned};
use toml_span::ErrorKind;
use toml_span::value::ValueInner;

verus! {

/// A TOML document as `toml_span` represents it.
#[verifier::external_type_specification]
#[verifier::external_body]
pub struct ExTomlValue<'de>(toml_span::Value<'de>);

/// A `toml_span` error.
#[verifier::external_type_specification]
#[verifier::external_body]
pub struct ExTomlError(toml_span::Error);

/// A value of a TOML document, with the span of the text it was read from.
#[derive(Debug)]
pub enum TomlValue {
    String(String, Span),
    Integer(i64, Span),
    /// A float, as the engine value that `Value::from` makes of it.
    Float(minijinja::Value, Span),
    Boolean(bool, Span),
    Array(Vec<TomlValue>, Span),
    /// A table: each key with its span and value, in the order of the keys' names.
    Table(Vec<(String, Span, TomlValue)>, Span),
}

/// The view of a [`TomlValue`].
pub enum TomlView {
    String(Seq<char>, Span),
    Integer(i64, Span),
    Float(minijinja::Value, Span),
    Boolean(bool, Span),
    Array(Seq<TomlView>, Span),
    Table(Seq<(Seq<char>, Span, TomlView)>, Span),
}

pub open spec fn toml_view(v: TomlValue) -> TomlView
    decreases v,
{
    match v {
        TomlValue::String(s, sp) => TomlView::String(s@, sp),
        TomlValue::Integer(i, sp) => TomlView::Integer(i, sp),
        TomlValue::Float(f, sp) => TomlView::Float(f, sp),
        TomlValue::Boolean(b, sp) => TomlView::Boolean(b, sp),
        TomlValue::Array(items, sp) => TomlView::Array(
            Seq::new(items@.len(), |i: int| if 0 <= i < items@.len() { toml_view(items@[i]) } else { TomlView::Boolean(false, sp) }),
            sp,
        ),
        TomlValue::Table(es, sp) => TomlView::Table(
            Seq::new(
                es@.len(),
                |i: int|
                    if 0 <= i < es@.len() {
                        (es@[i].0@, es@[i].1, toml_view(es@[i].2))
                    } else {
                        (Seq::empty(), sp, TomlView::Boolean(false, sp))
                    },
            ),
            sp,
        ),
    }
}

impl View for TomlValue {
    type V = TomlView;

    open spec fn view(&self) -> TomlView {
        toml_view(*self)
    }
}

/// The view of a reading error.
pub enum TomlErrorKindView {
    UnexpectedKeys(Seq<(Seq<char>, Span)>),
    Duplicate { first: Span },
    Other,
}

pub struct TomlErrorView {
    pub kind: TomlErrorKindView,
    pub message: Seq<char>,
    pub span: Span,
}

pub open spec fn toml_error_view(e: TomlErrorInfo) -> TomlErrorView {
    TomlErrorView {
        kind: match e.kind {
            TomlErrorKind::UnexpectedKeys(keys) => TomlErrorKindView::UnexpectedKeys(
                keys@.map_values(|k: (String, Span)| (k.0@, k.1)),
            ),
            TomlErrorKind::Duplicate { first } => TomlErrorKindView::Duplicate { first },
            TomlErrorKind::Other => TomlErrorKindView::Other,
        },
        message: e.message@,
        span: e.span,
    }
}

/// What `toml_span::parse` gives for a text: the document, or the error.
pub uninterp spec fn toml_parse_result(text: Seq<char>) -> Result<TomlView, TomlErrorView>;

/// Parses a TOML text with `toml_span::parse`. The claim: the result is what
/// `toml_parse_result` names for the text (the document, or the error with its `Display` text).
#[verifier::external_body]
pub(crate) fn parse_toml(text: &str) -> (r: Result<TomlValue, TomlErrorInfo>)
    ensures
        match r {
            Ok(v) => toml_parse_result(text@) == Ok::<TomlView, TomlErrorView>(v@),
            Err(e) => toml_parse_result(text@) == Err::<TomlView, TomlErrorView>(toml_error_view(e)),
        },
{
    toml_span::parse(text).map(toml_tree).map_err(toml_error_info)
}

/// Moves a `toml_span::Value` into a [`TomlValue`], one variant for another; table entries keep
/// the order in which the table yields them.
#[verifier::external_body]
fn toml_tree(mut v: toml_span::Value<'_>) -> TomlValue {
    let span = Span::new(v.span.start, v.span.end);
    match v.take() {
        ValueInner::String(s) => TomlValue::String(s.into_owned(), span),
        ValueInner::Integer(i) => TomlValue::Integer(i, span),
        ValueInner::Float(x) => TomlValue::Float(minijinja::Value::from(x), span),
        ValueInner::Boolean(b) => TomlValue::Boolean(b, span),
        ValueInner::Array(a) => TomlValue::Array(a.into_iter().map(toml_tree).collect(), span),
        ValueInner::Table(t) => TomlValue::Table(
            t.into_iter().map(|(k, v)| (k.name.into_owned(), Span::new(k.span.start, k.span.end), toml_tree(v))).collect(),
            span,
        ),
    }
}

/// Moves a `toml_span::Error` into a [`TomlErrorInfo`]: its message is the error's `Display`
/// text; unexpected keys and duplicate definitions keep their spans.
#[verifier::external_body]
fn toml_error_info(e: toml_span::Error) -> TomlErrorInfo {
    let message = e.to_string();
    let span = Span::new(e.span.start, e.span.end);
    let kind = match e.kind {
        ErrorKind::UnexpectedKeys { keys, .. } => TomlErrorKind::UnexpectedKeys(
            keys.into_iter().map(|(k, s)| (k, Span::new(s.start, s.end))).collect(),
        ),
        ErrorKind::DuplicateKey { first, .. } => TomlErrorKind::Duplicate { first: Span::new(first.start, first.end) },
        ErrorKind::DuplicateTable { first, .. } => TomlErrorKind::Duplicate { first: Span::new(first.start, first.end) },
        _ => TomlErrorKind::Other,
    };
    TomlErrorInfo { kind, message, span }
}

} // verus!

verus! {

/// The span of the text a value was read from.
pub open spec fn span_of(v: TomlView) -> Span {
    match v {
        TomlView::String(_, sp) => sp,
        TomlView::Integer(_, sp) => sp,
        TomlView::Float(_, sp) => sp,
        TomlView::Boolean(_, sp) => sp,
        TomlView::Array(_, sp) => sp,
        TomlView::Table(_, sp) => sp,
    }
}

/// The name that `ValueInner::type_str` gives a value's type (a few lines in `toml_span`,
/// restated here over the library's tree).
pub open spec fn toml_type_text(v: TomlView) -> Seq<char> {
    match v {
        TomlView::String(..) => "string"@,
        TomlView::Integer(..) => "integer"@,
        TomlView::Float(..) => "float"@,
        TomlView::Boolean(..) => "boolean"@,
        TomlView::Array(..) => "array"@,
        TomlView::Table(..) => "table"@,
    }
}

/// The value under key `k` of a table.
pub open spec fn get(v: TomlView, k: Seq<char>) -> Option<TomlView> {
    lookup(v->Table_0.map_values(|e: (Seq<char>, Span, TomlView)| (e.0, e.2)), k)
}

/// Every key of the table is among `allowed`.
pub open spec fn only_keys(v: TomlView, allowed: Seq<Seq<char>>) -> bool {
    forall|i: int| 0 <= i < v->Table_0.len() ==> allowed.contains(#[trigger] v->Table_0[i].0)
}

/// An optional key holds a string if it is there.
pub open spec fn opt_string(o: Option<TomlView>) -> bool {
    o matches Some(x) ==> x is String
}

/// What an optional string key was read as.
pub open spec fn reads_opt_string(o: Option<TomlView>, r: Option<Spanned<String>>) -> bool {
    match o {
        Some(TomlView::String(s, sp)) => r matches Some(x) && x.value@ == s && x.span == sp,
        _ => r is None,
    }
}

pub open spec fn template_keys() -> Seq<Seq<char>> {
    seq!["builtin"@, "file"@, "inline"@, "vars"@]
}

pub open spec fn unit_keys() -> Seq<Seq<char>> {
    seq!["filename-suffix"@, "file-extension"@, "template"@]
}

pub open spec fn app_keys() -> Seq<Seq<char>> {
    seq!["artifacts"@, "network"@, "caddyfile"@, "systemd-unit"@]
}

/// A template table: only the keys `builtin`, `file`, `inline` and `vars`; exactly one of the
/// first three, a string; `vars`, if there, a table.
pub open spec fn template_ok(v: TomlView) -> bool {
    let b = get(v, "builtin"@);
    let f = get(v, "file"@);
    let i = get(v, "inline"@);
    &&& v is Table
    &&& only_keys(v, template_keys())
    &&& opt_string(b) && opt_string(f) && opt_string(i)
    &&& (b is Some && f is None && i is None) || (b is None && f is Some && i is None) || (b is None && f is None && i is Some)
    &&& get(v, "vars"@) matches Some(x) ==> x is Table
}

/// A systemd unit table: only the keys `filename-suffix`, `file-extension` and `template`;
/// strings for the first two if there, and a template.
pub open spec fn unit_ok(v: TomlView) -> bool {
    &&& v is Table
    &&& only_keys(v, unit_keys())
    &&& opt_string(get(v, "filename-suffix"@)) && opt_string(get(v, "file-extension"@))
    &&& get(v, "template"@) matches Some(t) && template_ok(t)
}

/// The artifacts table: only the key `path`, a string.
pub open spec fn artifacts_ok(v: TomlView) -> bool {
    &&& v is Table
    &&& only_keys(v, seq!["path"@])
    &&& get(v, "path"@) matches Some(p) && p is String
}

/// The network table: only the key `reserve-ports`, if there an integer that fits in `u32`.
pub open spec fn network_ok(v: TomlView) -> bool {
    &&& v is Table
    &&& only_keys(v, seq!["reserve-ports"@])
    &&& get(v, "reserve-ports"@) matches Some(x) ==> x matches TomlView::Integer(i, _) && 0 <= i <= u32::MAX
}

/// The Caddyfile table: only the key `template`, a template.
pub open spec fn caddyfile_ok(v: TomlView) -> bool {
    &&& v is Table
    &&& only_keys(v, seq!["template"@])
    &&& get(v, "template"@) matches Some(t) && template_ok(t)
}

/// The `systemd-unit` key, if there, is an array of systemd unit tables.
pub open spec fn units_ok(o: Option<TomlView>) -> bool {
    o matches Some(x) ==> x matches TomlView::Array(items, _) && forall|i: int| 0 <= i < items.len() ==> unit_ok(#[trigger] items[i])
}

/// A configuration document: a table with only the keys `artifacts`, `network`, `caddyfile`
/// and `systemd-unit`, each as it should be.
pub open spec fn app_ok(v: TomlView) -> bool {
    &&& v is Table
    &&& only_keys(v, app_keys())
    &&& get(v, "artifacts"@) matches Some(a) ==> artifacts_ok(a)
    &&& get(v, "network"@) matches Some(n) ==> network_ok(n)
    &&& get(v, "caddyfile"@) matches Some(c) ==> caddyfile_ok(c)
    &&& units_ok(get(v, "systemd-unit"@))
}

/// Whether `u` is the variable that a TOML value `t` becomes: strings remember their span,
/// arrays become lists and tables objects with the same keys in the same order; integers,
/// floats and booleans become scalars.
pub open spec fn is_toml_user_var(t: TomlView, u: UserVarView) -> bool
    decreases t,
{
    match t {
        TomlView::String(s, sp) => u == UserVarView::String { origin: OriginView::Toml(sp), value: s },
        TomlView::Integer(i, _) => u == UserVarView::Scalar(JsonScalar::Number(i64_number(i))),
        TomlView::Float(x, _) => u == UserVarView::Scalar(JsonScalar::Float(x)),
        TomlView::Boolean(b, _) => u == UserVarView::Scalar(JsonScalar::Bool(b)),
        TomlView::Array(items, _) => u matches UserVarView::List(us) && us.len() == items.len() && forall|k: int|
            0 <= k < items.len() ==> is_toml_user_var(#[trigger] items[k], us[k]),
        TomlView::Table(es, _) => u matches UserVarView::Object(us) && us.len() == es.len() && forall|k: int|
            0 <= k < es.len() ==> us[k].0 == (#[trigger] es[k]).0 && is_toml_user_var(es[k].2, us[k].1),
    }
}

/// What a template table was read as: its origin from the one key among `builtin`, `file` and
/// `inline` (at that key's value), and its variables from `vars` (none, at an empty span, when
/// there is no `vars`).
pub open spec fn reads_template(v: TomlView, t: TemplateConfig) -> bool {
    &&& match (get(v, "builtin"@), get(v, "file"@), get(v, "inline"@)) {
        (Some(TomlView::String(s, sp)), _, _) => t.origin.span == sp && (t.origin.value matches TemplateOrigin::Builtin(n) && n@ == s),
        (_, Some(TomlView::String(s, sp)), _) => t.origin.span == sp && (t.origin.value matches TemplateOrigin::File(p) && p@ == s),
        (_, _, Some(TomlView::String(s, sp))) => t.origin.span == sp && (t.origin.value matches TemplateOrigin::Inline(x)
            && x.value@ == s && x.span == sp),
        _ => true,
    }
    &&& match get(v, "vars"@) {
        Some(TomlView::Table(es, sp)) => t.vars.span == sp && t.vars.value@.len() == es.len() && forall|k: int|
            0 <= k < es.len() ==> (#[trigger] t.vars.value@[k]).0@ == es[k].0 && is_toml_user_var(es[k].2, t.vars.value@[k].1@),
        None => t.vars.value@.len() == 0 && t.vars.span == Span { start: 0, end: 0 },
        _ => true,
    }
}

pub open spec fn reads_unit(v: TomlView, u: SystemdUnitConfig) -> bool {
    &&& reads_opt_string(get(v, "filename-suffix"@), u.filename_suffix)
    &&& reads_opt_string(get(v, "file-extension"@), u.file_extension)
    &&& get(v, "template"@) matches Some(t) && u.template.span == span_of(t) && reads_template(t, u.template.value)
}

pub open spec fn reads_artifacts(v: TomlView, a: ArtifactsConfig) -> bool {
    get(v, "path"@) matches Some(TomlView::String(s, sp)) && a.path.value@ == s && a.path.span == sp
}

pub open spec fn reads_network(v: TomlView, n: NetworkConfig) -> bool {
    match get(v, "reserve-ports"@) {
        Some(TomlView::Integer(i, sp)) => n.reserve_ports matches Some(p) && p.value == i && p.span == sp,
        _ => n.reserve_ports is None,
    }
}

pub open spec fn reads_caddyfile(v: TomlView, c: CaddyfileConfig) -> bool {
    get(v, "template"@) matches Some(t) && c.template.span == span_of(t) && reads_template(t, c.template.value)
}

/// What a configuration document was read as: each table that is there, at its span, and the
/// systemd units in order (none without `systemd-unit`).
pub open spec fn reads_app(v: TomlView, c: AppConfig) -> bool {
    &&& match get(v, "artifacts"@) {
        Some(a) => c.artifacts matches Some(x) && x.span == span_of(a) && reads_artifacts(a, x.value),
        None => c.artifacts is None,
    }
    &&& match get(v, "network"@) {
        Some(n) => c.network matches Some(x) && x.span == span_of(n) && reads_network(n, x.value),
        None => c.network is None,
    }
    &&& match get(v, "caddyfile"@) {
        Some(t) => c.caddyfile matches Some(x) && x.span == span_of(t) && reads_caddyfile(t, x.value),
        None => c.caddyfile is None,
    }
    &&& match get(v, "systemd-unit"@) {
        Some(TomlView::Array(items, _)) => c.systemd_units@.len() == items.len() && forall|k: int|
            0 <= k < items.len() ==> (#[trigger] c.systemd_units@[k]).span == span_of(items[k])
                && reads_unit(items[k], c.systemd_units@[k].value),
        _ => c.systemd_units@.len() == 0,
    }
}

/// What `serde_json::Number::from` gives for an `i64`.
pub uninterp spec fn i64_number(x: i64) -> serde_json::Number;

/// `serde_json::Number::from(x)` for an `i64`. The claim: the result is what `i64_number` names
/// for `x`.
#[verifier::external_body]
fn number_from_i64(x: i64) -> (r: serde_json::Number)
    ensures
        r == i64_number(x),
{
    serde_json::Number::from(x)
}

/// The `Display` text of a `toml_span` error about unexpected keys: the keys found, and the keys
/// the table accepts.
pub uninterp spec fn unexpected_keys_text(keys: Seq<(Seq<char>, Span)>, expected: Seq<Seq<char>>) -> Seq<char>;

/// Formats a `toml_span::Error` of kind `UnexpectedKeys` with `Display`. The claim: the text is
/// what `unexpected_keys_text` names for the keys and the accepted keys.
#[verifier::external_body]
fn unexpected_keys_message(keys: &Vec<(String, Span)>, expected: &Vec<String>) -> (r: String)
    ensures
        r@ == unexpected_keys_text(keys@.map_values(|k: (String, Span)| (k.0@, k.1)), expected@.map_values(|e: String| e@)),
{
    let keys = keys.iter().map(|(k, s)| (k.clone(), toml_span::Span::new(s.start, s.end))).collect();
    let kind = ErrorKind::UnexpectedKeys { keys, expected: expected.clone() };
    toml_span::Error::from((kind, toml_span::Span::new(0, 0))).to_string()
}

} // verus!

verus! {

/// The value under key `k` of a table.
fn table_value<'a>(v: &'a TomlValue, k: &str) -> (r: Option<&'a TomlValue>)
    requires
        v@ is Table,
    ensures
        match r {
            Some(x) => get(v@, k@) == Some(x@),
            None => get(v@, k@) is None,
        },
{
    match v {
        TomlValue::Table(es, _) => {
            let ghost kv = v@->Table_0.map_values(|e: (Seq<char>, Span, TomlView)| (e.0, e.2));
            proof {
                assert forall|j: int| 0 <= j < es@.len() implies #[trigger] kv[j] == (es@[j].0@, es@[j].2@) by {
                    assert(v@->Table_0[j] == (es@[j].0@, es@[j].1, es@[j].2@));
                }
            }
            let mut i: usize = 0;
            while i < es.len()
                invariant
                    i <= es@.len(),
                    kv.len() == es@.len(),
                    forall|j: int| 0 <= j < es@.len() ==> #[trigger] kv[j] == (es@[j].0@, es@[j].2@),
                    forall|j: int| 0 <= j < i ==> kv[j].0 != k@,
                    get(v@, k@) == lookup(kv, k@),
                decreases es@.len() - i,
            {
                if crate::text::str_eq(es[i].0.as_str(), k) {
                    proof {
                        assert(kv[i as int].0 == k@);
                        lemma_lookup_first(kv, i as int);
                    }
                    return Some(&es[i].2);
                }
                i = i + 1;
            }
            proof {
                lemma_lookup_absent(kv, k@);
            }
            None
        },
        _ => None,
    }
}

/// The name of a value's type, as `ValueInner::type_str` gives it.
fn type_text(v: &TomlValue) -> (r: &'static str)
    ensures
        r@ == toml_type_text(v@),
{
    match v {
        TomlValue::String(..) => "string",
        TomlValue::Integer(..) => "integer",
        TomlValue::Float(..) => "float",
        TomlValue::Boolean(..) => "boolean",
        TomlValue::Array(..) => "array",
        TomlValue::Table(..) => "table",
    }
}

fn span_value(v: &TomlValue) -> (r: Span)
    ensures
        r == span_of(v@),
{
    match v {
        TomlValue::String(_, sp) => *sp,
        TomlValue::Integer(_, sp) => *sp,
        TomlValue::Float(_, sp) => *sp,
        TomlValue::Boolean(_, sp) => *sp,
        TomlValue::Array(_, sp) => *sp,
        TomlValue::Table(_, sp) => *sp,
    }
}

/// An error with a message at a span.
fn other_error(message: String, span: Span) -> (r: TomlErrorInfo)
    ensures
        r.kind == TomlErrorKind::Other,
        r.message@ == message@,
        r.span == span,
{
    TomlErrorInfo { kind: TomlErrorKind::Other, message, span }
}

/// The `Display` text of a `toml_span` error of kind `Wanted`: what was expected and the type
/// found.
pub uninterp spec fn wanted_text(expected: Seq<char>, found: Seq<char>) -> Seq<char>;

/// Formats a `toml_span::Error` of kind `Wanted` with `Display`. The claim: the text is what
/// `wanted_text` names for the expected and found types.
#[verifier::external_body]
fn wanted_message(expected: &'static str, found: &'static str) -> (r: String)
    ensures
        r@ == wanted_text(expected@, found@),
{
    toml_span::Error::from((ErrorKind::Wanted { expected, found }, toml_span::Span::new(0, 0))).to_string()
}

/// The `Display` text of a `toml_span` error of kind `MissingField`.
pub uninterp spec fn missing_field_text(field: Seq<char>) -> Seq<char>;

/// Formats a `toml_span::Error` of kind `MissingField` with `Display`. The claim: the text is
/// what `missing_field_text` names for the field.
#[verifier::external_body]
fn missing_field_message(field: &'static str) -> (r: String)
    ensures
        r@ == missing_field_text(field@),
{
    toml_span::Error::from((ErrorKind::MissingField(field), toml_span::Span::new(0, 0))).to_string()
}

/// The `Display` text of a `toml_span` error of kind `OutOfRange`.
pub uninterp spec fn out_of_range_text(kind: Seq<char>) -> Seq<char>;

/// Formats a `toml_span::Error` of kind `OutOfRange` with `Display`. The claim: the text is
/// what `out_of_range_text` names for the number type.
#[verifier::external_body]
fn out_of_range_message(kind: &'static str) -> (r: String)
    ensures
        r@ == out_of_range_text(kind@),
{
    toml_span::Error::from((ErrorKind::OutOfRange(kind), toml_span::Span::new(0, 0))).to_string()
}

/// The error that a value is not of the expected type, at the value.
fn wanted_error(expected: &'static str, v: &TomlValue) -> (r: TomlErrorInfo)
    ensures
        r.span == span_of(v@),
        toml_error_view(r) == wanted_view(expected@, v@),
{
    other_error(wanted_message(expected, type_text(v)), span_value(v))
}

/// The error that a required key is missing, at the table.
fn missing_error(field: &'static str, table_span: Span) -> (r: TomlErrorInfo)
    ensures
        r.span == table_span,
        toml_error_view(r) == other_view(missing_field_text(field@), table_span),
{
    other_error(missing_field_message(field), table_span)
}

/// Whether `k` is among `allowed`.
fn is_allowed(allowed: &Vec<String>, k: &str) -> (r: bool)
    ensures
        r == allowed@.map_values(|e: String| e@).contains(k@),
{
    let ghost av = allowed@.map_values(|e: String| e@);
    let mut i: usize = 0;
    while i < allowed.len()
        invariant
            i <= allowed@.len(),
            av.len() == allowed@.len(),
            av == allowed@.map_values(|e: String| e@),
            forall|j: int| 0 <= j < i ==> av[j] != k@,
        decreases allowed@.len() - i,
    {
        if crate::text::str_eq(allowed[i].as_str(), k) {
            assert(av[i as int] == k@);
            return true;
        }
        i = i + 1;
    }
    false
}

/// Records the keys of a table that are not among `allowed`, in one error at the table (none
/// when every key is allowed).
fn check_keys(v: &TomlValue, allowed: &Vec<String>, errors: &mut Vec<TomlErrorInfo>)
    requires
        v@ is Table,
    ensures
        final(errors)@.len() == old(errors)@.len() + if only_keys(v@, allowed@.map_values(|e: String| e@)) { 0int } else { 1int },
        toml_errors_view(final(errors)@) == toml_errors_view(old(errors)@) + keys_errors(v@, allowed@.map_values(|e: String| e@)),
{
    let ghost av = allowed@.map_values(|e: String| e@);
    let ghost before = errors@;
    match v {
        TomlValue::Table(es, sp) => {
            let mut keys: Vec<(String, Span)> = Vec::new();
            let mut i: usize = 0;
            while i < es.len()
                invariant
                    i <= es@.len(),
                    v@ is Table,
                    v@->Table_0.len() == es@.len(),
                    forall|j: int| 0 <= j < es@.len() ==> #[trigger] v@->Table_0[j].0 == es@[j].0@,
                    keys@.len() == 0 <==> forall|j: int| 0 <= j < i ==> av.contains(#[trigger] v@->Table_0[j].0),
                    av == allowed@.map_values(|e: String| e@),
                    keys@.map_values(|k: (String, Span)| (k.0@, k.1)) == unexpected_in(v@->Table_0.subrange(0, i as int), av),
                    forall|j: int| 0 <= j < es@.len() ==> #[trigger] v@->Table_0[j].1 == es@[j].1,
                decreases es@.len() - i,
            {
                let ok = is_allowed(allowed, es[i].0.as_str());
                let ghost kb = keys@;
                proof {
                    assert(v@->Table_0[i as int].0 == es@[i as int].0@);
                    assert(v@->Table_0.subrange(0, i + 1).drop_last() =~= v@->Table_0.subrange(0, i as int));
                }
                if !ok {
                    keys.push((es[i].0.clone(), es[i].1));
                    assert(keys@.map_values(|k: (String, Span)| (k.0@, k.1)) =~= kb.map_values(|k: (String, Span)| (k.0@, k.1)).push((es@[i as int].0@, es@[i as int].1)));
                }
                i = i + 1;
            }
            proof {
                assert(v@->Table_0.subrange(0, es@.len() as int) =~= v@->Table_0);
            }
            if keys.len() > 0 {
                let message = unexpected_keys_message(&keys, allowed);
                errors.push(TomlErrorInfo { kind: TomlErrorKind::UnexpectedKeys(keys), message, span: *sp });
                assert(toml_errors_view(errors@) =~= toml_errors_view(before) + keys_errors(v@, av));
            } else {
                assert(keys_errors(v@, av) =~= Seq::<TomlErrorView>::empty());
                assert(toml_errors_view(errors@) =~= toml_errors_view(before) + keys_errors(v@, av));
            }
        },
        _ => {},
    }
}

/// Reads an optional string key; a value of another type is an error.
fn opt_string_key(v: &TomlValue, k: &str, errors: &mut Vec<TomlErrorInfo>) -> (r: Option<Spanned<String>>)
    requires
        v@ is Table,
    ensures
        reads_opt_string(get(v@, k@), r),
        final(errors)@.len() == old(errors)@.len() + if opt_string(get(v@, k@)) { 0int } else { 1int },
        toml_errors_view(final(errors)@) == toml_errors_view(old(errors)@) + opt_string_errors(get(v@, k@)),
{
    let ghost before = errors@;
    match table_value(v, k) {
        None => {
            assert(toml_errors_view(errors@) =~= toml_errors_view(before) + opt_string_errors(get(v@, k@)));
            None
        },
        Some(TomlValue::String(s, sp)) => {
            assert(toml_errors_view(errors@) =~= toml_errors_view(before) + opt_string_errors(get(v@, k@)));
            Some(Spanned { value: s.clone(), span: *sp })
        },
        Some(x) => {
            errors.push(wanted_error("a string", x));
            assert(toml_errors_view(errors@) =~= toml_errors_view(before) + opt_string_errors(get(v@, k@)));
            None
        },
    }
}

} // verus!

verus! {

impl UserVar {
    /// A TOML value as a template variable (see [`is_toml_user_var`]).
    pub fn from_toml(t: &TomlValue) -> (r: UserVar)
        ensures
            is_toml_user_var(t@, r@),
        decreases t,
    {
    match t {
        TomlValue::String(s, sp) => UserVar::String(UserVarString::toml(s.clone(), *sp)),
        TomlValue::Integer(i, _) => UserVar::Scalar(JsonScalar::Number(number_from_i64(*i))),
        TomlValue::Float(x, _) => UserVar::Scalar(JsonScalar::Float(x.clone())),
        TomlValue::Boolean(b, _) => UserVar::Scalar(JsonScalar::Bool(*b)),
        TomlValue::Array(items, _) => {
            let mut out: Vec<UserVar> = Vec::new();
            let mut i: usize = 0;
            while i < items.len()
                invariant
                    i <= items@.len(),
                    *t == TomlValue::Array(*items, span_value_spec(*t)),
                    out@.len() == i,
                    forall|k: int| 0 <= k < i ==> is_toml_user_var(toml_view(#[trigger] items@[k]), out@[k]@),
                decreases items@.len() - i,
            {
                proof {
                    assert(decreases_to!(*t => (*t)->Array_0));
                    assert(decreases_to!(*items => items@));
                    assert(decreases_to!(items@ => items@[i as int]));
                    assert(decreases_to!(*t => items@[i as int]));
                }
                let u = UserVar::from_toml(&items[i]);
                out.push(u);
                i = i + 1;
            }
            let r = UserVar::List(out);
            proof {
                let tv = t@;
                let uv = r@;
                assert forall|k: int| 0 <= k < items@.len() implies is_toml_user_var(#[trigger] tv->Array_0[k], uv->List_0[k]) by {
                    assert(tv->Array_0[k] == toml_view(items@[k]));
                    assert(uv->List_0[k] == out@[k]@);
                }
            }
            r
        },
        TomlValue::Table(es, _) => {
            let mut out: Vec<(String, UserVar)> = Vec::new();
            let mut i: usize = 0;
            while i < es.len()
                invariant
                    i <= es@.len(),
                    *t == TomlValue::Table(*es, span_value_spec(*t)),
                    out@.len() == i,
                    forall|k: int| 0 <= k < i ==> out@[k].0@ == (#[trigger] es@[k]).0@
                        && is_toml_user_var(toml_view(es@[k].2), out@[k].1@),
                decreases es@.len() - i,
            {
                proof {
                    assert(decreases_to!(*t => (*t)->Table_0));
                    assert(decreases_to!(*es => es@));
                    assert(decreases_to!(es@ => es@[i as int]));
                    assert(decreases_to!(es@[i as int] => es@[i as int].2));
                    assert(decreases_to!(*t => es@[i as int].2));
                }
                let u = UserVar::from_toml(&es[i].2);
                out.push((es[i].0.clone(), u));
                i = i + 1;
            }
            let r = UserVar::Object(out);
            proof {
                let tv = t@;
                let uv = r@;
                assert forall|k: int| 0 <= k < es@.len() implies uv->Object_0[k].0 == (#[trigger] tv->Table_0[k]).0
                    && is_toml_user_var(tv->Table_0[k].2, uv->Object_0[k].1) by {
                    assert(tv->Table_0[k] == (es@[k].0@, es@[k].1, toml_view(es@[k].2)));
                    assert(uv->Object_0[k] == (out@[k].0@, out@[k].1@));
                }
            }
            r
        },
    }
}
}

/// The span stored in a value.
pub open spec fn span_value_spec(v: TomlValue) -> Span {
    match v {
        TomlValue::String(_, sp) => sp,
        TomlValue::Integer(_, sp) => sp,
        TomlValue::Float(_, sp) => sp,
        TomlValue::Boolean(_, sp) => sp,
        TomlValue::Array(_, sp) => sp,
        TomlValue::Table(_, sp) => sp,
    }
}

/// Reads the optional `vars` table of a template; a value of another type is an error.
fn vars_key(v: &TomlValue, errors: &mut Vec<TomlErrorInfo>) -> (r: Spanned<Vec<(String, UserVar)>>)
    requires
        v@ is Table,
    ensures
        match get(v@, "vars"@) {
            Some(TomlView::Table(es, sp)) => r.span == sp && r.value@.len() == es.len() && forall|k: int|
                0 <= k < es.len() ==> (#[trigger] r.value@[k]).0@ == es[k].0 && is_toml_user_var(es[k].2, r.value@[k].1@),
            None => r.value@.len() == 0 && r.span == Span { start: 0, end: 0 },
            _ => true,
        },
        final(errors)@.len() == old(errors)@.len() + if get(v@, "vars"@) matches Some(x) && !(x is Table) { 1int } else { 0int },
        toml_errors_view(final(errors)@) == toml_errors_view(old(errors)@) + vars_errors(v@),
{
    let ghost before = errors@;
    match table_value(v, "vars") {
        None => {
            assert(toml_errors_view(errors@) =~= toml_errors_view(before) + vars_errors(v@));
            Spanned { value: Vec::new(), span: Span::new(0, 0) }
        },
        Some(x) => match x {
            TomlValue::Table(es, sp) => {
                let mut out: Vec<(String, UserVar)> = Vec::new();
                let mut i: usize = 0;
                while i < es.len()
                    invariant
                        i <= es@.len(),
                        out@.len() == i,
                        forall|k: int| 0 <= k < i ==> (#[trigger] out@[k]).0@ == es@[k].0@ && is_toml_user_var(toml_view(es@[k].2), out@[k].1@),
                    decreases es@.len() - i,
                {
                    out.push((es[i].0.clone(), UserVar::from_toml(&es[i].2)));
                    i = i + 1;
                }
                proof {
                    let tv = x@;
                    assert forall|k: int| 0 <= k < es@.len() implies tv->Table_0[k] == (es@[k].0@, es@[k].1, toml_view(es@[k].2)) by {}
                    assert(toml_errors_view(errors@) =~= toml_errors_view(before) + vars_errors(v@));
                }
                Spanned { value: out, span: *sp }
            },
            other => {
                errors.push(wanted_error("a table", other));
                assert(toml_errors_view(errors@) =~= toml_errors_view(before) + vars_errors(v@));
                Spanned { value: Vec::new(), span: span_value(other) }
            },
        },
    }
}

} // verus!

verus! {

/// Records problems found in a template's origin, each as an error at its span.
fn push_issues(issues: Vec<TomlIssue>, errors: &mut Vec<TomlErrorInfo>)
    ensures
        final(errors)@.len() == old(errors)@.len() + issues@.len(),
        toml_errors_view(final(errors)@) == toml_errors_view(old(errors)@) + crate::config::deserialize::issues_view(issues@).map_values(
            |x: crate::config::deserialize::IssueView| other_view(x.message, x.span),
        ),
{
    let ghost before = errors@;
    let ghost iv = crate::config::deserialize::issues_view(issues@).map_values(
        |x: crate::config::deserialize::IssueView| other_view(x.message, x.span),
    );
    let mut i: usize = 0;
    while i < issues.len()
        invariant
            i <= issues@.len(),
            errors@.len() == before.len() + i,
            iv.len() == issues@.len(),
            forall|k: int| 0 <= k < issues@.len() ==> #[trigger] iv[k] == other_view(issues@[k].message@, issues@[k].span),
            toml_errors_view(errors@) == toml_errors_view(before) + iv.subrange(0, i as int),
        decreases issues@.len() - i,
    {
        let ghost eb = errors@;
        errors.push(other_error(issues[i].message.clone(), issues[i].span));
        assert(toml_errors_view(errors@) =~= toml_errors_view(eb).push(iv[i as int]));
        assert(iv.subrange(0, i + 1) =~= iv.subrange(0, i as int).push(iv[i as int]));
        i = i + 1;
    }
    assert(iv.subrange(0, i as int) =~= iv);
}

/// Reads a template table (see [`template_ok`] and [`reads_template`]); every problem found is
/// reported (see [`template_errors`]).
pub fn read_template(v: &TomlValue) -> (r: Result<TemplateConfig, Vec<TomlErrorInfo>>)
    ensures
        r is Ok <==> template_ok(v@),
        r matches Ok(t) ==> reads_template(v@, t),
        r matches Err(es) ==> es@.len() > 0 && toml_errors_view(es@) == template_errors(v@),
        r is Ok ==> template_errors(v@).len() == 0,
{
    let span = match v {
        TomlValue::Table(_, sp) => *sp,
        other => {
            let es = vec![wanted_error("a table", other)];
            assert(toml_errors_view(es@) =~= template_errors(v@));
            return Err(es);
        },
    };
    let mut errors: Vec<TomlErrorInfo> = Vec::new();
    assert(toml_errors_view(errors@) =~= Seq::<TomlErrorView>::empty());
    let builtin = opt_string_key(v, "builtin", &mut errors);
    let file = opt_string_key(v, "file", &mut errors);
    let inline = opt_string_key(v, "inline", &mut errors);
    let ghost (b0, f0, i0) = (builtin, file, inline);
    let ghost e3 = toml_errors_view(errors@);
    proof {
        assert(string_span(get(v@, "builtin"@)) == match b0 { Some(x) => Some(x.span), None => None });
        assert(string_span(get(v@, "file"@)) == match f0 { Some(x) => Some(x.span), None => None });
        assert(string_span(get(v@, "inline"@)) == match i0 { Some(x) => Some(x.span), None => None });
    }
    let origin = match choose_template_origin(span, builtin, file, inline) {
        Ok(o) => {
            assert(origin_errors(v@) =~= Seq::<TomlErrorView>::empty());
            Some(o)
        },
        Err(issues) => {
            proof {
                let ps = crate::config::deserialize::present_spans(b0, f0, i0);
                assert(issues@.len() > 0) by {
                    assert(crate::config::deserialize::issues_view(issues@).len() == issues@.len());
                    if !(b0 is None && f0 is None && i0 is None) {
                        assert(ps.len() > 0);
                    }
                }
                let mapped = crate::config::deserialize::issues_view(issues@).map_values(
                    |x: crate::config::deserialize::IssueView| other_view(x.message, x.span),
                );
                if b0 is None && f0 is None && i0 is None {
                    assert(mapped =~= origin_errors(v@));
                } else {
                    assert(mapped =~= origin_errors(v@));
                }
            }
            push_issues(issues, &mut errors);
            None
        },
    };
    assert(toml_errors_view(errors@) == e3 + origin_errors(v@));
    let vars = vars_key(v, &mut errors);
    let allowed = vec![String::from_str("builtin"), String::from_str("file"), String::from_str("inline"), String::from_str("vars")];
    assert(allowed@.map_values(|e: String| e@) =~= template_keys());
    check_keys(v, &allowed, &mut errors);
    assert(toml_errors_view(errors@) =~= template_errors(v@));
    match origin {
        Some(o) => {
            if errors.len() == 0 {
                Ok(TemplateConfig { origin: o, vars })
            } else {
                Err(errors)
            }
        },
        None => Err(errors),
    }
}

} // verus!

verus! {

/// Reads a required template key: a missing key is an error at the table.
fn template_key(v: &TomlValue, table_span: Span, errors: &mut Vec<TomlErrorInfo>) -> (r: Option<Spanned<TemplateConfig>>)
    requires
        v@ is Table,
    ensures
        (final(errors)@.len() == old(errors)@.len()) <==> (get(v@, "template"@) matches Some(t) && template_ok(t)),
        final(errors)@.len() >= old(errors)@.len(),
        r is Some <==> (get(v@, "template"@) matches Some(t) && template_ok(t)),
        r matches Some(x) ==> get(v@, "template"@) matches Some(t) && x.span == span_of(t) && reads_template(t, x.value),
        table_span == span_of(v@) ==> toml_errors_view(final(errors)@) == toml_errors_view(old(errors)@) + template_key_errors(v@),
{
    let ghost before = errors@;
    match table_value(v, "template") {
        None => {
            errors.push(missing_error("template", table_span));
            assert(toml_errors_view(errors@) =~= toml_errors_view(before) + seq![other_view(missing_field_text("template"@), table_span)]);
            None
        },
        Some(t) => match read_template(t) {
            Ok(x) => {
                assert(template_errors(t@) =~= Seq::<TomlErrorView>::empty());
                assert(toml_errors_view(errors@) =~= toml_errors_view(before) + template_key_errors(v@));
                Some(Spanned { value: x, span: span_value(t) })
            },
            Err(es) => {
                let ghost ev = es@;
                let mut es = es;
                errors.append(&mut es);
                assert(toml_errors_view(errors@) =~= toml_errors_view(before) + toml_errors_view(ev));
                None
            },
        },
    }
}

/// Reads a systemd unit table (see [`unit_ok`] and [`reads_unit`]).
pub fn read_unit(v: &TomlValue) -> (r: Result<SystemdUnitConfig, Vec<TomlErrorInfo>>)
    ensures
        r is Ok <==> unit_ok(v@),
        r matches Ok(u) ==> reads_unit(v@, u),
        r matches Err(es) ==> es@.len() > 0 && toml_errors_view(es@) == unit_errors(v@),
        r is Ok ==> unit_errors(v@).len() == 0,
{
    let span = match v {
        TomlValue::Table(_, sp) => *sp,
        other => {
            let es = vec![wanted_error("a table", other)];
            assert(toml_errors_view(es@) =~= unit_errors(v@));
            return Err(es);
        },
    };
    let mut errors: Vec<TomlErrorInfo> = Vec::new();
    assert(toml_errors_view(errors@) =~= Seq::<TomlErrorView>::empty());
    let filename_suffix = opt_string_key(v, "filename-suffix", &mut errors);
    let file_extension = opt_string_key(v, "file-extension", &mut errors);
    let template = template_key(v, span, &mut errors);
    let allowed = vec![String::from_str("filename-suffix"), String::from_str("file-extension"), String::from_str("template")];
    assert(allowed@.map_values(|e: String| e@) =~= unit_keys());
    check_keys(v, &allowed, &mut errors);
    assert(toml_errors_view(errors@) =~= unit_errors(v@));
    match template {
        Some(template) => {
            if errors.len() == 0 {
                Ok(SystemdUnitConfig { filename_suffix, file_extension, template })
            } else {
                Err(errors)
            }
        },
        None => Err(errors),
    }
}

/// Reads the artifacts table (see [`artifacts_ok`] and [`reads_artifacts`]).
pub fn read_artifacts(v: &TomlValue) -> (r: Result<ArtifactsConfig, Vec<TomlErrorInfo>>)
    ensures
        r is Ok <==> artifacts_ok(v@),
        r matches Ok(a) ==> reads_artifacts(v@, a),
        r matches Err(es) ==> es@.len() > 0 && toml_errors_view(es@) == artifacts_errors(v@),
        r is Ok ==> artifacts_errors(v@).len() == 0,
{
    let span = match v {
        TomlValue::Table(_, sp) => *sp,
        other => {
            let es = vec![wanted_error("a table", other)];
            assert(toml_errors_view(es@) =~= artifacts_errors(v@));
            return Err(es);
        },
    };
    let mut errors: Vec<TomlErrorInfo> = Vec::new();
    let path = match table_value(v, "path") {
        None => {
            errors.push(missing_error("path", span));
            None
        },
        Some(TomlValue::String(s, sp)) => Some(Spanned { value: s.clone(), span: *sp }),
        Some(x) => {
            errors.push(wanted_error("a string", x));
            None
        },
    };
    let ghost e1 = toml_errors_view(errors@);
    assert(e1 =~= match get(v@, "path"@) {
        Some(x) => if x is String { Seq::<TomlErrorView>::empty() } else { seq![wanted_view("a string"@, x)] },
        None => seq![missing_view("path"@, v@)],
    });
    let allowed = vec![String::from_str("path")];
    assert(allowed@.map_values(|e: String| e@) =~= seq!["path"@]);
    check_keys(v, &allowed, &mut errors);
    assert(toml_errors_view(errors@) =~= artifacts_errors(v@));
    match path {
        Some(path) => {
            if errors.len() == 0 {
                Ok(ArtifactsConfig { path })
            } else {
                Err(errors)
            }
        },
        None => Err(errors),
    }
}

/// Reads the network table (see [`network_ok`] and [`reads_network`]).
pub fn read_network(v: &TomlValue) -> (r: Result<NetworkConfig, Vec<TomlErrorInfo>>)
    ensures
        r is Ok <==> network_ok(v@),
        r matches Ok(n) ==> reads_network(v@, n),
        r matches Err(es) ==> es@.len() > 0 && toml_errors_view(es@) == network_errors(v@),
        r is Ok ==> network_errors(v@).len() == 0,
{
    match v {
        TomlValue::Table(..) => {},
        other => {
            let es = vec![wanted_error("a table", other)];
            assert(toml_errors_view(es@) =~= network_errors(v@));
            return Err(es);
        },
    }
    let mut errors: Vec<TomlErrorInfo> = Vec::new();
    let reserve_ports = match table_value(v, "reserve-ports") {
        None => None,
        Some(TomlValue::Integer(i, sp)) => {
            if 0 <= *i && *i <= 4294967295i64 {
                Some(Spanned { value: *i as u32, span: *sp })
            } else {
                errors.push(other_error(out_of_range_message("u32"), *sp));
                None
            }
        },
        Some(x) => {
            errors.push(wanted_error("u32", x));
            None
        },
    };
    let allowed = vec![String::from_str("reserve-ports")];
    let ghost e1 = toml_errors_view(errors@);
    assert(e1 =~= match get(v@, "reserve-ports"@) {
        Some(TomlView::Integer(i, sp)) => if 0 <= i <= u32::MAX { Seq::<TomlErrorView>::empty() } else { seq![other_view(out_of_range_text("u32"@), sp)] },
        Some(x) => seq![wanted_view("u32"@, x)],
        None => Seq::<TomlErrorView>::empty(),
    });
    assert(allowed@.map_values(|e: String| e@) =~= seq!["reserve-ports"@]);
    check_keys(v, &allowed, &mut errors);
    assert(toml_errors_view(errors@) =~= network_errors(v@));
    if errors.len() == 0 {
        Ok(NetworkConfig { reserve_ports })
    } else {
        Err(errors)
    }
}

/// Reads the Caddyfile table (see [`caddyfile_ok`] and [`reads_caddyfile`]).
pub fn read_caddyfile(v: &TomlValue) -> (r: Result<CaddyfileConfig, Vec<TomlErrorInfo>>)
    ensures
        r is Ok <==> caddyfile_ok(v@),
        r matches Ok(c) ==> reads_caddyfile(v@, c),
        r matches Err(es) ==> es@.len() > 0 && toml_errors_view(es@) == caddyfile_errors(v@),
        r is Ok ==> caddyfile_errors(v@).len() == 0,
{
    let span = match v {
        TomlValue::Table(_, sp) => *sp,
        other => {
            let es = vec![wanted_error("a table", other)];
            assert(toml_errors_view(es@) =~= caddyfile_errors(v@));
            return Err(es);
        },
    };
    let mut errors: Vec<TomlErrorInfo> = Vec::new();
    assert(toml_errors_view(errors@) =~= Seq::<TomlErrorView>::empty());
    let template = template_key(v, span, &mut errors);
    let allowed = vec![String::from_str("template")];
    assert(allowed@.map_values(|e: String| e@) =~= seq!["template"@]);
    check_keys(v, &allowed, &mut errors);
    assert(toml_errors_view(errors@) =~= caddyfile_errors(v@));
    match template {
        Some(template) => {
            if errors.len() == 0 {
                Ok(CaddyfileConfig { template })
            } else {
                Err(errors)
            }
        },
        None => Err(errors),
    }
}

} // verus!

verus! {

/// Reads the optional `systemd-unit` key: an array of systemd unit tables, read in order.
fn units_key(v: &TomlValue, errors: &mut Vec<TomlErrorInfo>) -> (r: Vec<Spanned<SystemdUnitConfig>>)
    requires
        v@ is Table,
    ensures
        (final(errors)@.len() == old(errors)@.len()) <==> units_ok(get(v@, "systemd-unit"@)),
        final(errors)@.len() >= old(errors)@.len(),
        units_ok(get(v@, "systemd-unit"@)) ==> match get(v@, "systemd-unit"@) {
            Some(TomlView::Array(items, _)) => r@.len() == items.len() && forall|k: int|
                0 <= k < items.len() ==> (#[trigger] r@[k]).span == span_of(items[k]) && reads_unit(items[k], r@[k].value),
            _ => r@.len() == 0,
        },
        toml_errors_view(final(errors)@) == toml_errors_view(old(errors)@) + units_errors(get(v@, "systemd-unit"@)),
{
    let e0 = errors.len();
    let ghost before = errors@;
    match table_value(v, "systemd-unit") {
        None => {
            assert(toml_errors_view(errors@) =~= toml_errors_view(before) + units_errors(get(v@, "systemd-unit"@)));
            Vec::new()
        },
        Some(x) => match x {
            TomlValue::Array(items, _) => {
                let ghost xv = x@;
                let mut out: Vec<Spanned<SystemdUnitConfig>> = Vec::new();
                let mut i: usize = 0;
                while i < items.len()
                    invariant
                        i <= items@.len(),
                        xv == x@,
                        xv is Array,
                        xv->Array_0.len() == items@.len(),
                        forall|k: int| 0 <= k < items@.len() ==> #[trigger] xv->Array_0[k] == toml_view(items@[k]),
                        errors@.len() >= e0,
                        (errors@.len() == e0) <==> forall|k: int| 0 <= k < i ==> unit_ok(#[trigger] xv->Array_0[k]),
                        errors@.len() == e0 ==> out@.len() == i && forall|k: int|
                            0 <= k < i ==> (#[trigger] out@[k]).span == span_of(xv->Array_0[k]) && reads_unit(xv->Array_0[k], out@[k].value),
                        before.len() == e0,
                        toml_errors_view(errors@) == toml_errors_view(before) + units_errors_upto(xv->Array_0, i as int),
                    decreases items@.len() - i,
                {
                    let ghost eb = errors@;
                    match read_unit(&items[i]) {
                        Ok(u) => {
                            out.push(Spanned { value: u, span: span_value(&items[i]) });
                            assert(unit_errors(xv->Array_0[i as int]) =~= Seq::<TomlErrorView>::empty());
                        },
                        Err(es) => {
                            let ghost ev = es@;
                            let mut es = es;
                            errors.append(&mut es);
                            assert(toml_errors_view(errors@) =~= toml_errors_view(eb) + toml_errors_view(ev));
                        },
                    }
                    assert(units_errors_upto(xv->Array_0, i + 1) == units_errors_upto(xv->Array_0, i as int) + unit_errors(xv->Array_0[i as int]));
                    assert(xv->Array_0[i as int] == toml_view(items@[i as int]));
                    assert(toml_errors_view(errors@) =~= toml_errors_view(before) + units_errors_upto(xv->Array_0, i + 1));
                    i = i + 1;
                }
                if errors.len() == e0 {
                    out
                } else {
                    Vec::new()
                }
            },
            other => {
                errors.push(wanted_error("an array", other));
                assert(toml_errors_view(errors@) =~= toml_errors_view(before) + units_errors(get(v@, "systemd-unit"@)));
                Vec::new()
            },
        },
    }
}

/// Reads a configuration document (see [`app_ok`] and [`reads_app`]): it is read whenever it is
/// as it should be; otherwise every problem found is reported, in order (see [`app_errors`]).
pub fn config_from_toml(v: &TomlValue) -> (r: Result<AppConfig, Vec<TomlErrorInfo>>)
    ensures
        r is Ok <==> app_ok(v@),
        r matches Ok(c) ==> reads_app(v@, c),
        r matches Err(es) ==> es@.len() > 0 && toml_errors_view(es@) == app_errors(v@),
        r is Ok ==> app_errors(v@).len() == 0,
{
    match v {
        TomlValue::Table(..) => {},
        other => {
            let es = vec![wanted_error("a table", other)];
            assert(toml_errors_view(es@) =~= app_errors(v@));
            return Err(es);
        },
    }
    let mut errors: Vec<TomlErrorInfo> = Vec::new();
    assert(toml_errors_view(errors@) =~= Seq::<TomlErrorView>::empty());
    let artifacts = match table_value(v, "artifacts") {
        None => None,
        Some(a) => match read_artifacts(a) {
            Ok(x) => Some(Spanned { value: x, span: span_value(a) }),
            Err(es) => {
                let ghost ev = es@;
                let mut es = es;
                errors.append(&mut es);
                assert(toml_errors_view(errors@) =~= toml_errors_view(ev));
                None
            },
        },
    };
    assert(toml_errors_view(errors@) =~= artifacts_key_errors(v@));
    let ghost e1 = toml_errors_view(errors@);
    let network = match table_value(v, "network") {
        None => None,
        Some(n) => match read_network(n) {
            Ok(x) => Some(Spanned { value: x, span: span_value(n) }),
            Err(es) => {
                let ghost ev = es@;
                let mut es = es;
                errors.append(&mut es);
                assert(toml_errors_view(errors@) =~= e1 + toml_errors_view(ev));
                None
            },
        },
    };
    assert(toml_errors_view(errors@) =~= e1 + network_key_errors(v@));
    let ghost e2 = toml_errors_view(errors@);
    let caddyfile = match table_value(v, "caddyfile") {
        None => None,
        Some(c) => match read_caddyfile(c) {
            Ok(x) => Some(Spanned { value: x, span: span_value(c) }),
            Err(es) => {
                let ghost ev = es@;
                let mut es = es;
                errors.append(&mut es);
                assert(toml_errors_view(errors@) =~= e2 + toml_errors_view(ev));
                None
            },
        },
    };
    assert(toml_errors_view(errors@) =~= e2 + caddyfile_key_errors(v@));
    let systemd_units = units_key(v, &mut errors);
    let allowed = vec![
        String::from_str("artifacts"),
        String::from_str("network"),
        String::from_str("caddyfile"),
        String::from_str("systemd-unit"),
    ];
    assert(allowed@.map_values(|e: String| e@) =~= app_keys());
    check_keys(v, &allowed, &mut errors);
    assert(toml_errors_view(errors@) =~= app_errors(v@));
    if errors.len() == 0 {
        Ok(AppConfig { artifacts, network, caddyfile, systemd_units })
    } else {
        Err(errors)
    }
}

/// What loading a configuration text gives: when `toml_span` cannot parse it, the report of
/// that error; when the document is not as it should be (see [`app_ok`]), the report of the
/// problems found (see [`app_errors`]); otherwise what was read (see [`reads_app`]), validated.
pub open spec fn load_outcome(
    app: Seq<char>,
    text: Seq<char>,
    source: crate::util::SourceView,
    r: Result<AppConfig, Diagnostic>,
) -> bool {
    match toml_parse_result(text) {
        Err(e) => r matches Err(d) && exists|es: Seq<TomlErrorInfo>|
            es.len() == 1 && toml_error_view(es[0]) == e && d@ == #[trigger] toml_error_report(es, source),
        Ok(v) => if app_ok(v) {
            exists|c: AppConfig| #[trigger] reads_app(v, c) && if validation_errors(app, c.systemd_units@).len() == 0 {
                r matches Ok(x) && x == c
            } else {
                r matches Err(d) && d@ == validation_report(validation_errors(app, c.systemd_units@), source)
            }
        } else {
            r matches Err(d) && exists|es: Seq<TomlErrorInfo>|
                toml_errors_view(es) == app_errors(v) && d@ == #[trigger] toml_error_report(es, source)
        },
    }
}

/// Reads and validates a configuration text (see [`load_outcome`]); errors point into `source`.
pub fn load_from_str(app_name: &AppName, config_toml: &str, source: SourceRef) -> (r: Result<AppConfig, Diagnostic>)
    ensures
        load_outcome(app_name@, config_toml@, source@, r),
{
    let ghost sv = source@;
    let read = match parse_toml(config_toml) {
        Err(e) => {
            let mut es: Vec<TomlErrorInfo> = Vec::new();
            es.push(e);
            Err(es)
        },
        Ok(doc) => {
            config_from_toml(&doc)
        },
    };
    finish_load(app_name, read, source)
}

} // verus!

verus! {

pub open spec fn toml_errors_view(es: Seq<TomlErrorInfo>) -> Seq<TomlErrorView> {
    es.map_values(|e: TomlErrorInfo| toml_error_view(e))
}

pub open spec fn other_view(message: Seq<char>, span: Span) -> TomlErrorView {
    TomlErrorView { kind: TomlErrorKindView::Other, message, span }
}

/// The error that a value is not of the expected type, at the value.
pub open spec fn wanted_view(expected: Seq<char>, v: TomlView) -> TomlErrorView {
    other_view(wanted_text(expected, toml_type_text(v)), span_of(v))
}

/// The error that a required key is missing, at the table.
pub open spec fn missing_view(field: Seq<char>, table: TomlView) -> TomlErrorView {
    other_view(missing_field_text(field), span_of(table))
}

/// The keys among `es` that are not among `allowed`, each with its span, in order.
pub open spec fn unexpected_in(es: Seq<(Seq<char>, Span, TomlView)>, allowed: Seq<Seq<char>>) -> Seq<(Seq<char>, Span)>
    decreases es.len(),
{
    if es.len() == 0 {
        Seq::empty()
    } else {
        let rest = unexpected_in(es.drop_last(), allowed);
        if allowed.contains(es.last().0) {
            rest
        } else {
            rest.push((es.last().0, es.last().1))
        }
    }
}

/// The error about the keys of a table that are not among `allowed`: none when every key is.
pub open spec fn keys_errors(v: TomlView, allowed: Seq<Seq<char>>) -> Seq<TomlErrorView> {
    let ks = unexpected_in(v->Table_0, allowed);
    if ks.len() == 0 {
        Seq::empty()
    } else {
        seq![TomlErrorView { kind: TomlErrorKindView::UnexpectedKeys(ks), message: unexpected_keys_text(ks, allowed), span: span_of(v) }]
    }
}

/// The error about an optional string key: a value of another type.
pub open spec fn opt_string_errors(o: Option<TomlView>) -> Seq<TomlErrorView> {
    match o {
        Some(x) => if x is String { Seq::empty() } else { seq![wanted_view("a string"@, x)] },
        None => Seq::empty(),
    }
}

/// The span of an optional string key that holds a string.
pub open spec fn string_span(o: Option<TomlView>) -> Option<Span> {
    match o {
        Some(TomlView::String(_, sp)) => Some(sp),
        _ => None,
    }
}

/// The errors about a template's origin: none when exactly one of `builtin`, `file` and
/// `inline` holds a string; the missing source at the table when none does; each of them
/// otherwise.
pub open spec fn origin_errors(v: TomlView) -> Seq<TomlErrorView> {
    let b = string_span(get(v, "builtin"@));
    let f = string_span(get(v, "file"@));
    let i = string_span(get(v, "inline"@));
    let present = (match b { Some(s) => seq![s], None => Seq::empty() }) + (match f { Some(s) => seq![s], None => Seq::empty() })
        + (match i { Some(s) => seq![s], None => Seq::empty() });
    if present.len() == 1 {
        Seq::empty()
    } else if present.len() == 0 {
        seq![other_view(crate::config::deserialize::missing_source_message(), span_of(v))]
    } else {
        present.map_values(|s: Span| other_view(crate::config::deserialize::conflicting_source_message(), s))
    }
}

/// The error about `vars`: a value that is not a table.
pub open spec fn vars_errors(v: TomlView) -> Seq<TomlErrorView> {
    match get(v, "vars"@) {
        Some(x) => if x is Table { Seq::empty() } else { seq![wanted_view("a table"@, x)] },
        None => Seq::empty(),
    }
}

/// The errors of a template table, in the order in which its keys are read.
pub open spec fn template_errors(v: TomlView) -> Seq<TomlErrorView> {
    if !(v is Table) {
        seq![wanted_view("a table"@, v)]
    } else {
        opt_string_errors(get(v, "builtin"@)) + opt_string_errors(get(v, "file"@)) + opt_string_errors(get(v, "inline"@))
            + origin_errors(v) + vars_errors(v) + keys_errors(v, template_keys())
    }
}

/// The errors of a required `template` key.
pub open spec fn template_key_errors(v: TomlView) -> Seq<TomlErrorView> {
    match get(v, "template"@) {
        Some(t) => template_errors(t),
        None => seq![missing_view("template"@, v)],
    }
}

pub open spec fn unit_errors(v: TomlView) -> Seq<TomlErrorView> {
    if !(v is Table) {
        seq![wanted_view("a table"@, v)]
    } else {
        opt_string_errors(get(v, "filename-suffix"@)) + opt_string_errors(get(v, "file-extension"@)) + template_key_errors(v)
            + keys_errors(v, unit_keys())
    }
}

pub open spec fn artifacts_errors(v: TomlView) -> Seq<TomlErrorView> {
    if !(v is Table) {
        seq![wanted_view("a table"@, v)]
    } else {
        (match get(v, "path"@) {
            Some(x) => if x is String { Seq::empty() } else { seq![wanted_view("a string"@, x)] },
            None => seq![missing_view("path"@, v)],
        }) + keys_errors(v, seq!["path"@])
    }
}

pub open spec fn network_errors(v: TomlView) -> Seq<TomlErrorView> {
    if !(v is Table) {
        seq![wanted_view("a table"@, v)]
    } else {
        (match get(v, "reserve-ports"@) {
            Some(TomlView::Integer(i, sp)) => if 0 <= i <= u32::MAX { Seq::empty() } else { seq![other_view(out_of_range_text("u32"@), sp)] },
            Some(x) => seq![wanted_view("u32"@, x)],
            None => Seq::empty(),
        }) + keys_errors(v, seq!["reserve-ports"@])
    }
}

pub open spec fn caddyfile_errors(v: TomlView) -> Seq<TomlErrorView> {
    if !(v is Table) {
        seq![wanted_view("a table"@, v)]
    } else {
        template_key_errors(v) + keys_errors(v, seq!["template"@])
    }
}

/// The errors of the first `n` systemd units, in order.
pub open spec fn units_errors_upto(items: Seq<TomlView>, n: int) -> Seq<TomlErrorView>
    decreases n,
{
    if n <= 0 {
        Seq::empty()
    } else {
        units_errors_upto(items, n - 1) + unit_errors(items[n - 1])
    }
}

pub open spec fn units_errors(o: Option<TomlView>) -> Seq<TomlErrorView> {
    match o {
        Some(TomlView::Array(items, _)) => units_errors_upto(items, items.len() as int),
        Some(x) => seq![wanted_view("an array"@, x)],
        None => Seq::empty(),
    }
}

/// The errors of the optional tables of a configuration document.
pub open spec fn artifacts_key_errors(v: TomlView) -> Seq<TomlErrorView> {
    match get(v, "artifacts"@) {
        Some(x) => artifacts_errors(x),
        None => Seq::empty(),
    }
}

pub open spec fn network_key_errors(v: TomlView) -> Seq<TomlErrorView> {
    match get(v, "network"@) {
        Some(x) => network_errors(x),
        None => Seq::empty(),
    }
}

pub open spec fn caddyfile_key_errors(v: TomlView) -> Seq<TomlErrorView> {
    match get(v, "caddyfile"@) {
        Some(x) => caddyfile_errors(x),
        None => Seq::empty(),
    }
}

/// The errors of a configuration document, in the order in which its tables and keys are read:
/// `artifacts`, `network`, `caddyfile`, `systemd-unit`, then the keys that are not accepted.
pub open spec fn app_errors(v: TomlView) -> Seq<TomlErrorView> {
    if !(v is Table) {
        seq![wanted_view("a table"@, v)]
    } else {
        artifacts_key_errors(v) + network_key_errors(v) + caddyfile_key_errors(v) + units_errors(get(v, "systemd-unit"@))
            + keys_errors(v, app_keys())
    }
}

} // verus!

verus! {

proof fn lemma_keys_errors(v: TomlView, allowed: Seq<Seq<char>>)
    requires
        v is Table,
    ensures
        only_keys(v, allowed) <==> keys_errors(v, allowed).len() == 0,
{
    lemma_unexpected_in(v->Table_0, allowed);
}

proof fn lemma_unexpected_in(es: Seq<(Seq<char>, Span, TomlView)>, allowed: Seq<Seq<char>>)
    ensures
        (forall|i: int| 0 <= i < es.len() ==> allowed.contains(#[trigger] es[i].0)) <==> unexpected_in(es, allowed).len() == 0,
    decreases es.len(),
{
    if es.len() > 0 {
        let init = es.drop_last();
        lemma_unexpected_in(init, allowed);
        assert forall|i: int| 0 <= i < init.len() implies #[trigger] init[i] == es[i] by {}
        if forall|i: int| 0 <= i < es.len() ==> allowed.contains(#[trigger] es[i].0) {
            assert(allowed.contains(es[es.len() - 1].0));
            assert forall|i: int| 0 <= i < init.len() implies allowed.contains(#[trigger] init[i].0) by {
                assert(allowed.contains(es[i].0));
            }
        }
        if unexpected_in(es, allowed).len() == 0 {
            assert forall|i: int| 0 <= i < es.len() implies allowed.contains(#[trigger] es[i].0) by {
                if i < es.len() - 1 {
                    assert(allowed.contains(init[i].0));
                }
            }
        }
    }
}

proof fn lemma_template_errors(v: TomlView)
    ensures
        template_ok(v) <==> template_errors(v).len() == 0,
{
    if v is Table {
        lemma_keys_errors(v, template_keys());
    }
}

proof fn lemma_template_key_errors(v: TomlView)
    requires
        v is Table,
    ensures
        (get(v, "template"@) matches Some(t) && template_ok(t)) <==> template_key_errors(v).len() == 0,
{
    if let Some(t) = get(v, "template"@) {
        lemma_template_errors(t);
    }
}

proof fn lemma_unit_errors(v: TomlView)
    ensures
        unit_ok(v) <==> unit_errors(v).len() == 0,
{
    if v is Table {
        lemma_keys_errors(v, unit_keys());
        lemma_template_key_errors(v);
    }
}

proof fn lemma_units_errors_upto(items: Seq<TomlView>, n: int)
    requires
        0 <= n <= items.len(),
    ensures
        (forall|k: int| 0 <= k < n ==> unit_ok(#[trigger] items[k])) <==> units_errors_upto(items, n).len() == 0,
    decreases n,
{
    if n > 0 {
        lemma_units_errors_upto(items, n - 1);
        lemma_unit_errors(items[n - 1]);
        if units_errors_upto(items, n).len() == 0 {
            assert forall|k: int| 0 <= k < n implies unit_ok(#[trigger] items[k]) by {
                if k < n - 1 {
                    assert(units_errors_upto(items, n - 1).len() == 0);
                }
            }
        }
    }
}

/// A configuration document is read exactly when no problem is found in it: [`app_ok`] holds
/// just when [`app_errors`] lists nothing.
pub proof fn lemma_read_iff_no_errors(v: TomlView)
    ensures
        app_ok(v) <==> app_errors(v).len() == 0,
{
    if v is Table {
        lemma_keys_errors(v, app_keys());
        if let Some(a) = get(v, "artifacts"@) {
            if a is Table {
                lemma_keys_errors(a, seq!["path"@]);
            }
        }
        if let Some(n) = get(v, "network"@) {
            if n is Table {
                lemma_keys_errors(n, seq!["reserve-ports"@]);
            }
        }
        if let Some(c) = get(v, "caddyfile"@) {
            if c is Table {
                lemma_keys_errors(c, seq!["template"@]);
                lemma_template_key_errors(c);
            }
        }
        if let Some(TomlView::Array(items, _)) = get(v, "systemd-unit"@) {
            lemma_units_errors_upto(items, items.len() as int);
        }
    }
}

} // verus!

verus! {

/// A template table whose keys are one source key (`builtin`, `file` or `inline`) holding a
/// string and, if there, a `vars` table, is read successfully, with the origin that key names
/// holding that string, at that string's span.
pub proof fn lemma_single_source_template_read(v: TomlView, source: Seq<char>, s: Seq<char>, sp: Span)
    requires
        source == "builtin"@ || source == "file"@ || source == "inline"@,
        v is Table,
        forall|i: int| 0 <= i < v->Table_0.len() ==> #[trigger] v->Table_0[i].0 == source || v->Table_0[i].0 == "vars"@,
        get(v, source) == Some(TomlView::String(s, sp)),
        get(v, "vars"@) matches Some(x) ==> x is Table,
    ensures
        template_ok(v),
        forall|t: TemplateConfig| #[trigger] reads_template(v, t) ==> t.origin.span == sp,
        source == "builtin"@ ==> forall|t: TemplateConfig| #[trigger] reads_template(v, t)
            ==> (t.origin.value matches TemplateOrigin::Builtin(n) && n@ == s),
        source == "file"@ ==> forall|t: TemplateConfig| #[trigger] reads_template(v, t)
            ==> (t.origin.value matches TemplateOrigin::File(p) && p@ == s),
        source == "inline"@ ==> forall|t: TemplateConfig| #[trigger] reads_template(v, t)
            ==> (t.origin.value matches TemplateOrigin::Inline(x) && x.value@ == s),
{
    reveal_strlit("builtin");
    reveal_strlit("file");
    reveal_strlit("inline");
    reveal_strlit("vars");
    let keys = seq!["builtin"@, "file"@, "inline"@, "vars"@];
    assert(keys[0] != keys[1] && keys[0] != keys[2] && keys[0] != keys[3]) by {
        assert(keys[0].len() != keys[1].len() && keys[0][0] != keys[2][0] && keys[0].len() != keys[3].len());
    }
    assert(keys[1] != keys[2] && keys[1] != keys[3] && keys[2] != keys[3]) by {
        assert(keys[1].len() != keys[2].len() && keys[1][0] != keys[3][0] && keys[2].len() != keys[3].len());
    }
    let es = v->Table_0.map_values(|e: (Seq<char>, Span, TomlView)| (e.0, e.2));
    assert forall|k: Seq<char>| k != source && k != "vars"@ implies #[trigger] get(v, k) is None by {
        assert forall|j: int| 0 <= j < es.len() implies es[j].0 != k by {
            assert(es[j].0 == v->Table_0[j].0);
        }
        lemma_lookup_absent(es, k);
    }
    assert(template_keys() == keys);
    assert forall|i: int| 0 <= i < v->Table_0.len() implies template_keys().contains(#[trigger] v->Table_0[i].0) by {
        if v->Table_0[i].0 == "vars"@ {
            assert(keys[3] == "vars"@);
        } else if source == "builtin"@ {
            assert(keys[0] == source);
        } else if source == "file"@ {
            assert(keys[1] == source);
        } else {
            assert(keys[2] == source);
        }
    }
    if source == "builtin"@ {
        assert(get(v, "file"@) is None);
        assert(get(v, "inline"@) is None);
    } else if source == "file"@ {
        assert(get(v, "builtin"@) is None);
        assert(get(v, "inline"@) is None);
    } else {
        assert(get(v, "builtin"@) is None);
        assert(get(v, "file"@) is None);
    }
}

} // verus!

verus! {

/// A systemd unit table whose keys are among `filename-suffix`, `file-extension` (strings if
/// there) and `template` (a template table as it should be) is read successfully.
pub proof fn lemma_unit_table_read(v: TomlView)
    requires
        v is Table,
        forall|i: int|
            0 <= i < v->Table_0.len() ==> #[trigger] v->Table_0[i].0 == "filename-suffix"@ || v->Table_0[i].0
                == "file-extension"@ || v->Table_0[i].0 == "template"@,
        opt_string(get(v, "filename-suffix"@)),
        opt_string(get(v, "file-extension"@)),
        get(v, "template"@) matches Some(t) && template_ok(t),
    ensures
        unit_ok(v),
{
    let keys = unit_keys();
    assert(keys[0] == "filename-suffix"@ && keys[1] == "file-extension"@ && keys[2] == "template"@);
    assert forall|i: int| 0 <= i < v->Table_0.len() implies keys.contains(#[trigger] v->Table_0[i].0) by {
        if v->Table_0[i].0 == "filename-suffix"@ {
            assert(keys[0] == v->Table_0[i].0);
        } else if v->Table_0[i].0 == "file-extension"@ {
            assert(keys[1] == v->Table_0[i].0);
        } else {
            assert(keys[2] == v->Table_0[i].0);
        }
    }
}

/// A configuration document whose keys are among `artifacts`, `network`, `caddyfile` and
/// `systemd-unit`, each as it should be, is read successfully.
pub proof fn lemma_app_table_read(v: TomlView)
    requires
        v is Table,
        forall|i: int|
            0 <= i < v->Table_0.len() ==> #[trigger] v->Table_0[i].0 == "artifacts"@ || v->Table_0[i].0 == "network"@
                || v->Table_0[i].0 == "caddyfile"@ || v->Table_0[i].0 == "systemd-unit"@,
        get(v, "artifacts"@) matches Some(a) ==> artifacts_ok(a),
        get(v, "network"@) matches Some(n) ==> network_ok(n),
        get(v, "caddyfile"@) matches Some(c) ==> caddyfile_ok(c),
        units_ok(get(v, "systemd-unit"@)),
    ensures
        app_ok(v),
{
    let keys = app_keys();
    assert(keys[0] == "artifacts"@ && keys[1] == "network"@ && keys[2] == "caddyfile"@ && keys[3] == "systemd-unit"@);
    assert forall|i: int| 0 <= i < v->Table_0.len() implies keys.contains(#[trigger] v->Table_0[i].0) by {
        if v->Table_0[i].0 == "artifacts"@ {
            assert(keys[0] == v->Table_0[i].0);
        } else if v->Table_0[i].0 == "network"@ {
            assert(keys[1] == v->Table_0[i].0);
        } else if v->Table_0[i].0 == "caddyfile"@ {
            assert(keys[2] == v->Table_0[i].0);
        } else {
            assert(keys[3] == v->Table_0[i].0);
        }
    }
}

/// The `[artifacts]` table is read when its only key is `path`, a string; the `[network]`
/// table when its only key, if any, is `reserve-ports`, an integer from 0 to `u32::MAX`; and
/// the `[caddyfile]` table when its only key is `template`, a template table as it should be.
pub proof fn lemma_section_tables_read(a: TomlView, n: TomlView, c: TomlView)
    ensures
        (a is Table && (forall|i: int| 0 <= i < a->Table_0.len() ==> #[trigger] a->Table_0[i].0 == "path"@) && get(
            a,
            "path"@,
        ) matches Some(TomlView::String(_, _))) ==> artifacts_ok(a),
        (n is Table && (forall|i: int| 0 <= i < n->Table_0.len() ==> #[trigger] n->Table_0[i].0 == "reserve-ports"@)
            && (get(n, "reserve-ports"@) matches Some(x) ==> x matches TomlView::Integer(p, _) && 0 <= p <= u32::MAX))
            ==> network_ok(n),
        (c is Table && (forall|i: int| 0 <= i < c->Table_0.len() ==> #[trigger] c->Table_0[i].0 == "template"@)
            && (get(c, "template"@) matches Some(t) && template_ok(t))) ==> caddyfile_ok(c),
{
    assert(seq!["path"@][0] == "path"@);
    assert(seq!["reserve-ports"@][0] == "reserve-ports"@);
    assert(seq!["template"@][0] == "template"@);
}

} // verus!

verus! {

/// A TOML value as a template value: strings as their text, integers as the JSON numbers
/// `serde_json` makes of them, floats and booleans as scalars, arrays as lists and tables as
/// objects, element by element and key by key.
pub open spec fn toml_ctx(t: TomlView) -> crate::templating::context::CtxView
    decreases t,
{
    match t {
        TomlView::String(s, _) => crate::templating::context::CtxView::Str(s),
        TomlView::Integer(i, _) => crate::templating::context::CtxView::Scalar(JsonScalar::Number(i64_number(i))),
        TomlView::Float(x, _) => crate::templating::context::CtxView::Scalar(JsonScalar::Float(x)),
        TomlView::Boolean(b, _) => crate::templating::context::CtxView::Scalar(JsonScalar::Bool(b)),
        TomlView::Array(items, _) => crate::templating::context::CtxView::List(
            Seq::new(
                items.len(),
                |i: int|
                    if 0 <= i < items.len() {
                        toml_ctx(items[i])
                    } else {
                        crate::templating::context::CtxView::Str(Seq::empty())
                    },
            ),
        ),
        TomlView::Table(es, _) => crate::templating::context::CtxView::Object(
            Seq::new(
                es.len(),
                |i: int|
                    if 0 <= i < es.len() {
                        (es[i].0, toml_ctx(es[i].2))
                    } else {
                        (Seq::empty(), crate::templating::context::CtxView::Str(Seq::empty()))
                    },
            ),
        ),
    }
}

/// A variable written in `vade.toml` is seen by templates as it was written: every element of
/// every array and every key of every table, in order.
pub proof fn lemma_toml_value_seen_as_written(t: TomlView, u: UserVarView)
    requires
        is_toml_user_var(t, u),
    ensures
        crate::config::user_var_ctx(u) == toml_ctx(t),
    decreases t,
{
    match t {
        TomlView::Array(items, _) => {
            let us = u->List_0;
            assert forall|i: int| 0 <= i < items.len() implies crate::config::user_var_ctx(#[trigger] us[i]) == toml_ctx(
                items[i],
            ) by {
                lemma_toml_value_seen_as_written(items[i], us[i]);
            }
            assert(crate::config::user_var_ctx(u)->List_0 =~= toml_ctx(t)->List_0);
        },
        TomlView::Table(es, _) => {
            let us = u->Object_0;
            assert forall|i: int| 0 <= i < es.len() implies crate::config::user_var_ctx(#[trigger] us[i].1) == toml_ctx(
                es[i].2,
            ) by {
                lemma_toml_value_seen_as_written(es[i].2, us[i].1);
            }
            assert(crate::config::user_var_ctx(u)->Object_0 =~= toml_ctx(t)->Object_0);
        },
        _ => {},
    }
}

} // verus!
