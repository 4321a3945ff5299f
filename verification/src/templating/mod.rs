//! Templates: where they come from, and how rendering errors are reported.

use vstd::prelude::*;
use crate::config::{UserVarString, UserVarStringOrigin};
use crate::text::{
    has_prefix, starts_with, substring, trim, trim_exec, push_char,
};
use vstd::utf8::{encode_utf8, decode_utf8, is_char_boundary, valid_utf8};
use vstd::string::StringSliceAdditionalSpecFns;
pub mod base;
pub mod context;
pub mod render;

use crate::util::{
    Diagnostic, DiagnosticView, SourceRef, SourceView, Span, diagnostic, diagnostic_with_help,
    single_label_view,
};

verus! {

/// The kinds of built-in templates.
#[derive(Copy, Clone, Debug, PartialEq, Eq, Structural)]
pub enum BuiltinTemplateKind {
    Caddyfile,
    SystemdUnit,
    Internal,
}

pub open spec fn builtin_kind_name(kind: BuiltinTemplateKind) -> Seq<char> {
    match kind {
        BuiltinTemplateKind::Caddyfile => "Caddyfile"@,
        BuiltinTemplateKind::SystemdUnit => "systemd unit"@,
        BuiltinTemplateKind::Internal => "internal"@,
    }
}

impl BuiltinTemplateKind {
    pub fn as_str(&self) -> (r: &'static str)
        ensures
            r@ == builtin_kind_name(*self),
    {
        match self {
            BuiltinTemplateKind::Caddyfile => "Caddyfile",
            BuiltinTemplateKind::SystemdUnit => "systemd unit",
            BuiltinTemplateKind::Internal => "internal",
        }
    }
}

/// The texts of the templates that ship with vade.
#[derive(Clone, Debug)]
pub struct BuiltinTemplates {
    /// Caddyfile template `static-files`
    pub caddyfile_static_files: String,
    /// Caddyfile template `reverse-proxy`
    pub caddyfile_reverse_proxy: String,
    /// systemd unit template `webapp.service`
    pub systemd_webapp_service: String,
    /// Internal building block `shared/header.py.j2`
    pub header: String,
    /// Internal building block `shared/create-tasks.py.j2`
    pub create_tasks: String,
    /// Internal building block `deploy-promote.sh.j2`
    pub promote_script: String,
    /// The pyinfra deploy of `vade deploy`
    pub deploy: String,
    /// The pyinfra deploy of `vade create`
    pub create: String,
    /// The pyinfra deploy of `vade destroy`
    pub destroy: String,
    /// The pyinfra deploy of `vade server-setup`
    pub server_setup: String,
    /// The port-assignment script installed by `vade server-setup`
    pub assign_ports_script: String,
}

/// The built-in template of a kind with a given name, if there is one: the Caddyfile templates
/// `static-files` and `reverse-proxy`, and the systemd unit template `webapp.service`.
pub open spec fn builtin_source(kind: BuiltinTemplateKind, name: Seq<char>, b: BuiltinTemplates) -> Option<Seq<char>> {
    match kind {
        BuiltinTemplateKind::Caddyfile => if name == "static-files"@ {
            Some(b.caddyfile_static_files@)
        } else if name == "reverse-proxy"@ {
            Some(b.caddyfile_reverse_proxy@)
        } else {
            None
        },
        BuiltinTemplateKind::SystemdUnit => if name == "webapp.service"@ {
            Some(b.systemd_webapp_service@)
        } else {
            None
        },
        BuiltinTemplateKind::Internal => None,
    }
}

impl BuiltinTemplateKind {
    /// Looks up a user-selectable built-in template by name.
    pub fn get_builtin_source(&self, name: &str, builtins: &BuiltinTemplates) -> (r: Option<String>)
        ensures
            match builtin_source(*self, name@, *builtins) {
                Some(t) => r matches Some(s) && s@ == t,
                None => r is None,
            },
    {
        match self {
            BuiltinTemplateKind::Caddyfile => if crate::text::str_eq(name, "static-files") {
                Some(builtins.caddyfile_static_files.clone())
            } else if crate::text::str_eq(name, "reverse-proxy") {
                Some(builtins.caddyfile_reverse_proxy.clone())
            } else {
                None
            },
            BuiltinTemplateKind::SystemdUnit => if crate::text::str_eq(name, "webapp.service") {
                Some(builtins.systemd_webapp_service.clone())
            } else {
                None
            },
            BuiltinTemplateKind::Internal => None,
        }
    }
}

/// A template string together with where it came from.
#[derive(Debug)]
pub struct TemplateSource {
    /// The template string
    pub value: String,
    /// Metadata about where the template came from (e.g., a file, inline configuration, etc.)
    pub meta: TemplateSourceMeta,
}

#[derive(Debug)]
pub enum TemplateSourceMeta {
    Builtin { id: String, kind: BuiltinTemplateKind },
    File { path: String },
    Inline { span: Span },
    Cli { hint: String },
}

/// The text of the help line attached to errors in a string assigned through `--set`.
pub open spec fn cli_hint(path: Seq<char>) -> Seq<char> {
    "this template string was assigned to `"@ + path + "` through the `--set` flag"@
}

impl TemplateSource {
    pub fn builtin(id: String, kind: BuiltinTemplateKind, value: String) -> (r: Self)
        ensures
            r.value@ == value@,
            r.meta matches TemplateSourceMeta::Builtin { id: i, kind: k } && i@ == id@ && k == kind,
    {
        Self { value, meta: TemplateSourceMeta::Builtin { id, kind } }
    }

    pub fn file(path: String, value: String) -> (r: Self)
        ensures
            r.value@ == value@,
            r.meta matches TemplateSourceMeta::File { path: p } && p@ == path@,
    {
        Self { value, meta: TemplateSourceMeta::File { path } }
    }

    pub fn inline(span: Span, value: String) -> (r: Self)
        ensures
            r.value@ == value@,
            r.meta == (TemplateSourceMeta::Inline { span }),
    {
        Self { value, meta: TemplateSourceMeta::Inline { span } }
    }

    /// The source of a user-provided string variable, which is itself rendered as a template.
    pub fn from_user_var(user_var: &UserVarString) -> (r: TemplateSource)
        ensures
            r.value@ == user_var.value@,
            match user_var.origin {
                UserVarStringOrigin::Cli { path } => r.meta matches TemplateSourceMeta::Cli { hint }
                    && hint@ == cli_hint(path@),
                UserVarStringOrigin::Toml(span) => r.meta == (TemplateSourceMeta::Inline { span }),
            },
    {
        let meta = match &user_var.origin {
            UserVarStringOrigin::Cli { path } => TemplateSourceMeta::Cli {
                hint: String::from_str("this template string was assigned to `").concat(
                    path.as_str(),
                ).concat("` through the `--set` flag"),
            },
            UserVarStringOrigin::Toml(span) => TemplateSourceMeta::Inline { span: *span },
        };
        TemplateSource { value: user_var.value.clone(), meta }
    }
}

/// A TOML source file and the filesystem path it was read from
#[derive(Clone, Debug)]
pub struct TomlSource {
    pub path: String,
    pub value: String,
}

impl TomlSource {
    pub fn to_named_source(&self) -> (r: SourceRef)
        ensures
            r matches SourceRef::Named { name, text } && name@ == self.path@ && text@ == self.value@,
    {
        SourceRef::Named { name: self.path.clone(), text: self.value.clone() }
    }
}

/// The kinds of template errors that the library tells apart.
#[derive(Copy, Clone, Debug, PartialEq, Eq, Structural)]
pub enum TemplateErrorKind {
    /// An operation on an undefined value.
    Undefined,
    /// A syntax error in the template.
    Syntax,
    /// Any other kind.
    Other,
}

/// A template engine error, as plain values.
#[derive(Clone, Debug, PartialEq, Eq)]
pub struct TemplateError {
    pub kind: TemplateErrorKind,
    /// The kind's description (e.g. `undefined value`).
    pub kind_description: String,
    /// Further details, if any.
    pub detail: Option<String>,
    /// The byte range of the failing expression in the template, if known.
    pub range: Option<(usize, usize)>,
}

/// The key of a `vars.*` expression: what follows `vars.` up to the first `.` or `[`.
pub open spec fn var_key(s: Seq<char>) -> Seq<char>
    decreases s.len(),
{
    if s.len() == 0 || s[0] == '.' || s[0] == '[' {
        Seq::empty()
    } else {
        seq![s[0]] + var_key(s.drop_first())
    }
}

pub open spec fn vars_prefix() -> Seq<char> {
    "vars."@
}

/// The help text that tells the user to declare the variable `key`.
pub open spec fn missing_var_message(key: Seq<char>) -> Seq<char> {
    "`"@ + key + "` is a user-defined variable. Declare it in your `vade.toml` file under the relevant template's `vars`, e.g. `vars = { "@
        + key + " = ... }`, or inject it through the CLI using the `--set` option."@
}

/// When an undefined-value error points at a `vars.<key>...` expression (with a non-empty key),
/// the hint telling the user to declare that variable; otherwise none.
pub open spec fn missing_user_var_hint_spec(kind: TemplateErrorKind, expr: Seq<char>) -> Option<Seq<char>> {
    let t = trim(expr);
    if kind != TemplateErrorKind::Undefined || !has_prefix(t, vars_prefix()) {
        None
    } else {
        let key = var_key(t.subrange(vars_prefix().len() as int, t.len() as int));
        if key.len() == 0 {
            None
        } else {
            Some(missing_var_message(key))
        }
    }
}

fn var_key_exec(s: &str) -> (r: String)
    ensures
        r@ == var_key(s@),
{
    let n = s.unicode_len();
    let mut i: usize = 0;
    let mut out = String::new();
    assert(s@.subrange(0, n as int) =~= s@);
    assert(out@ + var_key(s@) =~= var_key(s@));
    while i < n
        invariant
            n == s@.len(),
            i <= n,
            var_key(s@) == out@ + var_key(s@.subrange(i as int, n as int)),
        decreases n - i,
    {
        let c = s.get_char(i);
        let ghost rest = s@.subrange(i as int, n as int);
        assert(rest[0] == c);
        if c == '.' || c == '[' {
            assert(var_key(rest) == Seq::<char>::empty());
            assert(out@ + Seq::<char>::empty() =~= out@);
            return out;
        }
        push_char(&mut out, c);
        i = i + 1;
        assert(rest.drop_first() =~= s@.subrange(i as int, n as int));
        assert(var_key(rest) == seq![c] + var_key(rest.drop_first()));
        assert(out@ + var_key(rest.drop_first()) =~= (out@.drop_last()) + (seq![c] + var_key(rest.drop_first())));
    }
    assert(var_key(s@.subrange(n as int, n as int)) == Seq::<char>::empty());
    assert(out@ + Seq::<char>::empty() =~= out@);
    out
}

/// When an undefined-variable error refers to a `vars.*` expression, returns a hint telling
/// the user to declare that variable in their `vade.toml`.
pub fn missing_user_var_hint(kind: TemplateErrorKind, expr: &str) -> (r: Option<String>)
    ensures
        match missing_user_var_hint_spec(kind, expr@) {
            Some(h) => r matches Some(s) && s@ == h,
            None => r is None,
        },
{
    if kind != TemplateErrorKind::Undefined {
        return None;
    }
    let t = trim_exec(expr);
    if !starts_with(t.as_str(), "vars.") {
        return None;
    }
    let p = "vars.".unicode_len();
    let rest = substring(t.as_str(), p, t.unicode_len());
    let key = var_key_exec(rest.as_str());
    if key.unicode_len() == 0 {
        return None;
    }
    Some(String::from_str("`").concat(key.as_str()).concat(
        "` is a user-defined variable. Declare it in your `vade.toml` file under the relevant template's `vars`, e.g. `vars = { ",
    ).concat(key.as_str()).concat(
        " = ... }`, or inject it through the CLI using the `--set` option.",
    ))
}

/// The characters at byte positions `start..end` of a string, as `str::get` gives them: none
/// unless the range lies within the string and both ends are character boundaries.
pub open spec fn byte_slice(s: Seq<char>, start: int, end: int) -> Option<Seq<char>> {
    let b = encode_utf8(s);
    if 0 <= start <= end <= b.len() && is_char_boundary(b, start) && is_char_boundary(b, end) {
        Some(decode_utf8(b.subrange(start, end)))
    } else {
        None
    }
}

/// `source[start..end]` (byte positions), if that is a valid slice.
pub fn byte_slice_exec(source: &str, start: usize, end: usize) -> (r: Option<String>)
    ensures
        match byte_slice(source@, start as int, end as int) {
            Some(t) => r matches Some(x) && x@ == t,
            None => r is None,
        },
{
    if !(start <= end && end <= source.as_bytes().len() && source.is_char_boundary(start)
        && source.is_char_boundary(end)) {
        return None;
    }
    let (_, tail) = source.split_at(start);
    let ghost b = source.spec_bytes();
    proof {
        vstd::utf8::encode_utf8_valid_utf8(source@);
        vstd::utf8::encode_utf8_valid_utf8(tail@);
        let tb = tail.spec_bytes();
        assert(tb == b.subrange(start as int, b.len() as int));
        if end - start < tb.len() {
            vstd::utf8::is_char_boundary_iff_not_is_continuation_byte(b, end as int);
            vstd::utf8::is_char_boundary_iff_not_is_continuation_byte(tb, (end - start) as int);
            assert(tb[(end - start) as int] == b[end as int]);
        } else {
            vstd::utf8::is_char_boundary_start_end_of_seq(tb);
        }
    }
    let (snip, _) = tail.split_at(end - start);
    proof {
        vstd::utf8::encode_utf8_decode_utf8(snip@);
        assert(snip.spec_bytes() =~= b.subrange(start as int, end as int));
    }
    Some(String::from_str(snip))
}

/// The hint for an error at byte range `start..end` of a template's source.
pub open spec fn error_hint_spec(kind: TemplateErrorKind, source: Seq<char>, start: int, end: int) -> Option<Seq<char>> {
    match byte_slice(source, start, end) {
        Some(snippet) => missing_user_var_hint_spec(kind, snippet),
        None => None,
    }
}

pub fn error_hint(kind: TemplateErrorKind, source: &str, range: (usize, usize)) -> (r: Option<String>)
    ensures
        match error_hint_spec(kind, source@, range.0 as int, range.1 as int) {
            Some(h) => r matches Some(s) && s@ == h,
            None => r is None,
        },
{
    match byte_slice_exec(source, range.0, range.1) {
        Some(snippet) => missing_user_var_hint(kind, snippet.as_str()),
        None => None,
    }
}

/// The view of a [`TemplateSourceMeta`].
pub enum MetaView {
    Builtin { id: Seq<char>, kind: BuiltinTemplateKind },
    File { path: Seq<char> },
    Inline { span: Span },
    Cli { hint: Seq<char> },
}

pub open spec fn meta_view(m: TemplateSourceMeta) -> MetaView {
    match m {
        TemplateSourceMeta::Builtin { id, kind } => MetaView::Builtin { id: id@, kind },
        TemplateSourceMeta::File { path } => MetaView::File { path: path@ },
        TemplateSourceMeta::Inline { span } => MetaView::Inline { span },
        TemplateSourceMeta::Cli { hint } => MetaView::Cli { hint: hint@ },
    }
}

/// The label text of a template error: its kind, then its detail if there is one.
pub open spec fn template_error_message(e: TemplateError) -> Seq<char> {
    match e.detail {
        Some(d) => e.kind_description@ + ": "@ + d@,
        None => e.kind_description@,
    }
}

/// Where a template error points: its byte range, or the whole template when it has none.
pub open spec fn template_error_range(e: TemplateError, source: Seq<char>) -> (int, int) {
    match e.range {
        Some((a, b)) => (a as int, b as int),
        None => (0, encode_utf8(source).len() as int),
    }
}

pub open spec fn saturating_add_spec(a: int, b: int) -> int {
    if a + b > usize::MAX { usize::MAX as int } else { a + b }
}

pub open spec fn internal_error_help() -> Seq<char> {
    "this is an internal error in vade, please report it so we can fix it"@
}

pub open spec fn builtin_source_name(id: Seq<char>, kind: BuiltinTemplateKind) -> Seq<char> {
    id + " (builtin "@ + builtin_kind_name(kind) + " template)"@
}

/// How a template error is reported. `root` is the headline; the label carries the error's
/// kind and detail. A template given through `--set` is shown on its own, with the `--set` hint
/// (numbered together with the missing-variable hint when there is one); an inline template is
/// shown within the configuration file, its range shifted by where the string starts there; a
/// file or built-in template is shown under its path or name, and an internal template's error
/// asks the user to report it.
pub open spec fn template_error_report(
    e: TemplateError,
    root: Seq<char>,
    toml: Option<(Seq<char>, Seq<char>)>,
    value: Seq<char>,
    meta: MetaView,
) -> DiagnosticView {
    let message = template_error_message(e);
    let (a, b) = template_error_range(e, value);
    let hint = error_hint_spec(e.kind, value, a, b);
    let span = Span { start: a as usize, end: b as usize };
    match meta {
        MetaView::Cli { hint: cli } => {
            let help = match hint {
                Some(extra) => "1. "@ + cli + "\n2. "@ + extra,
                None => cli,
            };
            single_label_view(root, message, span, Some(help), SourceView::Text(value))
        },
        MetaView::Inline { span: s } => {
            let shifted = Span {
                start: saturating_add_spec(s.start as int, a) as usize,
                end: saturating_add_spec(s.start as int, b) as usize,
            };
            let (path, text) = toml.unwrap();
            single_label_view(root, message, shifted, hint, SourceView::Named { name: path, text })
        },
        MetaView::Builtin { id, kind } => {
            let help = if kind == BuiltinTemplateKind::Internal {
                Some(internal_error_help())
            } else {
                hint
            };
            single_label_view(
                root,
                message,
                span,
                help,
                SourceView::Named { name: builtin_source_name(id, kind), text: value },
            )
        },
        MetaView::File { path } => single_label_view(
            root,
            message,
            span,
            hint,
            SourceView::Named { name: path, text: value },
        ),
    }
}

pub open spec fn toml_view(t: Option<&TomlSource>) -> Option<(Seq<char>, Seq<char>)> {
    match t {
        Some(t) => Some((t.path@, t.value@)),
        None => None,
    }
}

fn template_error_message_exec(e: &TemplateError) -> (r: String)
    ensures
        r@ == template_error_message(*e),
{
    match &e.detail {
        Some(d) => e.kind_description.clone().concat(": ").concat(d.as_str()),
        None => e.kind_description.clone(),
    }
}

/// Reports a template error (see [`template_error_report`]).
pub fn template_error_to_report(
    error: &TemplateError,
    root_error: &str,
    config_toml: Option<&TomlSource>,
    source: &TemplateSource,
) -> (r: Diagnostic)
    requires
        source.meta is Inline ==> config_toml is Some,
    ensures
        r@ == template_error_report(*error, root_error@, toml_view(config_toml), source.value@, meta_view(source.meta)),
{
    let message = template_error_message_exec(error);
    let range = match error.range {
        Some(r) => r,
        None => (0, source.value.as_str().as_bytes().len()),
    };
    let span = Span::new(range.0, range.1);
    match &source.meta {
        TemplateSourceMeta::Cli { hint } => {
            let help = match error_hint(error.kind, source.value.as_str(), range) {
                Some(extra) => String::from_str("1. ").concat(hint.as_str()).concat("\n2. ").concat(extra.as_str()),
                None => hint.clone(),
            };
            diagnostic_with_help(root_error, message, help, span, SourceRef::Text(source.value.clone()))
        },
        TemplateSourceMeta::Inline { span: s } => {
            let config_toml = config_toml.unwrap();
            let named = config_toml.to_named_source();
            let hint = error_hint(error.kind, source.value.as_str(), range);
            let shifted = Span::new(s.start.saturating_add(range.0), s.start.saturating_add(range.1));
            match hint {
                Some(h) => diagnostic_with_help(root_error, message, h, shifted, named),
                None => diagnostic(root_error, message, shifted, named),
            }
        },
        TemplateSourceMeta::Builtin { id, kind } => {
            let name = id.clone().concat(" (builtin ").concat(kind.as_str()).concat(" template)");
            let named = SourceRef::Named { name, text: source.value.clone() };
            let hint = if *kind == BuiltinTemplateKind::Internal {
                Some(String::from_str("this is an internal error in vade, please report it so we can fix it"))
            } else {
                error_hint(error.kind, source.value.as_str(), range)
            };
            match hint {
                Some(h) => diagnostic_with_help(root_error, message, h, span, named),
                None => diagnostic(root_error, message, span, named),
            }
        },
        TemplateSourceMeta::File { path } => {
            let named = SourceRef::Named { name: path.clone(), text: source.value.clone() };
            match error_hint(error.kind, source.value.as_str(), range) {
                Some(h) => diagnostic_with_help(root_error, message, h, span, named),
                None => diagnostic(root_error, message, span, named),
            }
        },
    }
}

} // verus!
