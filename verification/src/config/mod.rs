//! The application configuration (`vade.toml`) as the library models it.

use vstd::prelude::*;
use crate::util::{Span, Spanned};
use crate::templating::context::{CtxValue, CtxView};
use crate::engine::{EngineEnvView, engine_env_view, engine_render_result, engine_standard};
use crate::templating::render::{lemma_report_message, render_user_var_string, user_string_root, user_var_meta};
use crate::json::{JsonScalar, JsonValue, JsonView, json_view};
use crate::templating::{
    TomlSource, BuiltinTemplateKind, BuiltinTemplates, TemplateSource, MetaView, meta_view, builtin_source,
    builtin_kind_name,
};
use crate::util::{
    RelativePathResolver, Diagnostic, DiagnosticView, SourceView, join_path, single_label_view,
    diagnostic, diagnostic_with_help,
};

pub mod deserialize;
pub mod reading;
pub mod validate;

verus! {

/// Where a user-provided string variable came from.
#[derive(Clone, Debug, PartialEq, Eq)]
pub enum UserVarStringOrigin {
    /// The string was given on the command line, assigned to the given `--set` path.
    Cli { path: String },
    /// The string was read from the configuration file, at the given span.
    Toml(Span),
}

/// A user-provided string variable; it may itself use template syntax.
#[derive(Clone, Debug, PartialEq, Eq)]
pub struct UserVarString {
    pub origin: UserVarStringOrigin,
    pub value: String,
}

impl UserVarString {
    pub fn json(value: String, path: String) -> (r: Self)
        ensures
            r.value@ == value@,
            r.origin matches UserVarStringOrigin::Cli { path: p } && p@ == path@,
    {
        Self { origin: UserVarStringOrigin::Cli { path }, value }
    }

    pub fn toml(value: String, span: Span) -> (r: Self)
        ensures
            r.value@ == value@,
            r.origin == UserVarStringOrigin::Toml(span),
    {
        Self { origin: UserVarStringOrigin::Toml(span), value }
    }
}

/// A user-provided template variable.
#[derive(Debug, PartialEq)]
pub enum UserVar {
    String(UserVarString),
    /// A null, boolean or number.
    Scalar(JsonScalar),
    Object(Vec<(String, UserVar)>),
    List(Vec<UserVar>),
}

/// The view of a string variable's origin.
pub enum OriginView {
    Cli(Seq<char>),
    Toml(Span),
}

pub open spec fn origin_view(o: UserVarStringOrigin) -> OriginView {
    match o {
        UserVarStringOrigin::Cli { path } => OriginView::Cli(path@),
        UserVarStringOrigin::Toml(span) => OriginView::Toml(span),
    }
}

/// The mathematical view of a [`UserVar`].
pub enum UserVarView {
    String { origin: OriginView, value: Seq<char> },
    Scalar(JsonScalar),
    Object(Seq<(Seq<char>, UserVarView)>),
    List(Seq<UserVarView>),
}

pub open spec fn user_var_view(v: UserVar) -> UserVarView
    decreases v,
{
    match v {
        UserVar::String(s) => UserVarView::String { origin: origin_view(s.origin), value: s.value@ },
        UserVar::Scalar(x) => UserVarView::Scalar(x),
        UserVar::Object(entries) => UserVarView::Object(
            Seq::new(
                entries@.len(),
                |i: int|
                    if 0 <= i < entries@.len() {
                        (entries@[i].0@, user_var_view(entries@[i].1))
                    } else {
                        (Seq::empty(), UserVarView::List(Seq::empty()))
                    },
            ),
        ),
        UserVar::List(items) => UserVarView::List(
            Seq::new(
                items@.len(),
                |i: int|
                    if 0 <= i < items@.len() {
                        user_var_view(items@[i])
                    } else {
                        UserVarView::List(Seq::empty())
                    },
            ),
        ),
    }
}

impl View for UserVar {
    type V = UserVarView;

    open spec fn view(&self) -> UserVarView {
        user_var_view(*self)
    }
}

/// Whether `u` is the variable that a JSON value `j` becomes when assigned through the `--set`
/// path `path`: strings become string variables that remember the path, arrays become lists,
/// objects become objects with the same keys in the same order, and nulls, booleans and numbers
/// become scalars.
pub open spec fn is_json_user_var(path: Seq<char>, j: JsonView, u: UserVarView) -> bool
    decreases j,
{
    match j {
        JsonView::Scalar(x) => u == UserVarView::Scalar(x),
        JsonView::String(s) => u == UserVarView::String { origin: OriginView::Cli(path), value: s },
        JsonView::Array(items) => match u {
            UserVarView::List(us) => us.len() == items.len() && forall|i: int|
                0 <= i < items.len() ==> is_json_user_var(path, #[trigger] items[i], us[i]),
            _ => false,
        },
        JsonView::Object(entries) => match u {
            UserVarView::Object(us) => us.len() == entries.len() && forall|i: int|
                0 <= i < entries.len() ==> us[i].0 == (#[trigger] entries[i]).0
                    && is_json_user_var(path, entries[i].1, us[i].1),
            _ => false,
        },
    }
}

impl UserVarString {
    /// A copy of the string variable.
    pub fn duplicate(&self) -> (r: UserVarString)
        ensures
            r == *self,
    {
        let origin = match &self.origin {
            UserVarStringOrigin::Cli { path } => UserVarStringOrigin::Cli { path: path.clone() },
            UserVarStringOrigin::Toml(span) => UserVarStringOrigin::Toml(*span),
        };
        UserVarString { origin, value: self.value.clone() }
    }
}

impl Clone for UserVar {
    fn clone(&self) -> (r: Self)
        ensures
            r@ == self@,
    {
        self.duplicate()
    }
}

impl UserVar {
    /// A copy of the variable.
    pub fn duplicate(&self) -> (r: UserVar)
        ensures
            r@ == self@,
        decreases self,
    {
        match self {
            UserVar::String(s) => UserVar::String(s.duplicate()),
            UserVar::Scalar(v) => UserVar::Scalar(v.duplicate()),
            UserVar::Object(entries) => {
                let mut out: Vec<(String, UserVar)> = Vec::new();
                let mut i: usize = 0;
                while i < entries.len()
                    invariant
                        i <= entries@.len(),
                        out@.len() == i,
                        forall|k: int| 0 <= k < i ==> (#[trigger] out@[k]).0@ == entries@[k].0@ && out@[k].1@ == entries@[k].1@,
                        forall|k: int| 0 <= k < entries@.len() ==> decreases_to!(self => #[trigger] entries@[k].1),
                    decreases entries@.len() - i,
                {
                    out.push((entries[i].0.clone(), entries[i].1.duplicate()));
                    i = i + 1;
                }
                let r = UserVar::Object(out);
                assert(user_var_view(r)->Object_0 =~= user_var_view(*self)->Object_0);
                r
            },
            UserVar::List(items) => {
                let mut out: Vec<UserVar> = Vec::new();
                let mut i: usize = 0;
                while i < items.len()
                    invariant
                        i <= items@.len(),
                        out@.len() == i,
                        forall|k: int| 0 <= k < i ==> (#[trigger] out@[k])@ == items@[k]@,
                        forall|k: int| 0 <= k < items@.len() ==> decreases_to!(self => #[trigger] items@[k]),
                    decreases items@.len() - i,
                {
                    out.push(items[i].duplicate());
                    i = i + 1;
                }
                let r = UserVar::List(out);
                assert(user_var_view(r)->List_0 =~= user_var_view(*self)->List_0);
                r
            },
        }
    }
    /// Converts a JSON value given through the `--set` path `path` into a variable.
    pub fn from_json(path: &str, value: JsonValue) -> (r: UserVar)
        ensures
            is_json_user_var(path@, value@, r@),
    {
        Self::from_json_ref(path, &value)
    }

    fn from_json_ref(path: &str, value: &JsonValue) -> (r: UserVar)
        ensures
            is_json_user_var(path@, value@, r@),
        decreases value,
    {
        match value {
            JsonValue::String(s) => UserVar::String(UserVarString::json(s.clone(), String::from_str(path))),
            JsonValue::Scalar(x) => UserVar::Scalar(x.duplicate()),
            JsonValue::Array(items) => {
                let mut out: Vec<UserVar> = Vec::new();
                let mut i: usize = 0;
                while i < items.len()
                    invariant
                        i <= items@.len(),
                        *value == JsonValue::Array(*items),
                        out@.len() == i,
                        forall|k: int| 0 <= k < i ==> is_json_user_var(path@, json_view(#[trigger] items@[k]), out@[k]@),
                    decreases items@.len() - i,
                {
                    proof {
                        assert(decreases_to!(*value => (*value)->Array_0));
                        assert(decreases_to!(*items => items@));
                        assert(decreases_to!(items@ => items@[i as int]));
                        assert(decreases_to!(*value => items@[i as int]));
                    }
                    let u = Self::from_json_ref(path, &items[i]);
                    out.push(u);
                    i = i + 1;
                }
                let r = UserVar::List(out);
                proof {
                    let jv = value@;
                    let uv = r@;
                    assert(uv matches UserVarView::List(us) && us.len() == out@.len());
                    assert forall|k: int| 0 <= k < items@.len() implies is_json_user_var(path@, #[trigger] jv->Array_0[k], uv->List_0[k]) by {
                        assert(jv->Array_0[k] == json_view(items@[k]));
                        assert(uv->List_0[k] == out@[k]@);
                    }
                }
                r
            },
            JsonValue::Object(entries) => {
                let mut out: Vec<(String, UserVar)> = Vec::new();
                let mut i: usize = 0;
                while i < entries.len()
                    invariant
                        i <= entries@.len(),
                        *value == JsonValue::Object(*entries),
                        out@.len() == i,
                        forall|k: int| 0 <= k < i ==> out@[k].0@ == (#[trigger] entries@[k]).0@
                            && is_json_user_var(path@, json_view(entries@[k].1), out@[k].1@),
                    decreases entries@.len() - i,
                {
                    proof {
                        assert(decreases_to!(*value => (*value)->Object_0));
                        assert(decreases_to!(*entries => entries@));
                        assert(decreases_to!(entries@ => entries@[i as int]));
                        assert(decreases_to!(entries@[i as int] => entries@[i as int].1));
                        assert(decreases_to!(*value => entries@[i as int].1));
                    }
                    let u = Self::from_json_ref(path, &entries[i].1);
                    out.push((entries[i].0.clone(), u));
                    i = i + 1;
                }
                let r = UserVar::Object(out);
                proof {
                    let jv = value@;
                    let uv = r@;
                    assert forall|k: int| 0 <= k < entries@.len() implies uv->Object_0[k].0 == (#[trigger] jv->Object_0[k]).0
                        && is_json_user_var(path@, jv->Object_0[k].1, uv->Object_0[k].1) by {
                        assert(jv->Object_0[k] == (entries@[k].0@, json_view(entries@[k].1)));
                        assert(uv->Object_0[k] == (out@[k].0@, out@[k].1@));
                    }
                }
                r
            },
        }
    }
}

} // verus!

verus! {

/// The value stored under `key` in a list of entries: the first entry with that key.
pub open spec fn lookup<V>(entries: Seq<(Seq<char>, V)>, key: Seq<char>) -> Option<V>
    decreases entries.len(),
{
    if entries.len() == 0 {
        None
    } else if entries[0].0 == key {
        Some(entries[0].1)
    } else {
        lookup(entries.drop_first(), key)
    }
}

/// Whether no key occurs twice.
pub open spec fn keys_unique<V>(entries: Seq<(Seq<char>, V)>) -> bool {
    forall|i: int, j: int| 0 <= i < j < entries.len() ==> entries[i].0 != entries[j].0
}

pub open spec fn entries_view(v: Seq<(String, UserVar)>) -> Seq<(Seq<char>, UserVarView)> {
    v.map_values(|e: (String, UserVar)| (e.0@, e.1@))
}

/// The user-provided variables of a template, as a list of entries; [`UserVars::set`] replaces
/// the entry of its key in place. A list keeps the entries in a fixed order, where a `HashMap` would
/// walk them in an order that nothing fixes, and its contents are plain `Seq` values for the
/// contracts.
#[derive(Debug)]
pub struct UserVars {
    vars: Vec<(String, UserVar)>,
}

impl View for UserVars {
    type V = Seq<(Seq<char>, UserVarView)>;

    closed spec fn view(&self) -> Seq<(Seq<char>, UserVarView)> {
        entries_view(self.vars@)
    }
}

pub proof fn lemma_lookup_first<V>(entries: Seq<(Seq<char>, V)>, i: int)
    requires
        0 <= i < entries.len(),
        forall|j: int| 0 <= j < i ==> entries[j].0 != entries[i].0,
    ensures
        lookup(entries, entries[i].0) == Some(entries[i].1),
    decreases i,
{
    if i > 0 {
        lemma_lookup_first(entries.drop_first(), i - 1);
    }
}

pub proof fn lemma_lookup_absent<V>(entries: Seq<(Seq<char>, V)>, key: Seq<char>)
    requires
        forall|j: int| 0 <= j < entries.len() ==> entries[j].0 != key,
    ensures
        lookup(entries, key) is None,
    decreases entries.len(),
{
    if entries.len() > 0 {
        lemma_lookup_absent(entries.drop_first(), key);
    }
}

pub proof fn lemma_lookup_update<V>(entries: Seq<(Seq<char>, V)>, i: int, v: V, key: Seq<char>)
    requires
        0 <= i < entries.len(),
        key != entries[i].0,
    ensures
        lookup(entries.update(i, (entries[i].0, v)), key) == lookup(entries, key),
    decreases entries.len(),
{
    let u = entries.update(i, (entries[i].0, v));
    if i == 0 {
        assert(u.drop_first() =~= entries.drop_first());
    } else {
        assert(u[0] == entries[0]);
        if entries[0].0 != key {
            assert(u.drop_first() =~= entries.drop_first().update(i - 1, (entries[i].0, v)));
            lemma_lookup_update(entries.drop_first(), i - 1, v, key);
        }
    }
}

pub proof fn lemma_lookup_push<V>(entries: Seq<(Seq<char>, V)>, e: (Seq<char>, V), key: Seq<char>)
    requires
        key != e.0,
    ensures
        lookup(entries.push(e), key) == lookup(entries, key),
    decreases entries.len(),
{
    let p = entries.push(e);
    if entries.len() == 0 {
        assert(p.drop_first() =~= Seq::<(Seq<char>, V)>::empty());
    } else {
        assert(p[0] == entries[0]);
        if entries[0].0 != key {
            assert(p.drop_first() =~= entries.drop_first().push(e));
            lemma_lookup_push(entries.drop_first(), e, key);
        }
    }
}

impl UserVars {
    pub fn new() -> (r: Self)
        ensures
            r@.len() == 0,
    {
        Self { vars: Vec::new() }
    }

    /// Variables read from a configuration table.
    pub fn from_toml(vars: Vec<(String, UserVar)>) -> (r: Self)
        ensures
            r@ == entries_view(vars@),
    {
        Self { vars }
    }

    /// The variable stored under `key`, if any.
    pub open spec fn get_spec(&self, key: Seq<char>) -> Option<UserVarView> {
        lookup(self@, key)
    }

    /// Sets a top-level variable, replacing any earlier value of it.
    pub fn set(&mut self, key: String, value: UserVar)
        ensures
            final(self).get_spec(key@) == Some(value@),
            forall|k: Seq<char>| k != key@ ==> #[trigger] final(self).get_spec(k) == old(self).get_spec(k),
            keys_unique(old(self)@) ==> keys_unique(final(self)@),
    {
        let ghost kv = key@;
        let ghost vv = value@;
        let n = self.vars.len();
        let mut i: usize = 0;
        while i < n
            invariant
                n == self.vars@.len(),
                i <= n,
                self.vars@ == old(self).vars@,
                vv == value@,
                forall|j: int| 0 <= j < i ==> self.vars@[j].0@ != kv,
                kv == key@,
            decreases n - i,
        {
            if crate::text::str_eq(self.vars[i].0.as_str(), key.as_str()) {
                let ghost before = self@;
                let ghost old_vars = self.vars@;
                self.vars.set(i, (key, value));
                proof {
                    assert(self.vars@ == old_vars.update(i as int, self.vars@[i as int]));
                    assert(self.vars@[i as int].0@ == kv);
                    assert(self@ =~= before.update(i as int, (kv, vv)));
                    assert(before[i as int].0 == kv);
                    lemma_lookup_first(self@, i as int);
                    assert forall|k: Seq<char>| k != kv implies #[trigger] lookup(self@, k) == lookup(before, k) by {
                        lemma_lookup_update(before, i as int, vv, k);
                    }
                }
                return;
            }
            i = i + 1;
        }
        let ghost before = self@;
        self.vars.push((key, value));
        proof {
            assert(self@ =~= before.push((kv, vv)));
            assert forall|j: int| 0 <= j < before.len() implies before[j].0 != kv by {
                assert(before[j].0 == old(self).vars@[j].0@);
            }
            lemma_lookup_first(self@, n as int);
            assert forall|k: Seq<char>| k != kv implies #[trigger] lookup(self@, k) == lookup(before, k) by {
                lemma_lookup_push(before, (kv, vv), k);
            }
        }
    }
}

} // verus!

verus! {

/// The default file extension of systemd units.
pub open spec fn default_unit_extension() -> Seq<char> {
    "service"@
}

/// The file name of a systemd unit on the server: the app name, then `-` and the suffix if there
/// is one, then `.` and the extension (by default `service`).
pub open spec fn unit_filename(app_name: Seq<char>, suffix: Option<Seq<char>>, extension: Option<Seq<char>>) -> Seq<char> {
    let s = match suffix {
        Some(s) => "-"@ + s,
        None => Seq::empty(),
    };
    let e = match extension {
        Some(e) => e,
        None => default_unit_extension(),
    };
    app_name + s + "."@ + e
}

pub open spec fn opt_spanned_view(o: Option<Spanned<String>>) -> Option<Seq<char>> {
    match o {
        Some(s) => Some(s.value@),
        None => None,
    }
}

pub struct ArtifactsConfig {
    /// The path to the directory where the to-be-deployed artifacts are located
    ///
    /// Note: if the path is relative, it will be resolved relative to the configuration file,
    /// not to the current working directory
    pub path: Spanned<String>,
}

impl ArtifactsConfig {
    pub fn span(&self) -> (r: Span)
        ensures
            r == self.path.span,
    {
        self.path.span
    }
}

/// Where a template is loaded from.
#[derive(Debug, PartialEq, Eq)]
pub enum TemplateOrigin {
    /// One of the built-in templates, by name.
    Builtin(String),
    /// A file, resolved relative to the configuration file.
    File(String),
    /// The given string.
    Inline(Spanned<String>),
}

pub struct TemplateConfig {
    /// The origin from which the template will be loaded
    pub origin: Spanned<TemplateOrigin>,
    /// Variables to use when rendering the template (available under `vars`)
    pub vars: Spanned<Vec<(String, UserVar)>>,
}

pub struct SystemdUnitConfig {
    /// The filename suffix of this systemd unit (if any)
    pub filename_suffix: Option<Spanned<String>>,
    /// The file extension of this systemd unit (defaults to `service`)
    pub file_extension: Option<Spanned<String>>,
    /// The template from which this systemd unit file will be rendered
    pub template: Spanned<TemplateConfig>,
}

impl SystemdUnitConfig {
    pub open spec fn filename_spec(&self, app_name: Seq<char>) -> Seq<char> {
        unit_filename(app_name, opt_spanned_view(self.filename_suffix), opt_spanned_view(self.file_extension))
    }

    pub fn template(&self) -> (r: &TemplateConfig)
        ensures
            *r == self.template.value,
    {
        &self.template.value
    }

    /// The unit's file name on the server (see [`unit_filename`]).
    pub fn filename(&self, app_name: &str) -> (r: String)
        ensures
            r@ == self.filename_spec(app_name@),
    {
        let mut name = String::from_str(app_name);
        match &self.filename_suffix {
            Some(s) => {
                name = name.concat("-").concat(s.value.as_str());
            },
            None => {},
        }
        name = name.concat(".");
        match &self.file_extension {
            Some(e) => {
                name = name.concat(e.value.as_str());
            },
            None => {
                name = name.concat("service");
            },
        }
        proof {
            if self.filename_suffix is None {
                assert(app_name@ + Seq::<char>::empty() =~= app_name@);
            } else {
                assert(app_name@ + "-"@ + self.filename_suffix->0.value@ =~= app_name@ + ("-"@ + self.filename_suffix->0.value@));
            }
        }
        name
    }
}

pub struct CaddyfileConfig {
    /// The template from which the application's Caddyfile will be rendered
    pub template: Spanned<TemplateConfig>,
}

impl CaddyfileConfig {
    pub fn template(&self) -> (r: &TemplateConfig)
        ensures
            *r == self.template.value,
    {
        &self.template.value
    }
}

/// Configuration related to the network.
pub struct NetworkConfig {
    /// The number of ports that vade should reserve for this application
    pub reserve_ports: Option<Spanned<u32>>,
}

/// The application configuration.
pub struct AppConfig {
    /// Configuration related to the project's artifacts
    pub artifacts: Option<Spanned<ArtifactsConfig>>,
    /// Configuration related to the network
    pub network: Option<Spanned<NetworkConfig>>,
    /// Configuration related to the project's Caddyfile (if any)
    pub caddyfile: Option<Spanned<CaddyfileConfig>>,
    /// Configuration related to the project's systemd units (if any)
    pub systemd_units: Vec<Spanned<SystemdUnitConfig>>,
}

impl AppConfig {
    pub fn artifacts(&self) -> (r: Option<&ArtifactsConfig>)
        ensures
            match self.artifacts {
                Some(a) => r == Some(&a.value),
                None => r is None,
            },
    {
        match &self.artifacts {
            Some(a) => Some(&a.value),
            None => None,
        }
    }

    pub fn caddyfile(&self) -> (r: Option<&CaddyfileConfig>)
        ensures
            match self.caddyfile {
                Some(c) => r == Some(&c.value),
                None => r is None,
            },
    {
        match &self.caddyfile {
            Some(c) => Some(&c.value),
            None => None,
        }
    }

    /// The systemd units, in the order in which they were declared.
    pub fn systemd_units(&self) -> (r: &Vec<Spanned<SystemdUnitConfig>>)
        ensures
            r == &self.systemd_units,
    {
        &self.systemd_units
    }
}

/// A template's source together with the variables to render it with.
pub struct TemplateAndUserVars {
    pub source: TemplateSource,
    pub user_vars: UserVars,
}

/// What loading a template gives: its text, where it came from, and its variables.
pub open spec fn loaded_template(t: TemplateAndUserVars) -> (Seq<char>, MetaView, Seq<(Seq<char>, UserVarView)>) {
    (t.source.value@, meta_view(t.source.meta), t.user_vars@)
}

/// What loading a template from its configuration gives. A built-in template is looked up by
/// kind and name; a file template is read (the read's outcome is `file`) from its path resolved
/// against `root`; an inline template is the configured string. The variables are the configured
/// ones. Errors point at the origin's span in the configuration file.
pub open spec fn load_template_spec(
    origin: Spanned<TemplateOrigin>,
    vars: Seq<(Seq<char>, UserVarView)>,
    toml: (Seq<char>, Seq<char>),
    root: Seq<char>,
    kind: BuiltinTemplateKind,
    builtins: BuiltinTemplates,
    file: Option<Result<Seq<char>, Seq<char>>>,
) -> Result<(Seq<char>, MetaView, Seq<(Seq<char>, UserVarView)>), DiagnosticView> {
    let named = SourceView::Named { name: toml.0, text: toml.1 };
    match origin.value {
        TemplateOrigin::Builtin(name) => match builtin_source(kind, name@, builtins) {
            None => Err(single_label_view(
                "unknown builtin template"@,
                "there is no "@ + builtin_kind_name(kind) + " template with this name"@,
                origin.span,
                None,
                named,
            )),
            Some(text) => Ok((text, MetaView::Builtin { id: name@, kind }, vars)),
        },
        TemplateOrigin::File(path) => {
            let resolved = join_path(root, path@);
            match file {
                Some(Ok(text)) => Ok((text, MetaView::File { path: resolved }, vars)),
                Some(Err(e)) => Err(single_label_view(
                    "failed to load template"@,
                    "reading the file resulted in an error: "@ + e,
                    origin.span,
                    Some("the path resolved to `"@ + resolved + "`"@),
                    named,
                )),
                None => Err(single_label_view("failed to load template"@, Seq::empty(), origin.span, None, named)),
            }
        },
        TemplateOrigin::Inline(s) => Ok((s.value@, MetaView::Inline { span: s.span }, vars)),
    }
}

pub open spec fn read_view(r: Option<Result<String, String>>) -> Option<Result<Seq<char>, Seq<char>>> {
    match r {
        Some(Ok(t)) => Some(Ok(t@)),
        Some(Err(e)) => Some(Err(e@)),
        None => None,
    }
}

impl TemplateConfig {
    /// The file that the template is to be read from, if it comes from a file.
    pub fn file_to_read(&self, path_resolver: &RelativePathResolver) -> (r: Option<crate::util::ResolvedPath>)
        ensures
            match self.origin.value {
                TemplateOrigin::File(p) => r matches Some(x) && x@ == join_path(path_resolver@, p@),
                _ => r is None,
            },
    {
        match &self.origin.value {
            TemplateOrigin::File(p) => Some(path_resolver.resolve(p.as_str())),
            _ => None,
        }
    }

    /// Loads the template's source and variables. For a file template, `file_contents` is the
    /// outcome of reading [`TemplateConfig::file_to_read`] (the text, or the error's message).
    pub fn load_template_source(
        self,
        toml_source: &TomlSource,
        path_resolver: &RelativePathResolver,
        kind: BuiltinTemplateKind,
        builtins: &BuiltinTemplates,
        file_contents: Option<Result<String, String>>,
    ) -> (r: Result<TemplateAndUserVars, Diagnostic>)
        requires
            self.origin.value is File ==> file_contents is Some,
        ensures
            match load_template_spec(
                self.origin,
                entries_view(self.vars.value@),
                (toml_source.path@, toml_source.value@),
                path_resolver@,
                kind,
                *builtins,
                read_view(file_contents),
            ) {
                Ok(t) => r matches Ok(x) && loaded_template(x) == t,
                Err(d) => r matches Err(x) && x@ == d,
            },
    {
        let TemplateConfig { origin, vars } = self;
        let user_vars = UserVars::from_toml(vars.value);
        let source = match origin.value {
            TemplateOrigin::Builtin(template_name) => {
                match kind.get_builtin_source(template_name.as_str(), builtins) {
                    None => {
                        let details = String::from_str("there is no ").concat(kind.as_str()).concat(
                            " template with this name",
                        );
                        return Err(diagnostic("unknown builtin template", details, origin.span, toml_source.to_named_source()));
                    },
                    Some(text) => TemplateSource::builtin(template_name, kind, text),
                }
            },
            TemplateOrigin::File(path) => {
                let resolved = path_resolver.resolve(path.as_str());
                match file_contents {
                    Some(Ok(text)) => TemplateSource::file(String::from_str(resolved.as_str()), text),
                    Some(Err(e)) => {
                        let details = String::from_str("reading the file resulted in an error: ").concat(e.as_str());
                        let help = String::from_str("the path resolved to `").concat(resolved.as_str()).concat("`");
                        return Err(diagnostic_with_help(
                            "failed to load template",
                            details,
                            help,
                            origin.span,
                            toml_source.to_named_source(),
                        ));
                    },
                    None => {
                        return Err(diagnostic("failed to load template", String::new(), origin.span, toml_source.to_named_source()));
                    },
                }
            },
            TemplateOrigin::Inline(s) => TemplateSource::inline(s.span, s.value),
        };
        Ok(TemplateAndUserVars { source, user_vars })
    }
}

} // verus!

verus! {

/// What a template sees of a variable: strings as their text, scalars as they are, objects and
/// lists element by element.
pub open spec fn user_var_ctx(u: UserVarView) -> CtxView
    decreases u,
{
    match u {
        UserVarView::String { value, .. } => CtxView::Str(value),
        UserVarView::Scalar(v) => CtxView::Scalar(v),
        UserVarView::Object(es) => CtxView::Object(
            Seq::new(
                es.len(),
                |i: int| if 0 <= i < es.len() { (es[i].0, user_var_ctx(es[i].1)) } else { (Seq::empty(), CtxView::Str(Seq::empty())) },
            ),
        ),
        UserVarView::List(items) => CtxView::List(
            Seq::new(
                items.len(),
                |i: int| if 0 <= i < items.len() { user_var_ctx(items[i]) } else { CtxView::Str(Seq::empty()) },
            ),
        ),
    }
}

/// `b` is `a` with every string rendered as a template in `env` with the context `ctx`: the
/// same shape, the same keys, the same scalars, and every string keeps its origin and holds
/// what rendering its text gave.
pub open spec fn strings_rendered(
    a: UserVarView,
    b: UserVarView,
    env: EngineEnvView,
    ctx: CtxView,
) -> bool
    decreases a,
{
    match a {
        UserVarView::String { origin, value } => b matches UserVarView::String { origin: o, value: v } && o == origin
            && engine_render_result(env, value, ctx) == Ok::<Seq<char>, minijinja::Error>(v),
        UserVarView::Scalar(v) => b == UserVarView::Scalar(v),
        UserVarView::Object(es) => match b {
            UserVarView::Object(fs) => fs.len() == es.len() && forall|i: int|
                0 <= i < es.len() ==> fs[i].0 == (#[trigger] es[i]).0 && strings_rendered(es[i].1, fs[i].1, env, ctx),
            _ => false,
        },
        UserVarView::List(items) => match b {
            UserVarView::List(ys) => ys.len() == items.len() && forall|i: int|
                0 <= i < items.len() ==> strings_rendered(#[trigger] items[i], ys[i], env, ctx),
            _ => false,
        },
    }
}

impl UserVar {
    /// The value that templates see of this variable (see [`user_var_ctx`]).
    pub fn into_minijinja(self) -> (r: CtxValue)
        ensures
            r@ == user_var_ctx(self@),
        decreases self,
    {
        let ghost v = self@;
        match self {
            UserVar::String(s) => CtxValue::Str(s.value),
            UserVar::Scalar(x) => CtxValue::Scalar(x),
            UserVar::Object(entries) => {
                let ghost es = entries@;
                let mut rest = entries;
                let mut out: Vec<(String, CtxValue)> = Vec::new();
                let ghost mut i: int = 0;
                while rest.len() > 0
                    invariant
                        0 <= i <= es.len(),
                        rest@ == es.subrange(i, es.len() as int),
                        out@.len() == i,
                        forall|k: int| 0 <= k < i ==> (#[trigger] out@[k]).0@ == es[k].0@ && out@[k].1@ == user_var_ctx(es[k].1@),
                        forall|k: int| 0 <= k < rest@.len() ==> decreases_to!(self => #[trigger] rest@[k].1),
                    decreases rest@.len(),
                {
                    let (key, value) = rest.remove(0);
                    proof {
                        assert(es[i] == (key, value));
                    }
                    out.push((key, value.into_minijinja()));
                    proof {
                        assert(rest@ =~= es.subrange(i + 1, es.len() as int));
                        i = i + 1;
                    }
                }
                let r = CtxValue::Object(out);
                assert(r@->Object_0 =~= user_var_ctx(v)->Object_0);
                r
            },
            UserVar::List(items) => {
                let ghost es = items@;
                let mut rest = items;
                let mut out: Vec<CtxValue> = Vec::new();
                let ghost mut i: int = 0;
                while rest.len() > 0
                    invariant
                        0 <= i <= es.len(),
                        rest@ == es.subrange(i, es.len() as int),
                        out@.len() == i,
                        forall|k: int| 0 <= k < i ==> (#[trigger] out@[k])@ == user_var_ctx(es[k]@),
                        forall|k: int| 0 <= k < rest@.len() ==> decreases_to!(self => #[trigger] rest@[k]),
                    decreases rest@.len(),
                {
                    let value = rest.remove(0);
                    proof {
                        assert(es[i] == value);
                    }
                    out.push(value.into_minijinja());
                    proof {
                        assert(rest@ =~= es.subrange(i + 1, es.len() as int));
                        i = i + 1;
                    }
                }
                let r = CtxValue::List(out);
                assert(r@->List_0 =~= user_var_ctx(v)->List_0);
                r
            },
        }
    }
}

} // verus!

verus! {

/// Some string of the variable does not render as a template in `env` with the context `ctx`.
pub open spec fn some_string_fails(a: UserVarView, env: EngineEnvView, ctx: CtxView) -> bool
    decreases a,
{
    match a {
        UserVarView::String { value, .. } => engine_render_result(env, value, ctx) is Err,
        UserVarView::Scalar(_) => false,
        UserVarView::Object(es) => exists|i: int| 0 <= i < es.len() && some_string_fails(#[trigger] es[i].1, env, ctx),
        UserVarView::List(items) => exists|i: int| 0 <= i < items.len() && some_string_fails(#[trigger] items[i], env, ctx),
    }
}

impl UserVar {
    /// Renders every string of the variable as a template: strings may themselves use template
    /// syntax. Fails at the first string that does not render.
    pub fn render_strings(
        self,
        env: &minijinja::Environment<'static>,
        context: &CtxValue,
        toml_config: &TomlSource,
    ) -> (r: Result<UserVar, Diagnostic>)
        requires
            engine_standard(*env),
        ensures
            r matches Ok(v) ==> strings_rendered(self@, v@, engine_env_view(*env), context@),
            r is Err <==> some_string_fails(self@, engine_env_view(*env), context@),
            r matches Err(d) ==> d@.message == user_string_root(),
        decreases self,
    {
        let ghost v = self@;
        match self {
            UserVar::String(s) => match render_user_var_string(env, context, toml_config, &s) {
                Ok(rendered) => Ok(UserVar::String(UserVarString { origin: s.origin, value: rendered })),
                Err(d) => {
                    proof {
                        lemma_report_message(d@, user_string_root(), Some((toml_config.path@, toml_config.value@)), s.value@, user_var_meta(s.origin));
                    }
                    Err(d)
                },
            },
            UserVar::Scalar(x) => Ok(UserVar::Scalar(x)),
            UserVar::Object(entries) => {
                let ghost es = entries@;
                let mut rest = entries;
                let mut out: Vec<(String, UserVar)> = Vec::new();
                let ghost mut i: int = 0;
                while rest.len() > 0
                    invariant
                        engine_standard(*env),
                        0 <= i <= es.len(),
                        rest@ == es.subrange(i, es.len() as int),
                        out@.len() == i,
                        forall|k: int| 0 <= k < i ==> (#[trigger] out@[k]).0@ == es[k].0@ && strings_rendered(es[k].1@, out@[k].1@, engine_env_view(*env), context@),
                        forall|k: int| 0 <= k < i ==> !some_string_fails(#[trigger] es[k].1@, engine_env_view(*env), context@),
                        forall|k: int| 0 <= k < rest@.len() ==> decreases_to!(self => #[trigger] rest@[k].1),
                        v == self@,
                        v is Object && v->Object_0.len() == es.len(),
                        forall|k: int| 0 <= k < es.len() ==> #[trigger] v->Object_0[k] == (es[k].0@, es[k].1@),
                    decreases rest@.len(),
                {
                    let (key, value) = rest.remove(0);
                    proof {
                        assert(es[i] == (key, value));
                    }
                    let rendered = match value.render_strings(env, context, toml_config) {
                        Ok(x) => x,
                        Err(d) => {
                            proof {
                                assert(v->Object_0[i] == (es[i].0@, es[i].1@));
                                assert(some_string_fails(v->Object_0[i].1, engine_env_view(*env), context@));
                            }
                            return Err(d);
                        },
                    };
                    out.push((key, rendered));
                    proof {
                        assert(rest@ =~= es.subrange(i + 1, es.len() as int));
                        i = i + 1;
                    }
                }
                let r = UserVar::Object(out);
                proof {
                    let fs = r@->Object_0;
                    let vs = v->Object_0;
                    assert forall|k: int| 0 <= k < vs.len() implies fs[k].0 == (#[trigger] vs[k]).0
                        && strings_rendered(vs[k].1, fs[k].1, engine_env_view(*env), context@) by {
                        assert(vs[k] == (es[k].0@, es[k].1@));
                        assert(fs[k] == (out@[k].0@, out@[k].1@));
                    }
                    assert forall|k: int| 0 <= k < vs.len() implies !some_string_fails(#[trigger] vs[k].1, engine_env_view(*env), context@) by {
                        assert(vs[k] == (es[k].0@, es[k].1@));
                    }
                }
                Ok(r)
            },
            UserVar::List(items) => {
                let ghost es = items@;
                let mut rest = items;
                let mut out: Vec<UserVar> = Vec::new();
                let ghost mut i: int = 0;
                while rest.len() > 0
                    invariant
                        engine_standard(*env),
                        0 <= i <= es.len(),
                        rest@ == es.subrange(i, es.len() as int),
                        out@.len() == i,
                        forall|k: int| 0 <= k < i ==> strings_rendered(es[k]@, (#[trigger] out@[k])@, engine_env_view(*env), context@),
                        forall|k: int| 0 <= k < i ==> !some_string_fails(#[trigger] es[k]@, engine_env_view(*env), context@),
                        forall|k: int| 0 <= k < rest@.len() ==> decreases_to!(self => #[trigger] rest@[k]),
                        v == self@,
                        v is List && v->List_0.len() == es.len(),
                        forall|k: int| 0 <= k < es.len() ==> #[trigger] v->List_0[k] == es[k]@,
                    decreases rest@.len(),
                {
                    let value = rest.remove(0);
                    proof {
                        assert(es[i] == value);
                    }
                    let rendered = match value.render_strings(env, context, toml_config) {
                        Ok(x) => x,
                        Err(d) => {
                            proof {
                                assert(v->List_0[i] == es[i]@);
                                assert(some_string_fails(v->List_0[i], engine_env_view(*env), context@));
                            }
                            return Err(d);
                        },
                    };
                    out.push(rendered);
                    proof {
                        assert(rest@ =~= es.subrange(i + 1, es.len() as int));
                        i = i + 1;
                    }
                }
                let r = UserVar::List(out);
                proof {
                    let ys = r@->List_0;
                    let xs = v->List_0;
                    assert forall|k: int| 0 <= k < xs.len() implies strings_rendered(#[trigger] xs[k], ys[k], engine_env_view(*env), context@) by {
                        assert(xs[k] == es[k]@);
                        assert(ys[k] == out@[k]@);
                    }
                    assert forall|k: int| 0 <= k < xs.len() implies !some_string_fails(#[trigger] xs[k], engine_env_view(*env), context@) by {
                        assert(xs[k] == es[k]@);
                    }
                }
                Ok(r)
            },
        }
    }
}

impl UserVars {
    /// Renders the strings of every variable (see [`UserVar::render_strings`]).
    pub fn render_strings(
        self,
        env: &minijinja::Environment<'static>,
        context: &CtxValue,
        toml_config: &TomlSource,
    ) -> (r: Result<UserVars, Diagnostic>)
        requires
            engine_standard(*env),
        ensures
            r matches Ok(v) ==> v@.len() == self@.len() && forall|i: int|
                0 <= i < self@.len() ==> (#[trigger] v@[i]).0 == self@[i].0 && strings_rendered(self@[i].1, v@[i].1, engine_env_view(*env), context@),
            r is Err <==> exists|i: int| 0 <= i < self@.len() && some_string_fails(#[trigger] self@[i].1, engine_env_view(*env), context@),
            r matches Err(d) ==> d@.message == user_string_root(),
    {
        let ghost es = self.vars@;
        let mut rest = self.vars;
        let mut out: Vec<(String, UserVar)> = Vec::new();
        let ghost mut i: int = 0;
        while rest.len() > 0
            invariant
                engine_standard(*env),
                0 <= i <= es.len(),
                rest@ == es.subrange(i, es.len() as int),
                out@.len() == i,
                forall|k: int| 0 <= k < i ==> (#[trigger] out@[k]).0@ == es[k].0@ && strings_rendered(es[k].1@, out@[k].1@, engine_env_view(*env), context@),
                forall|k: int| 0 <= k < i ==> !some_string_fails(#[trigger] es[k].1@, engine_env_view(*env), context@),
                es == self.vars@,
            decreases rest@.len(),
        {
            let (key, value) = rest.remove(0);
            proof {
                assert(es[i] == (key, value));
            }
            let rendered = match value.render_strings(env, context, toml_config) {
                Ok(x) => x,
                Err(d) => {
                    proof {
                        assert(self@[i].1 == es[i].1@);
                    }
                    return Err(d);
                },
            };
            out.push((key, rendered));
            proof {
                assert(rest@ =~= es.subrange(i + 1, es.len() as int));
                i = i + 1;
            }
        }
        let r = UserVars { vars: out };
        proof {
            assert forall|k: int| 0 <= k < es.len() implies (#[trigger] r@[k]).0 == self@[k].0
                && strings_rendered(self@[k].1, r@[k].1, engine_env_view(*env), context@) by {
                assert(self@[k] == (es[k].0@, es[k].1@));
                assert(r@[k] == (out@[k].0@, out@[k].1@));
            }
            assert forall|k: int| 0 <= k < self@.len() implies !some_string_fails(#[trigger] self@[k].1, engine_env_view(*env), context@) by {
                assert(self@[k] == (es[k].0@, es[k].1@));
            }
        }
        Ok(r)
    }

    /// The map of all variables, as templates see it under `vars`.
    pub fn into_minijinja(self) -> (r: CtxValue)
        ensures
            r@ == CtxView::Object(self@.map_values(|e: (Seq<char>, UserVarView)| (e.0, user_var_ctx(e.1)))),
    {
        let ghost es = self.vars@;
        let mut rest = self.vars;
        let mut out: Vec<(String, CtxValue)> = Vec::new();
        let ghost mut i: int = 0;
        while rest.len() > 0
            invariant
                0 <= i <= es.len(),
                rest@ == es.subrange(i, es.len() as int),
                out@.len() == i,
                forall|k: int| 0 <= k < i ==> (#[trigger] out@[k]).0@ == es[k].0@ && out@[k].1@ == user_var_ctx(es[k].1@),
            decreases rest@.len(),
        {
            let (key, value) = rest.remove(0);
            proof {
                assert(es[i] == (key, value));
            }
            out.push((key, value.into_minijinja()));
            proof {
                assert(rest@ =~= es.subrange(i + 1, es.len() as int));
                i = i + 1;
            }
        }
        let r = CtxValue::Object(out);
        assert(r@->Object_0 =~= self@.map_values(|e: (Seq<char>, UserVarView)| (e.0, user_var_ctx(e.1))));
        r
    }
}

} // verus!

verus! {

/// What templates see of a variable keeps its whole shape: a string is seen as its text, a
/// scalar as itself, a list of n values as a list of exactly n values whose i-th is what the
/// i-th value becomes, and an object as the same keys in the same order, each with what its
/// value becomes.
pub proof fn lemma_templates_see_every_value(u: UserVarView)
    ensures
        u matches UserVarView::String { value, .. } ==> user_var_ctx(u) == CtxView::Str(value),
        u matches UserVarView::Scalar(x) ==> user_var_ctx(u) == CtxView::Scalar(x),
        u matches UserVarView::List(items) ==> (user_var_ctx(u) matches CtxView::List(cs) && cs.len()
            == items.len() && forall|i: int| 0 <= i < items.len() ==> cs[i] == user_var_ctx(#[trigger] items[i])),
        u matches UserVarView::Object(es) ==> (user_var_ctx(u) matches CtxView::Object(fs) && fs.len() == es.len()
            && forall|i: int|
            0 <= i < es.len() ==> fs[i].0 == (#[trigger] es[i]).0 && fs[i].1 == user_var_ctx(es[i].1)),
{
}

} // verus!

verus! {

/// A JSON value as a template value: strings as text, nulls, booleans and numbers as scalars,
/// arrays as lists and objects as objects, element by element and key by key.
pub open spec fn json_ctx(j: JsonView) -> CtxView
    decreases j,
{
    match j {
        JsonView::Scalar(x) => CtxView::Scalar(x),
        JsonView::String(s) => CtxView::Str(s),
        JsonView::Array(items) => CtxView::List(
            Seq::new(items.len(), |i: int| if 0 <= i < items.len() { json_ctx(items[i]) } else { CtxView::Str(Seq::empty()) }),
        ),
        JsonView::Object(es) => CtxView::Object(
            Seq::new(
                es.len(),
                |i: int| if 0 <= i < es.len() { (es[i].0, json_ctx(es[i].1)) } else { (Seq::empty(), CtxView::Str(Seq::empty())) },
            ),
        ),
    }
}

/// A variable given as JSON through `--set` is seen by templates as that JSON value itself:
/// every element of every array and every entry of every object, in order.
pub proof fn lemma_set_value_seen_as_given(path: Seq<char>, j: JsonView, u: UserVarView)
    requires
        is_json_user_var(path, j, u),
    ensures
        user_var_ctx(u) == json_ctx(j),
    decreases j,
{
    match j {
        JsonView::Array(items) => {
            let us = u->List_0;
            assert forall|i: int| 0 <= i < items.len() implies user_var_ctx(#[trigger] us[i]) == json_ctx(items[i]) by {
                lemma_set_value_seen_as_given(path, items[i], us[i]);
            }
            assert(user_var_ctx(u)->List_0 =~= json_ctx(j)->List_0);
        },
        JsonView::Object(es) => {
            let us = u->Object_0;
            assert forall|i: int| 0 <= i < es.len() implies user_var_ctx(#[trigger] us[i].1) == json_ctx(es[i].1) by {
                lemma_set_value_seen_as_given(path, es[i].1, us[i].1);
            }
            assert(user_var_ctx(u)->Object_0 =~= json_ctx(j)->Object_0);
        },
        _ => {},
    }
}

} // verus!
