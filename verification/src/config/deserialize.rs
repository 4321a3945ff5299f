//! The decisions taken while reading a configuration file, and how reading errors are reported.

use vstd::prelude::*;
use crate::app_name::AppName;
use crate::config::{AppConfig, TemplateOrigin};
use crate::config::validate::{validate, validation_report, validation_errors, errors_view};
use crate::util::{Diagnostic, DiagnosticView, Label, LabelView, SourceRef, SourceView, Span, Spanned, labels_view};

verus! {

/// A problem found while reading a configuration table: a message at a span.
#[derive(Debug, PartialEq, Eq)]
pub struct TomlIssue {
    pub message: String,
    pub span: Span,
}

pub open spec fn missing_source_message() -> Seq<char> {
    "missing template source: set exactly one of `builtin`, `file`, or `inline`"@
}

pub open spec fn conflicting_source_message() -> Seq<char> {
    "conflicting template source: set only one of `builtin`, `file`, or `inline`"@
}

pub struct IssueView {
    pub message: Seq<char>,
    pub span: Span,
}

pub open spec fn issues_view(v: Seq<TomlIssue>) -> Seq<IssueView> {
    v.map_values(|i: TomlIssue| IssueView { message: i.message@, span: i.span })
}

/// The spans of the keys among `builtin`, `file` and `inline` that are present, in that order.
pub open spec fn present_spans(
    builtin: Option<Spanned<String>>,
    file: Option<Spanned<String>>,
    inline: Option<Spanned<String>>,
) -> Seq<Span> {
    let b = match builtin { Some(x) => seq![x.span], None => Seq::empty() };
    let f = match file { Some(x) => seq![x.span], None => Seq::empty() };
    let i = match inline { Some(x) => seq![x.span], None => Seq::empty() };
    b + f + i
}

/// A template's origin must be given by exactly one of the keys `builtin`, `file` and
/// `inline`: with none, the whole table is reported; with several, each of them is.
pub open spec fn choose_origin_spec(
    table_span: Span,
    builtin: Option<Spanned<String>>,
    file: Option<Spanned<String>>,
    inline: Option<Spanned<String>>,
    r: Result<Spanned<TemplateOrigin>, Vec<TomlIssue>>,
) -> bool {
    match (builtin, file, inline) {
        (Some(b), None, None) => r matches Ok(o) && o.span == b.span
            && (o.value matches TemplateOrigin::Builtin(n) && n@ == b.value@),
        (None, Some(f), None) => r matches Ok(o) && o.span == f.span
            && (o.value matches TemplateOrigin::File(p) && p@ == f.value@),
        (None, None, Some(i)) => r matches Ok(o) && o.span == i.span
            && (o.value matches TemplateOrigin::Inline(s) && s.value@ == i.value@ && s.span == i.span),
        (None, None, None) => r matches Err(v) && issues_view(v@) == seq![
            IssueView { message: missing_source_message(), span: table_span },
        ],
        _ => r matches Err(v) && issues_view(v@) == present_spans(builtin, file, inline).map_values(
            |s: Span| IssueView { message: conflicting_source_message(), span: s },
        ),
    }
}

fn push_issue(v: &mut Vec<TomlIssue>, message: &str, span: Span)
    ensures
        issues_view(final(v)@) == issues_view(old(v)@).push(IssueView { message: message@, span }),
{
    v.push(TomlIssue { message: String::from_str(message), span });
    assert(issues_view(v@) =~= issues_view(old(v)@).push(IssueView { message: message@, span }));
}

/// Decides a template's origin from the keys `builtin`, `file` and `inline` of its table.
pub fn choose_template_origin(
    table_span: Span,
    builtin: Option<Spanned<String>>,
    file: Option<Spanned<String>>,
    inline: Option<Spanned<String>>,
) -> (r: Result<Spanned<TemplateOrigin>, Vec<TomlIssue>>)
    ensures
        choose_origin_spec(table_span, builtin, file, inline, r),
{
    let ghost (b0, f0, i0) = (builtin, file, inline);
    match (builtin, file, inline) {
        (Some(b), None, None) => Ok(Spanned { value: TemplateOrigin::Builtin(b.value), span: b.span }),
        (None, Some(f), None) => Ok(Spanned { value: TemplateOrigin::File(f.value), span: f.span }),
        (None, None, Some(i)) => Ok(
            Spanned { value: TemplateOrigin::Inline(Spanned { value: i.value, span: i.span }), span: i.span },
        ),
        (None, None, None) => {
            let mut v = Vec::new();
            push_issue(&mut v, "missing template source: set exactly one of `builtin`, `file`, or `inline`", table_span);
            assert(issues_view(v@) =~= seq![IssueView { message: missing_source_message(), span: table_span }]);
            Err(v)
        },
        (b, f, i) => {
            let msg = "conflicting template source: set only one of `builtin`, `file`, or `inline`";
            let mut v = Vec::new();
            let ghost sb: Seq<Span> = Seq::empty();
            match b {
                Some(x) => {
                    push_issue(&mut v, msg, x.span);
                },
                None => {},
            }
            match f {
                Some(x) => {
                    push_issue(&mut v, msg, x.span);
                },
                None => {},
            }
            match i {
                Some(x) => {
                    push_issue(&mut v, msg, x.span);
                },
                None => {},
            }
            assert(issues_view(v@) =~= present_spans(b0, f0, i0).map_values(
                |s: Span| IssueView { message: conflicting_source_message(), span: s },
            ));
            Err(v)
        },
    }
}

} // verus!

verus! {

/// The kinds of TOML reading errors that are reported differently.
#[derive(Debug, PartialEq, Eq)]
pub enum TomlErrorKind {
    /// Keys that the table does not accept, each with its span.
    UnexpectedKeys(Vec<(String, Span)>),
    /// A key or table defined twice; `first` is where it was first defined.
    Duplicate { first: Span },
    /// Any other error.
    Other,
}

/// A TOML reading error, as plain values.
#[derive(Debug, PartialEq, Eq)]
pub struct TomlErrorInfo {
    pub kind: TomlErrorKind,
    /// The error's message.
    pub message: String,
    pub span: Span,
}

pub open spec fn key_label(k: (String, Span)) -> LabelView {
    LabelView { message: "unexpected key `"@ + k.0@ + "`"@, span: k.1, primary: true }
}

pub open spec fn key_labels(ks: Seq<(String, Span)>) -> Seq<LabelView> {
    ks.map_values(|k: (String, Span)| key_label(k))
}

/// The labels of one reading error: every unexpected key is pointed at; a duplicate definition
/// is pointed at together with its first definition; any other error is pointed at once.
pub open spec fn error_labels_spec(e: TomlErrorInfo) -> Seq<LabelView> {
    match e.kind {
        TomlErrorKind::UnexpectedKeys(keys) => key_labels(keys@),
        TomlErrorKind::Duplicate { first } => seq![
            LabelView { message: e.message@, span: e.span, primary: true },
            LabelView { message: "first defined here"@, span: first, primary: false },
        ],
        TomlErrorKind::Other => seq![LabelView { message: e.message@, span: e.span, primary: true }],
    }
}

/// The labels of all reading errors, in order.
pub open spec fn all_error_labels(es: Seq<TomlErrorInfo>) -> Seq<LabelView>
    decreases es.len(),
{
    if es.len() == 0 {
        Seq::empty()
    } else {
        all_error_labels(es.drop_last()) + error_labels_spec(es.last())
    }
}

/// The report of a configuration file that could not be read.
pub open spec fn toml_error_report(es: Seq<TomlErrorInfo>, source: SourceView) -> DiagnosticView {
    DiagnosticView {
        message: "failed to parse vade config file"@,
        labels: all_error_labels(es),
        help: None,
        source,
    }
}

/// Appends the labels of one reading error (see [`error_labels_spec`]).
pub fn error_labels(e: &TomlErrorInfo, labels: &mut Vec<Label>)
    ensures
        labels_view(final(labels)@) == labels_view(old(labels)@) + error_labels_spec(*e),
{
    match &e.kind {
        TomlErrorKind::UnexpectedKeys(keys) => {
            let ghost start = labels_view(labels@);
            assert(key_labels(keys@.subrange(0, 0)) =~= Seq::<LabelView>::empty());
            let mut i: usize = 0;
            while i < keys.len()
                invariant
                    i <= keys@.len(),
                    labels_view(labels@) == start + key_labels(keys@.subrange(0, i as int)),
                    labels@.len() == start.len() + i,
                decreases keys@.len() - i,
            {
                let message = String::from_str("unexpected key `").concat(keys[i].0.as_str()).concat("`");
                let ghost before = labels@;
                labels.push(Label { message, span: keys[i].1, primary: true });
                assert(labels_view(labels@) =~= start + key_labels(keys@.subrange(0, i + 1))) by {
                    assert forall|k: int| 0 <= k < labels@.len() implies #[trigger] labels_view(labels@)[k]
                        == (start + key_labels(keys@.subrange(0, i + 1)))[k] by {
                        if k < before.len() {
                            assert(labels@[k] == before[k]);
                            assert(labels_view(before)[k] == (start + key_labels(keys@.subrange(0, i as int)))[k]);
                        }
                    }
                }
                i = i + 1;
            }
            assert(keys@.subrange(0, keys@.len() as int) =~= keys@);
        },
        TomlErrorKind::Duplicate { first } => {
            let ghost before = labels@;
            labels.push(Label { message: e.message.clone(), span: e.span, primary: true });
            labels.push(Label { message: String::from_str("first defined here"), span: *first, primary: false });
            assert(labels_view(labels@) =~= labels_view(before) + error_labels_spec(*e));
        },
        TomlErrorKind::Other => {
            let ghost before = labels@;
            labels.push(Label { message: e.message.clone(), span: e.span, primary: true });
            assert(labels_view(labels@) =~= labels_view(before) + error_labels_spec(*e));
        },
    }
}

/// Reports the errors found while reading a configuration file.
pub fn toml_error_to_report(errors: &Vec<TomlErrorInfo>, source: SourceRef) -> (r: Diagnostic)
    ensures
        r@ == toml_error_report(errors@, source@),
{
    let mut labels: Vec<Label> = Vec::new();
    let mut i: usize = 0;
    while i < errors.len()
        invariant
            i <= errors@.len(),
            labels_view(labels@) == all_error_labels(errors@.subrange(0, i as int)),
        decreases errors@.len() - i,
    {
        error_labels(&errors[i], &mut labels);
        proof {
            let s = errors@.subrange(0, i + 1);
            assert(s.drop_last() =~= errors@.subrange(0, i as int));
        }
        i = i + 1;
    }
    assert(errors@.subrange(0, errors@.len() as int) =~= errors@);
    assert(labels_view(Seq::<Label>::empty()) =~= Seq::<LabelView>::empty());
    Diagnostic { message: String::from_str("failed to parse vade config file"), labels, help: None, source }
}

/// Finishes loading a configuration: reading errors are reported as such; a configuration that
/// was read is then validated, and its problems reported on the same source text.
pub fn finish_load(
    app_name: &AppName,
    read: Result<AppConfig, Vec<TomlErrorInfo>>,
    source: SourceRef,
) -> (r: Result<AppConfig, Diagnostic>)
    ensures
        match read {
            Err(es) => r matches Err(d) && d@ == toml_error_report(es@, source@),
            Ok(config) => if validation_errors(app_name@, config.systemd_units@).len() == 0 {
                r matches Ok(c) && c == config
            } else {
                r matches Err(d) && d@ == validation_report(validation_errors(app_name@, config.systemd_units@), source@)
            },
        },
{
    match read {
        Err(es) => Err(toml_error_to_report(&es, source)),
        Ok(config) => match validate(app_name.as_str(), &config) {
            Ok(()) => Ok(config),
            Err(errors) => Err(errors.into_report(source)),
        },
    }
}

} // verus!
