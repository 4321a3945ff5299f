//! Spans, diagnostics and path resolution.

use vstd::prelude::*;
use crate::text::{has_prefix, has_suffix, starts_with, ends_with};

verus! {

/// A byte range in a source text.
#[derive(Clone, Copy, Debug, PartialEq, Eq, Structural)]
pub struct Span {
    pub start: usize,
    pub end: usize,
}

impl Span {
    pub fn new(start: usize, end: usize) -> (r: Span)
        ensures
            r.start == start,
            r.end == end,
    {
        Span { start, end }
    }
}

/// A value together with the span of the source text it was read from.
#[derive(Clone, Debug, PartialEq, Eq)]
pub struct Spanned<T> {
    pub value: T,
    pub span: Span,
}

/// A labelled region of a diagnostic's source text.
#[derive(Clone, Debug, PartialEq, Eq)]
pub struct Label {
    pub message: String,
    pub span: Span,
    /// Whether the label is the primary one (drawn as the main location of the problem).
    pub primary: bool,
}

/// The source text a diagnostic points into.
#[derive(Clone, Debug, PartialEq, Eq)]
pub enum SourceRef {
    /// No source text is attached.
    NoSource,
    /// An anonymous source text.
    Text(String),
    /// A source text with a name (usually a file path).
    Named { name: String, text: String },
}

/// An error report: a message, labels into a source text and an optional help text.
#[derive(Clone, Debug, PartialEq, Eq)]
pub struct Diagnostic {
    pub message: String,
    pub labels: Vec<Label>,
    pub help: Option<String>,
    pub source: SourceRef,
}

/// The view of a [`Label`].
pub struct LabelView {
    pub message: Seq<char>,
    pub span: Span,
    pub primary: bool,
}

/// The view of a [`SourceRef`].
pub enum SourceView {
    NoSource,
    Text(Seq<char>),
    Named { name: Seq<char>, text: Seq<char> },
}

/// The view of a [`Diagnostic`].
pub struct DiagnosticView {
    pub message: Seq<char>,
    pub labels: Seq<LabelView>,
    pub help: Option<Seq<char>>,
    pub source: SourceView,
}

pub open spec fn label_view(l: Label) -> LabelView {
    LabelView { message: l.message@, span: l.span, primary: l.primary }
}

pub open spec fn source_view(s: SourceRef) -> SourceView {
    match s {
        SourceRef::NoSource => SourceView::NoSource,
        SourceRef::Text(t) => SourceView::Text(t@),
        SourceRef::Named { name, text } => SourceView::Named { name: name@, text: text@ },
    }
}

pub open spec fn opt_view(o: Option<String>) -> Option<Seq<char>> {
    match o {
        Some(s) => Some(s@),
        None => None,
    }
}

pub open spec fn labels_view(ls: Seq<Label>) -> Seq<LabelView> {
    ls.map_values(|l: Label| label_view(l))
}

impl View for Label {
    type V = LabelView;

    open spec fn view(&self) -> LabelView {
        label_view(*self)
    }
}

impl View for SourceRef {
    type V = SourceView;

    open spec fn view(&self) -> SourceView {
        source_view(*self)
    }
}

impl View for Diagnostic {
    type V = DiagnosticView;

    open spec fn view(&self) -> DiagnosticView {
        DiagnosticView {
            message: self.message@,
            labels: labels_view(self.labels@),
            help: opt_view(self.help),
            source: source_view(self.source),
        }
    }
}

/// A diagnostic with a single non-primary label.
pub open spec fn single_label_view(
    message: Seq<char>,
    details: Seq<char>,
    span: Span,
    help: Option<Seq<char>>,
    source: SourceView,
) -> DiagnosticView {
    DiagnosticView {
        message,
        labels: seq![LabelView { message: details, span, primary: false }],
        help,
        source,
    }
}

impl Diagnostic {
    /// A diagnostic that is only a message.
    pub fn message_only(message: String) -> (r: Diagnostic)
        ensures
            r.message@ == message@,
            r.labels@.len() == 0,
            r.help is None,
            r.source == SourceRef::NoSource,
    {
        Diagnostic { message, labels: Vec::new(), help: None, source: SourceRef::NoSource }
    }
}

/// A non-primary label carrying `message` at `span`.
pub fn labeled_span(message: String, span: Span) -> (r: Label)
    ensures
        r.message@ == message@,
        r.span == span,
        !r.primary,
{
    Label { message, span, primary: false }
}

/// A diagnostic with one label.
pub fn diagnostic(error: &str, details: String, span: Span, source: SourceRef) -> (r: Diagnostic)
    ensures
        r@ == single_label_view(error@, details@, span, None, source@),
{
    let mut labels = Vec::new();
    labels.push(labeled_span(details, span));
    let r = Diagnostic { message: String::from_str(error), labels, help: None, source };
    assert(r@.labels =~= seq![LabelView { message: details@, span, primary: false }]);
    r
}

/// A diagnostic with one label and a help text.
pub fn diagnostic_with_help(
    error: &str,
    details: String,
    help: String,
    span: Span,
    source: SourceRef,
) -> (r: Diagnostic)
    ensures
        r@ == single_label_view(error@, details@, span, Some(help@), source@),
{
    let mut labels = Vec::new();
    labels.push(labeled_span(details, span));
    let r = Diagnostic { message: String::from_str(error), labels, help: Some(help), source };
    assert(r@.labels =~= seq![LabelView { message: details@, span, primary: false }]);
    r
}

/// Whether a (Unix) path is absolute, i.e. starts at the root.
pub open spec fn is_absolute_path(p: Seq<char>) -> bool {
    p.len() > 0 && p[0] == '/'
}

/// `base` joined with `path`, as `Path::join` does on Unix: an absolute `path` replaces `base`;
/// otherwise a separator is put between them unless `base` is empty or already ends with one.
pub open spec fn join_path(base: Seq<char>, path: Seq<char>) -> Seq<char> {
    if is_absolute_path(path) {
        path
    } else if base.len() == 0 || base[base.len() - 1] == '/' {
        base + path
    } else {
        base + seq!['/'] + path
    }
}

/// Joins two paths (see [`join_path`]).
pub fn join(base: &str, path: &str) -> (r: String)
    ensures
        r@ == join_path(base@, path@),
{
    let abs = starts_with(path, "/");
    let sep = ends_with(base, "/");
    proof {
        reveal_strlit("/");
        assert("/"@ =~= seq!['/']);
        if path@.len() > 0 {
            if path@[0] == '/' {
                assert(path@.subrange(0, 1) =~= seq!['/']);
            }
            assert(path@.subrange(0, 1)[0] == path@[0]);
        }
        assert(abs == is_absolute_path(path@));
        if base@.len() > 0 {
            let l = base@.len() - 1;
            if base@[l] == '/' {
                assert(base@.subrange(l, base@.len() as int) =~= seq!['/']);
            }
            assert(base@.subrange(l, base@.len() as int)[0] == base@[l]);
            assert(sep == (base@[l] == '/'));
        }
    }
    if abs {
        String::from_str(path)
    } else if base.unicode_len() == 0 || sep {
        String::from_str(base).concat(path)
    } else {
        String::from_str(base).concat("/").concat(path)
    }
}

/// Resolves relative paths against a fixed root directory.
#[derive(Clone, Debug)]
pub struct RelativePathResolver {
    root: String,
}

/// A path that has been resolved against a root.
#[derive(Clone, Debug, PartialEq, Eq)]
pub struct ResolvedPath {
    inner: String,
}

impl View for RelativePathResolver {
    type V = Seq<char>;

    closed spec fn view(&self) -> Seq<char> {
        self.root@
    }
}

impl View for ResolvedPath {
    type V = Seq<char>;

    closed spec fn view(&self) -> Seq<char> {
        self.inner@
    }
}

impl RelativePathResolver {
    pub fn with_root(root: String) -> (r: Self)
        ensures
            r@ == root@,
    {
        Self { root }
    }

    /// An absolute `path` is kept as it is; a relative one is resolved against the root.
    pub fn resolve(&self, path: &str) -> (r: ResolvedPath)
        ensures
            r@ == join_path(self@, path@),
            is_absolute_path(path@) ==> r@ == path@,
    {
        ResolvedPath { inner: join(self.root.as_str(), path) }
    }
}

impl ResolvedPath {
    pub fn from_str(s: &str) -> (r: Self)
        ensures
            r@ == s@,
    {
        Self { inner: String::from_str(s) }
    }

    pub fn as_str(&self) -> (r: &str)
        ensures
            r@ == self@,
    {
        self.inner.as_str()
    }
}

} // verus!

verus! {

/// What `Path::parent` gives for a path: the path without its last component, or none when the
/// path ends in a root or is empty. Paths are read with the syntax of the platform the library
/// runs on, a Unix one for a tool that prepares systemd and Caddy deployments.
pub uninterp spec fn path_parent_result(p: Seq<char>) -> Option<Seq<char>>;

/// `Path::parent` of `p`, the parent shown with `Path::display`. Claimed: the result is what
/// [`path_parent_result`] names for `p`, and, as `Path::parent`'s documentation says, there is
/// none for the empty path and for the root.
#[verifier::external_body]
pub(crate) fn path_parent(p: &str) -> (r: Option<String>)
    ensures
        match r {
            Some(s) => path_parent_result(p@) == Some(s@),
            None => path_parent_result(p@) is None,
        },
        p@.len() == 0 ==> r is None,
        p@ == seq!['/'] ==> r is None,
{
    std::path::Path::new(p).parent().map(|q| q.display().to_string())
}

} // verus!
