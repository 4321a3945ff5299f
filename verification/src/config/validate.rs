//! Semantic checks on a structurally valid configuration.

use vstd::prelude::*;
use vstd::utf8::encode_utf8;
use crate::config::{AppConfig, SystemdUnitConfig, opt_spanned_view};
use crate::text::{decimal, format_decimal, push_char, str_eq};
use crate::util::{Diagnostic, DiagnosticView, Label, LabelView, SourceRef, Span, Spanned};

verus! {

/// The file extensions that systemd units may have.
pub open spec fn unit_extensions() -> Seq<Seq<char>> {
    seq![
        "service"@, "socket"@, "device"@, "mount"@, "automount"@, "swap"@, "target"@, "path"@,
        "timer"@, "slice"@, "scope"@,
    ]
}

/// The valid extensions, as listed in the error message.
pub open spec fn unit_extensions_text() -> Seq<char> {
    "service, socket, device, mount, automount, swap, target, path, timer, slice, scope"@
}

/// Characters allowed in a unit's file name suffix.
pub open spec fn is_suffix_char(c: char) -> bool {
    crate::app_name::is_ascii_alnum(c) || c == ':' || c == '-' || c == '_' || c == '.' || c == '\\'
}

/// The characters of `s` that are not allowed in a suffix, in order.
pub open spec fn invalid_suffix_chars(s: Seq<char>) -> Seq<char>
    decreases s.len(),
{
    if s.len() == 0 {
        Seq::empty()
    } else if is_suffix_char(s.last()) {
        invalid_suffix_chars(s.drop_last())
    } else {
        invalid_suffix_chars(s.drop_last()).push(s.last())
    }
}

/// The characters of `cs` separated by `, `.
pub open spec fn join_chars(cs: Seq<char>) -> Seq<char>
    decreases cs.len(),
{
    if cs.len() == 0 {
        Seq::empty()
    } else if cs.len() == 1 {
        seq![cs[0]]
    } else {
        join_chars(cs.drop_last()) + ", "@ + seq![cs.last()]
    }
}

/// A problem found in the configuration, located at a span.
#[derive(Debug)]
pub struct ValidationError {
    pub span: Span,
    pub message: String,
}

/// The view of a [`ValidationError`].
pub struct ErrorView {
    pub span: Span,
    pub message: Seq<char>,
}

pub open spec fn error_view(e: ValidationError) -> ErrorView {
    ErrorView { span: e.span, message: e.message@ }
}

pub open spec fn errors_view(es: Seq<ValidationError>) -> Seq<ErrorView> {
    es.map_values(|e: ValidationError| error_view(e))
}

pub open spec fn suffix_message(invalid: Seq<char>) -> Seq<char> {
    "the following characters are not allowed in a systemd unit filename: "@ + join_chars(invalid)
}

pub open spec fn extension_message(ext: Seq<char>) -> Seq<char> {
    "`"@ + ext + "` is not a valid systemd unit extension (valid extensions are: "@
        + unit_extensions_text() + ")"@
}

pub open spec fn length_message(len: nat) -> Seq<char> {
    "The total length of the unit name must not exceed 255 characters, but it is currently "@
        + decimal(len) + " characters"@
}

pub open spec fn duplicate_message(filename: Seq<char>) -> Seq<char> {
    "systemd unit filename `"@ + filename
        + "` is declared multiple times, you can use the `filename-suffix` and `file-extension` properties to differentiate between them"@
}

/// The problems with one unit's file name: a suffix with characters that are not allowed, an
/// extension that systemd does not know, and a name longer than 255 bytes, in that order.
pub open spec fn unit_errors(app_name: Seq<char>, u: Spanned<SystemdUnitConfig>) -> Seq<ErrorView> {
    let e1 = match u.value.filename_suffix {
        Some(s) => if invalid_suffix_chars(s.value@).len() > 0 {
            seq![ErrorView { span: s.span, message: suffix_message(invalid_suffix_chars(s.value@)) }]
        } else {
            Seq::empty()
        },
        None => Seq::empty(),
    };
    let e2 = match u.value.file_extension {
        Some(e) => if !unit_extensions().contains(e.value@) {
            seq![ErrorView { span: e.span, message: extension_message(e.value@) }]
        } else {
            Seq::empty()
        },
        None => Seq::empty(),
    };
    let len = encode_utf8(u.value.filename_spec(app_name)).len();
    let e3 = if len > 255 {
        seq![ErrorView { span: u.span, message: length_message(len) }]
    } else {
        Seq::empty()
    };
    e1 + e2 + e3
}

/// The file-name problems of all units, unit by unit.
pub open spec fn all_unit_errors(app_name: Seq<char>, units: Seq<Spanned<SystemdUnitConfig>>) -> Seq<ErrorView>
    decreases units.len(),
{
    if units.len() == 0 {
        Seq::empty()
    } else {
        all_unit_errors(app_name, units.drop_last()) + unit_errors(app_name, units.last())
    }
}

/// How many units have the given file name.
pub open spec fn filename_count(app_name: Seq<char>, units: Seq<Spanned<SystemdUnitConfig>>, name: Seq<char>) -> nat
    decreases units.len(),
{
    if units.len() == 0 {
        0
    } else {
        filename_count(app_name, units.drop_last(), name) + if units.last().value.filename_spec(app_name) == name {
            1nat
        } else {
            0nat
        }
    }
}

/// One error for every unit whose file name is shared with another unit, in unit order.
pub open spec fn duplicate_errors_upto(app_name: Seq<char>, units: Seq<Spanned<SystemdUnitConfig>>, n: int) -> Seq<ErrorView>
    decreases n,
{
    if n <= 0 {
        Seq::empty()
    } else {
        let u = units[n - 1];
        let name = u.value.filename_spec(app_name);
        let rest = duplicate_errors_upto(app_name, units, n - 1);
        if filename_count(app_name, units, name) >= 2 {
            rest.push(ErrorView { span: u.span, message: duplicate_message(name) })
        } else {
            rest
        }
    }
}

pub open spec fn duplicate_errors(app_name: Seq<char>, units: Seq<Spanned<SystemdUnitConfig>>) -> Seq<ErrorView> {
    duplicate_errors_upto(app_name, units, units.len() as int)
}

/// Inserts `e` after the leading elements whose start is at most `e`'s.
pub open spec fn insert_by_start(s: Seq<ErrorView>, e: ErrorView) -> Seq<ErrorView>
    decreases s.len(),
{
    if s.len() == 0 {
        seq![e]
    } else if e.span.start < s[0].span.start {
        seq![e] + s
    } else {
        seq![s[0]] + insert_by_start(s.drop_first(), e)
    }
}

/// `s` stably sorted by span start (insertion sort).
pub open spec fn sort_by_start(s: Seq<ErrorView>) -> Seq<ErrorView>
    decreases s.len(),
{
    if s.len() == 0 {
        Seq::empty()
    } else {
        insert_by_start(sort_by_start(s.drop_last()), s.last())
    }
}

/// The result of validating a configuration: all problems, in source order.
pub open spec fn validation_errors(app_name: Seq<char>, units: Seq<Spanned<SystemdUnitConfig>>) -> Seq<ErrorView> {
    sort_by_start(all_unit_errors(app_name, units) + duplicate_errors(app_name, units))
}

fn is_suffix_char_exec(c: char) -> (b: bool)
    ensures
        b == is_suffix_char(c),
{
    ('a' <= c && c <= 'z') || ('A' <= c && c <= 'Z') || ('0' <= c && c <= '9') || c == ':' || c == '-'
        || c == '_' || c == '.' || c == '\\'
}

/// The characters of a suffix that are not allowed, separated by `, `.
fn invalid_chars_joined(s: &str) -> (r: String)
    ensures
        r@ == join_chars(invalid_suffix_chars(s@)),
{
    let n = s.unicode_len();
    let mut out = String::new();
    let mut any = false;
    let mut i: usize = 0;
    while i < n
        invariant
            n == s@.len(),
            i <= n,
            any == (invalid_suffix_chars(s@.subrange(0, i as int)).len() > 0),
            out@ == join_chars(invalid_suffix_chars(s@.subrange(0, i as int))),
        decreases n - i,
    {
        let c = s.get_char(i);
        proof {
            assert(s@.subrange(0, i + 1).drop_last() =~= s@.subrange(0, i as int));
            assert(s@.subrange(0, i + 1).last() == c);
        }
        if !is_suffix_char_exec(c) {
            proof {
                let prev = invalid_suffix_chars(s@.subrange(0, i as int));
                let next = prev.push(c);
                assert(next.drop_last() =~= prev);
            }
            if any {
                out = out.concat(", ");
            }
            push_char(&mut out, c);
            any = true;
        }
        i = i + 1;
    }
    assert(s@.subrange(0, n as int) =~= s@);
    out
}

fn is_unit_extension(e: &str) -> (b: bool)
    ensures
        b == unit_extensions().contains(e@),
{
    let b = str_eq(e, "service") || str_eq(e, "socket") || str_eq(e, "device") || str_eq(e, "mount")
        || str_eq(e, "automount") || str_eq(e, "swap") || str_eq(e, "target") || str_eq(e, "path")
        || str_eq(e, "timer") || str_eq(e, "slice") || str_eq(e, "scope");
    proof {
        let x = unit_extensions();
        assert(x.len() == 11);
        assert(x[0] == "service"@ && x[1] == "socket"@ && x[2] == "device"@ && x[3] == "mount"@
            && x[4] == "automount"@ && x[5] == "swap"@ && x[6] == "target"@ && x[7] == "path"@
            && x[8] == "timer"@ && x[9] == "slice"@ && x[10] == "scope"@);
        if b {
            let i = if e@ == x[0] { 0int } else if e@ == x[1] { 1int } else if e@ == x[2] { 2int }
                else if e@ == x[3] { 3int } else if e@ == x[4] { 4int } else if e@ == x[5] { 5int }
                else if e@ == x[6] { 6int } else if e@ == x[7] { 7int } else if e@ == x[8] { 8int }
                else if e@ == x[9] { 9int } else { 10int };
            assert(x[i] == e@);
        } else {
            assert forall|i: int| 0 <= i < x.len() implies x[i] != e@ by {}
        }
    }
    b
}

fn push_error(errors: &mut Vec<ValidationError>, span: Span, message: String)
    ensures
        errors_view(final(errors)@) == errors_view(old(errors)@).push(ErrorView { span, message: message@ }),
{
    errors.push(ValidationError { span, message });
    assert(errors_view(errors@) =~= errors_view(old(errors)@).push(ErrorView { span, message: message@ }));
}

fn check_unit_filename(app_name: &str, unit: &Spanned<SystemdUnitConfig>, errors: &mut Vec<ValidationError>)
    ensures
        errors_view(final(errors)@) == errors_view(old(errors)@) + unit_errors(app_name@, *unit),
{
    let ghost start = errors_view(errors@);
    let ghost e1: Seq<ErrorView> = Seq::empty();
    match &unit.value.filename_suffix {
        Some(suffix) => {
            let invalid = invalid_chars_joined(suffix.value.as_str());
            proof {
                if invalid_suffix_chars(suffix.value@).len() > 0 {
                    assert(invalid@.len() > 0) by {
                        lemma_join_chars_nonempty(invalid_suffix_chars(suffix.value@));
                    }
                } else {
                    assert(invalid@.len() == 0);
                }
            }
            if invalid.unicode_len() > 0 {
                let message = String::from_str(
                    "the following characters are not allowed in a systemd unit filename: ",
                ).concat(invalid.as_str());
                push_error(errors, suffix.span, message);
                proof {
                    e1 = seq![ErrorView { span: suffix.span, message: suffix_message(invalid_suffix_chars(suffix.value@)) }];
                }
            }
        },
        None => {},
    }
    assert(errors_view(errors@) == start + e1);
    let ghost e2: Seq<ErrorView> = Seq::empty();
    match &unit.value.file_extension {
        Some(ext) => {
            if !is_unit_extension(ext.value.as_str()) {
                let message = String::from_str("`").concat(ext.value.as_str()).concat(
                    "` is not a valid systemd unit extension (valid extensions are: ",
                ).concat("service, socket, device, mount, automount, swap, target, path, timer, slice, scope").concat(")");
                push_error(errors, ext.span, message);
                proof {
                    e2 = seq![ErrorView { span: ext.span, message: extension_message(ext.value@) }];
                }
            }
        },
        None => {},
    }
    assert(errors_view(errors@) == start + e1 + e2);
    let name = unit.value.filename(app_name);
    let len = name.as_str().as_bytes().len();
    if len > 255 {
        let message = String::from_str(
            "The total length of the unit name must not exceed 255 characters, but it is currently ",
        ).concat(format_decimal(len).as_str()).concat(" characters");
        push_error(errors, unit.span, message);
    }
    assert(errors_view(errors@) =~= start + unit_errors(app_name@, *unit));
}

proof fn lemma_join_chars_nonempty(cs: Seq<char>)
    requires
        cs.len() > 0,
    ensures
        join_chars(cs).len() > 0,
    decreases cs.len(),
{
}

/// Appends the file-name problems of every unit, unit by unit.
pub fn check_unit_filenames(app_name: &str, units: &Vec<Spanned<SystemdUnitConfig>>, errors: &mut Vec<ValidationError>)
    ensures
        errors_view(final(errors)@) == errors_view(old(errors)@) + all_unit_errors(app_name@, units@),
{
    let n = units.len();
    let mut i: usize = 0;
    while i < n
        invariant
            n == units@.len(),
            i <= n,
            errors_view(errors@) == errors_view(old(errors)@) + all_unit_errors(app_name@, units@.subrange(0, i as int)),
        decreases n - i,
    {
        check_unit_filename(app_name, &units[i], errors);
        proof {
            let s = units@.subrange(0, i + 1);
            assert(s.drop_last() =~= units@.subrange(0, i as int));
            assert(s.last() == units@[i as int]);
            assert(errors_view(errors@) =~= errors_view(old(errors)@) + all_unit_errors(app_name@, s));
        }
        i = i + 1;
    }
    assert(units@.subrange(0, n as int) =~= units@);
}

fn count_filename(app_name: &str, units: &Vec<Spanned<SystemdUnitConfig>>, name: &str) -> (c: usize)
    ensures
        c == filename_count(app_name@, units@, name@),
{
    let n = units.len();
    let mut c: usize = 0;
    let mut j: usize = 0;
    while j < n
        invariant
            n == units@.len(),
            j <= n,
            c <= j,
            c == filename_count(app_name@, units@.subrange(0, j as int), name@),
        decreases n - j,
    {
        let other = units[j].value.filename(app_name);
        proof {
            let s = units@.subrange(0, j + 1);
            assert(s.drop_last() =~= units@.subrange(0, j as int));
            assert(s.last() == units@[j as int]);
        }
        if str_eq(other.as_str(), name) {
            c = c + 1;
        }
        j = j + 1;
    }
    assert(units@.subrange(0, n as int) =~= units@);
    c
}

/// Appends one error for every unit whose file name is shared with another unit.
pub fn check_duplicate_unit_filenames(app_name: &str, units: &Vec<Spanned<SystemdUnitConfig>>, errors: &mut Vec<ValidationError>)
    ensures
        errors_view(final(errors)@) == errors_view(old(errors)@) + duplicate_errors(app_name@, units@),
{
    let n = units.len();
    let mut i: usize = 0;
    while i < n
        invariant
            n == units@.len(),
            i <= n,
            errors_view(errors@) == errors_view(old(errors)@) + duplicate_errors_upto(app_name@, units@, i as int),
        decreases n - i,
    {
        let name = units[i].value.filename(app_name);
        let count = count_filename(app_name, units, name.as_str());
        let ghost before = errors_view(errors@);
        if count >= 2 {
            let message = String::from_str("systemd unit filename `").concat(name.as_str()).concat(
                "` is declared multiple times, you can use the `filename-suffix` and `file-extension` properties to differentiate between them",
            );
            push_error(errors, units[i].span, message);
        }
        proof {
            assert(errors_view(errors@) =~= errors_view(old(errors)@) + duplicate_errors_upto(app_name@, units@, i + 1));
        }
        i = i + 1;
    }
}

proof fn lemma_insert_by_start_at(s: Seq<ErrorView>, e: ErrorView, k: int)
    requires
        0 <= k <= s.len(),
        forall|j: int| 0 <= j < k ==> s[j].span.start <= e.span.start,
        k < s.len() ==> e.span.start < s[k].span.start,
    ensures
        insert_by_start(s, e) == s.subrange(0, k) + seq![e] + s.subrange(k, s.len() as int),
    decreases s.len(),
{
    if s.len() == 0 {
        assert(s.subrange(0, k) + seq![e] + s.subrange(k, s.len() as int) =~= seq![e]);
    } else if k == 0 {
        assert(s.subrange(0, k) + seq![e] + s.subrange(k, s.len() as int) =~= seq![e] + s);
    } else {
        lemma_insert_by_start_at(s.drop_first(), e, k - 1);
        assert(seq![s[0]] + (s.drop_first().subrange(0, k - 1) + seq![e] + s.drop_first().subrange(k - 1, s.len() - 1))
            =~= s.subrange(0, k) + seq![e] + s.subrange(k, s.len() as int));
    }
}

/// Inserts `e` into `v` as [`insert_by_start`] does.
fn insert_error(v: &mut Vec<ValidationError>, e: ValidationError)
    ensures
        errors_view(final(v)@) == insert_by_start(errors_view(old(v)@), error_view(e)),
{
    let n = v.len();
    let mut k: usize = 0;
    while k < n && v[k].span.start <= e.span.start
        invariant
            n == v@.len(),
            k <= n,
            v@ == old(v)@,
            forall|j: int| 0 <= j < k ==> v@[j].span.start <= e.span.start,
        decreases n - k,
    {
        k = k + 1;
    }
    let ghost ev = error_view(e);
    proof {
        lemma_insert_by_start_at(errors_view(v@), ev, k as int);
    }
    v.insert(k, e);
    assert(errors_view(v@) =~= errors_view(old(v)@).subrange(0, k as int) + seq![ev]
        + errors_view(old(v)@).subrange(k as int, n as int));
}

/// Sorts errors stably by where they start.
fn sort_errors(errors: Vec<ValidationError>) -> (r: Vec<ValidationError>)
    ensures
        errors_view(r@) == sort_by_start(errors_view(errors@)),
{
    let ghost all = errors_view(errors@);
    let mut out: Vec<ValidationError> = Vec::new();
    let mut rest = errors;
    let ghost mut done: Seq<ErrorView> = Seq::empty();
    while rest.len() > 0
        invariant
            all == done + errors_view(rest@),
            errors_view(out@) == sort_by_start(done),
        decreases rest@.len(),
    {
        let ghost old_rest = rest@;
        let x = rest.remove(0);
        proof {
            assert(errors_view(old_rest) =~= seq![error_view(x)] + errors_view(rest@));
            let nd = done.push(error_view(x));
            assert(nd.drop_last() =~= done);
            assert(all =~= nd + errors_view(rest@));
            done = nd;
        }
        insert_error(&mut out, x);
    }
    assert(done =~= all);
    out
}

/// All problems found in a configuration.
#[derive(Debug)]
pub struct ValidationErrors {
    pub errors: Vec<ValidationError>,
}

} // verus!

verus! {

pub open spec fn primary_label(e: ErrorView) -> LabelView {
    LabelView { message: e.message, span: e.span, primary: true }
}

pub open spec fn primary_labels(es: Seq<ErrorView>) -> Seq<LabelView> {
    es.map_values(|e: ErrorView| primary_label(e))
}

/// The report of a failed validation: one primary label per problem.
pub open spec fn validation_report(errors: Seq<ErrorView>, source: crate::util::SourceView) -> DiagnosticView {
    DiagnosticView {
        message: "invalid vade config file"@,
        labels: primary_labels(errors),
        help: None,
        source,
    }
}

impl ValidationErrors {
    /// The problems as one report on the given source text.
    pub fn into_report(self, source: SourceRef) -> (r: Diagnostic)
        ensures
            r@ == validation_report(errors_view(self.errors@), source@),
    {
        let ghost all = errors_view(self.errors@);
        let mut labels: Vec<Label> = Vec::new();
        let mut rest = self.errors;
        let ghost mut done: Seq<ErrorView> = Seq::empty();
        while rest.len() > 0
            invariant
                all == done + errors_view(rest@),
                crate::util::labels_view(labels@) == primary_labels(done),
                labels@.len() == done.len(),
            decreases rest@.len(),
        {
            let ghost old_rest = rest@;
            let e = rest.remove(0);
            proof {
                assert(errors_view(old_rest) =~= seq![error_view(e)] + errors_view(rest@));
            }
            let ghost before = labels@;
            let ghost ev = error_view(e);
            let l = Label { message: e.message, span: e.span, primary: true };
            assert(crate::util::label_view(l) == primary_label(ev));
            labels.push(l);
            proof {
                let nd = done.push(ev);
                assert(all =~= nd + errors_view(rest@));
                assert(labels@ == before.push(l));
                assert(crate::util::labels_view(labels@) =~= primary_labels(nd)) by {
                    assert forall|k: int| 0 <= k < labels@.len() implies #[trigger] crate::util::labels_view(labels@)[k] == primary_labels(nd)[k] by {
                        if k < before.len() {
                            assert(crate::util::labels_view(before)[k] == primary_labels(done)[k]);
                        }
                    }
                }
                done = nd;
            }
        }
        assert(done =~= all);
        Diagnostic { message: String::from_str("invalid vade config file"), labels, help: None, source }
    }
}

/// Runs all semantic checks on a structurally valid configuration: the problems of every
/// unit's file name and the file names declared more than once, reported in source order.
pub fn validate(app_name: &str, config: &AppConfig) -> (r: Result<(), ValidationErrors>)
    ensures
        r is Ok <==> validation_errors(app_name@, config.systemd_units@).len() == 0,
        r matches Err(e) ==> errors_view(e.errors@) == validation_errors(app_name@, config.systemd_units@),
{
    let mut errors: Vec<ValidationError> = Vec::new();
    check_unit_filenames(app_name, &config.systemd_units, &mut errors);
    check_duplicate_unit_filenames(app_name, &config.systemd_units, &mut errors);
    assert(errors_view(errors@) =~= all_unit_errors(app_name@, config.systemd_units@) + duplicate_errors(app_name@, config.systemd_units@));
    if errors.len() == 0 {
        proof {
            lemma_sort_len(errors_view(errors@));
        }
        Ok(())
    } else {
        let sorted = sort_errors(errors);
        proof {
            lemma_sort_len(all_unit_errors(app_name@, config.systemd_units@) + duplicate_errors(app_name@, config.systemd_units@));
        }
        Err(ValidationErrors { errors: sorted })
    }
}

proof fn lemma_insert_len(s: Seq<ErrorView>, e: ErrorView)
    ensures
        insert_by_start(s, e).len() == s.len() + 1,
    decreases s.len(),
{
    if s.len() > 0 && !(e.span.start < s[0].span.start) {
        lemma_insert_len(s.drop_first(), e);
    }
}

proof fn lemma_sort_len(s: Seq<ErrorView>)
    ensures
        sort_by_start(s).len() == s.len(),
    decreases s.len(),
{
    if s.len() > 0 {
        lemma_sort_len(s.drop_last());
        lemma_insert_len(sort_by_start(s.drop_last()), s.last());
    }
}

/// Whether problems are listed in source order.
pub open spec fn in_source_order(s: Seq<ErrorView>) -> bool {
    forall|i: int, j: int| 0 <= i <= j < s.len() ==> s[i].span.start <= s[j].span.start
}

proof fn lemma_insert_sorted(s: Seq<ErrorView>, e: ErrorView)
    requires
        in_source_order(s),
    ensures
        in_source_order(insert_by_start(s, e)),
        insert_by_start(s, e).to_multiset() == s.to_multiset().insert(e),
    decreases s.len(),
{
    broadcast use vstd::seq_lib::group_to_multiset_ensures;
    if s.len() == 0 {
        assert(seq![e].to_multiset() == Seq::<ErrorView>::empty().push(e).to_multiset()) by {
            assert(seq![e] =~= Seq::<ErrorView>::empty().push(e));
        }
    } else if e.span.start < s[0].span.start {
        let r = seq![e] + s;
        assert(r =~= s.insert(0, e));
    } else {
        let t = s.drop_first();
        assert(in_source_order(t)) by {
            assert forall|i: int, j: int| 0 <= i <= j < t.len() implies t[i].span.start <= t[j].span.start by {
                assert(t[i] == s[i + 1] && t[j] == s[j + 1]);
            }
        }
        lemma_insert_sorted(t, e);
        let it = insert_by_start(t, e);
        let r = seq![s[0]] + it;
        lemma_insert_len(t, e);
        assert forall|k: int| 0 <= k < it.len() implies s[0].span.start <= #[trigger] it[k].span.start by {
            assert(it.to_multiset().count(it[k]) > 0);
            assert(t.to_multiset().insert(e).count(it[k]) > 0);
            if it[k] != e {
                assert(t.to_multiset().count(it[k]) > 0);
                assert(t.contains(it[k]));
                let m = choose|m: int| 0 <= m < t.len() && t[m] == it[k];
                assert(t[m] == s[m + 1]);
            }
        }
        assert forall|i: int, j: int| 0 <= i <= j < r.len() implies r[i].span.start <= r[j].span.start by {
            if i == 0 {
                if j > 0 {
                    assert(r[j] == it[j - 1]);
                }
            } else {
                assert(r[i] == it[i - 1] && r[j] == it[j - 1]);
            }
        }
        assert(r =~= it.insert(0, s[0]));
        assert(s =~= t.insert(0, s[0]));
    }
}

/// Sorting lists the problems in source order and keeps exactly the same problems.
pub proof fn lemma_sort_by_start(s: Seq<ErrorView>)
    ensures
        in_source_order(sort_by_start(s)),
        sort_by_start(s).to_multiset() == s.to_multiset(),
    decreases s.len(),
{
    broadcast use vstd::seq_lib::group_to_multiset_ensures;
    if s.len() > 0 {
        lemma_sort_by_start(s.drop_last());
        lemma_insert_sorted(sort_by_start(s.drop_last()), s.last());
        assert(s =~= s.drop_last().push(s.last()));
    }
}

/// The problems that validation reports are listed in source order, and they are exactly the
/// problems of the units' file names and the duplicated file names.
pub proof fn lemma_validation_in_source_order(app_name: Seq<char>, units: Seq<Spanned<SystemdUnitConfig>>)
    ensures
        in_source_order(validation_errors(app_name, units)),
        validation_errors(app_name, units).to_multiset() == (all_unit_errors(app_name, units)
            + duplicate_errors(app_name, units)).to_multiset(),
{
    lemma_sort_by_start(all_unit_errors(app_name, units) + duplicate_errors(app_name, units));
}

} // verus!

verus! {

proof fn lemma_count_one(app_name: Seq<char>, units: Seq<Spanned<SystemdUnitConfig>>, i: int, name: Seq<char>)
    requires
        0 <= i < units.len(),
        units[i].value.filename_spec(app_name) == name,
    ensures
        filename_count(app_name, units, name) >= 1,
    decreases units.len(),
{
    if i < units.len() - 1 {
        lemma_count_one(app_name, units.drop_last(), i, name);
    }
}

proof fn lemma_count_two(app_name: Seq<char>, units: Seq<Spanned<SystemdUnitConfig>>, i: int, j: int, name: Seq<char>)
    requires
        0 <= i < j < units.len(),
        units[i].value.filename_spec(app_name) == name,
        units[j].value.filename_spec(app_name) == name,
    ensures
        filename_count(app_name, units, name) >= 2,
    decreases units.len(),
{
    if j == units.len() - 1 {
        lemma_count_one(app_name, units.drop_last(), i, name);
    } else {
        lemma_count_two(app_name, units.drop_last(), i, j, name);
    }
}

proof fn lemma_duplicate_errors_grow(app_name: Seq<char>, units: Seq<Spanned<SystemdUnitConfig>>, j: int, n: int)
    requires
        0 <= j < n <= units.len(),
        filename_count(app_name, units, units[j].value.filename_spec(app_name)) >= 2,
    ensures
        duplicate_errors_upto(app_name, units, n).len() >= 1,
    decreases n,
{
    if n - 1 > j {
        lemma_duplicate_errors_grow(app_name, units, j, n - 1);
    }
}

/// Two systemd units with the same file name are refused: validation reports errors.
pub proof fn lemma_duplicate_names_refused(app_name: Seq<char>, units: Seq<Spanned<SystemdUnitConfig>>, i: int, j: int)
    requires
        0 <= i < j < units.len(),
        units[i].value.filename_spec(app_name) == units[j].value.filename_spec(app_name),
    ensures
        validation_errors(app_name, units).len() > 0,
{
    let name = units[j].value.filename_spec(app_name);
    lemma_count_two(app_name, units, i, j, name);
    lemma_duplicate_errors_grow(app_name, units, j, units.len() as int);
    lemma_sort_len(all_unit_errors(app_name, units) + duplicate_errors(app_name, units));
}

} // verus!

verus! {

/// A suffix character is refused exactly when it is none of the ASCII letters and digits and
/// `:`, `-`, `_`, `.` and `\`: every refused character is reported, in order, and only those.
pub proof fn lemma_suffix_chars_refused(s: Seq<char>)
    ensures
        invalid_suffix_chars(s) == s.filter(
            |c: char|
                !(('a' <= c && c <= 'z') || ('A' <= c && c <= 'Z') || ('0' <= c && c <= '9') || c == ':' || c == '-'
                    || c == '_' || c == '.' || c == '\\'),
        ),
        (forall|i: int|
            0 <= i < s.len() ==> ('a' <= #[trigger] s[i] && s[i] <= 'z') || ('A' <= s[i] && s[i] <= 'Z') || ('0' <= s[i]
                && s[i] <= '9') || s[i] == ':' || s[i] == '-' || s[i] == '_' || s[i] == '.' || s[i] == '\\')
            <==> invalid_suffix_chars(s).len() == 0,
    decreases s.len(),
{
    let f = |c: char|
        !(('a' <= c && c <= 'z') || ('A' <= c && c <= 'Z') || ('0' <= c && c <= '9') || c == ':' || c == '-' || c == '_'
            || c == '.' || c == '\\');
    reveal_with_fuel(Seq::filter, 1);
    if s.len() > 0 {
        lemma_suffix_chars_refused(s.drop_last());
        assert(s.filter(f) == s.drop_last().filter(f) + (if f(s.last()) { seq![s.last()] } else { Seq::empty() })) by {
            assert(s == s.drop_last().push(s.last()));
            s.drop_last().lemma_filter_push(s.last(), f);
        }
        let init = s.drop_last();
        assert forall|i: int| 0 <= i < init.len() implies #[trigger] init[i] == s[i] by {}
        if invalid_suffix_chars(s).len() == 0 {
            assert forall|i: int| 0 <= i < s.len() implies !f(#[trigger] s[i]) by {
                if i < s.len() - 1 {
                    assert(init[i] == s[i]);
                    assert(!f(init[i]));
                }
            }
        }
    } else {
        assert(s.filter(f) =~= Seq::<char>::empty());
    }
}

/// A unit whose suffix uses only the allowed characters, with no extension and a name of at most
/// 255 bytes, is valid on its own: validation reports nothing.
pub proof fn lemma_allowed_suffix_is_valid(app_name: Seq<char>, u: Spanned<SystemdUnitConfig>)
    requires
        u.value.filename_suffix matches Some(sfx) && forall|i: int|
            0 <= i < sfx.value@.len() ==> ('a' <= #[trigger] sfx.value@[i] && sfx.value@[i] <= 'z') || ('A' <= sfx.value@[i]
                && sfx.value@[i] <= 'Z') || ('0' <= sfx.value@[i] && sfx.value@[i] <= '9') || sfx.value@[i] == ':'
                || sfx.value@[i] == '-' || sfx.value@[i] == '_' || sfx.value@[i] == '.' || sfx.value@[i] == '\\',
        u.value.file_extension is None,
        encode_utf8(u.value.filename_spec(app_name)).len() <= 255,
    ensures
        validation_errors(app_name, seq![u]).len() == 0,
{
    let units = seq![u];
    lemma_suffix_chars_refused(u.value.filename_suffix->0.value@);
    assert(unit_errors(app_name, u) =~= Seq::<ErrorView>::empty());
    assert(units.drop_last() =~= Seq::<Spanned<SystemdUnitConfig>>::empty());
    assert(units.last() == u);
    assert(all_unit_errors(app_name, units.drop_last()) == Seq::<ErrorView>::empty());
    assert(all_unit_errors(app_name, units) =~= Seq::<ErrorView>::empty());
    assert(filename_count(app_name, units.drop_last(), u.value.filename_spec(app_name)) == 0);
    assert(filename_count(app_name, units, u.value.filename_spec(app_name)) == 1);
    assert(units[0] == u);
    assert(duplicate_errors_upto(app_name, units, 0) =~= Seq::<ErrorView>::empty());
    assert(duplicate_errors_upto(app_name, units, 1) =~= Seq::<ErrorView>::empty());
    assert(duplicate_errors(app_name, units) =~= Seq::<ErrorView>::empty());
    let all = all_unit_errors(app_name, units) + duplicate_errors(app_name, units);
    assert(all =~= Seq::<ErrorView>::empty());
}

} // verus!

verus! {

/// A unit's file name is acceptable on its own: its suffix, if any, uses only ASCII letters
/// and digits and `:`, `-`, `_`, `.` and `\`; its extension, if any, is one of the unit types
/// that systemd knows; and the whole name is at most 255 bytes long.
pub open spec fn unit_name_acceptable(app_name: Seq<char>, u: SystemdUnitConfig) -> bool {
    &&& u.filename_suffix matches Some(s) ==> forall|i: int|
        0 <= i < s.value@.len() ==> ('a' <= #[trigger] s.value@[i] && s.value@[i] <= 'z') || ('A' <= s.value@[i]
            && s.value@[i] <= 'Z') || ('0' <= s.value@[i] && s.value@[i] <= '9') || s.value@[i] == ':' || s.value@[i]
            == '-' || s.value@[i] == '_' || s.value@[i] == '.' || s.value@[i] == '\\'
    &&& u.file_extension matches Some(e) ==> (e.value@ == "service"@ || e.value@ == "socket"@ || e.value@ == "device"@
        || e.value@ == "mount"@ || e.value@ == "automount"@ || e.value@ == "swap"@ || e.value@ == "target"@
        || e.value@ == "path"@ || e.value@ == "timer"@ || e.value@ == "slice"@ || e.value@ == "scope"@)
    &&& encode_utf8(u.filename_spec(app_name)).len() <= 255
}

proof fn lemma_unit_errors_empty(app_name: Seq<char>, u: Spanned<SystemdUnitConfig>)
    ensures
        unit_errors(app_name, u).len() == 0 <==> unit_name_acceptable(app_name, u.value),
{
    if let Some(s) = u.value.filename_suffix {
        lemma_suffix_chars_refused(s.value@);
    }
    if let Some(e) = u.value.file_extension {
        let xs = unit_extensions();
        if xs.contains(e.value@) {
            let k = choose|k: int| 0 <= k < xs.len() && xs[k] == e.value@;
            assert(0 <= k < 11);
            if k == 0 {
            } else if k == 1 {
            } else if k == 2 {
            } else if k == 3 {
            } else if k == 4 {
            } else if k == 5 {
            } else if k == 6 {
            } else if k == 7 {
            } else if k == 8 {
            } else if k == 9 {
            } else {
                assert(k == 10);
            }
        }
        if e.value@ == "service"@ {
            assert(xs[0] == e.value@);
        } else if e.value@ == "socket"@ {
            assert(xs[1] == e.value@);
        } else if e.value@ == "device"@ {
            assert(xs[2] == e.value@);
        } else if e.value@ == "mount"@ {
            assert(xs[3] == e.value@);
        } else if e.value@ == "automount"@ {
            assert(xs[4] == e.value@);
        } else if e.value@ == "swap"@ {
            assert(xs[5] == e.value@);
        } else if e.value@ == "target"@ {
            assert(xs[6] == e.value@);
        } else if e.value@ == "path"@ {
            assert(xs[7] == e.value@);
        } else if e.value@ == "timer"@ {
            assert(xs[8] == e.value@);
        } else if e.value@ == "slice"@ {
            assert(xs[9] == e.value@);
        } else if e.value@ == "scope"@ {
            assert(xs[10] == e.value@);
        }
    }
}

proof fn lemma_all_unit_errors_empty(app_name: Seq<char>, units: Seq<Spanned<SystemdUnitConfig>>)
    ensures
        all_unit_errors(app_name, units).len() == 0 <==> forall|i: int|
            0 <= i < units.len() ==> unit_name_acceptable(app_name, (#[trigger] units[i]).value),
    decreases units.len(),
{
    if units.len() > 0 {
        let init = units.drop_last();
        lemma_all_unit_errors_empty(app_name, init);
        lemma_unit_errors_empty(app_name, units.last());
        assert forall|i: int| 0 <= i < init.len() implies #[trigger] init[i] == units[i] by {}
        if forall|i: int| 0 <= i < units.len() ==> unit_name_acceptable(app_name, (#[trigger] units[i]).value) {
            assert(unit_name_acceptable(app_name, units[units.len() - 1].value));
            assert forall|i: int| 0 <= i < init.len() implies unit_name_acceptable(app_name, (#[trigger] init[i]).value) by {
                assert(unit_name_acceptable(app_name, units[i].value));
            }
        }
        if all_unit_errors(app_name, units).len() == 0 {
            assert forall|i: int| 0 <= i < units.len() implies unit_name_acceptable(app_name, (#[trigger] units[i]).value) by {
                if i < init.len() {
                    assert(unit_name_acceptable(app_name, init[i].value));
                }
            }
        }
    }
}

proof fn lemma_count_zero(app_name: Seq<char>, units: Seq<Spanned<SystemdUnitConfig>>, name: Seq<char>)
    requires
        forall|i: int| 0 <= i < units.len() ==> (#[trigger] units[i]).value.filename_spec(app_name) != name,
    ensures
        filename_count(app_name, units, name) == 0,
    decreases units.len(),
{
    if units.len() > 0 {
        let init = units.drop_last();
        assert forall|i: int| 0 <= i < init.len() implies (#[trigger] init[i]).value.filename_spec(app_name) != name by {
            assert(init[i] == units[i]);
        }
        lemma_count_zero(app_name, init, name);
        assert(units.last() == units[units.len() - 1]);
    }
}

proof fn lemma_count_at_most_one(app_name: Seq<char>, units: Seq<Spanned<SystemdUnitConfig>>, name: Seq<char>)
    requires
        forall|i: int, j: int|
            0 <= i < j < units.len() ==> !((#[trigger] units[i]).value.filename_spec(app_name) == name
                && (#[trigger] units[j]).value.filename_spec(app_name) == name),
    ensures
        filename_count(app_name, units, name) <= 1,
    decreases units.len(),
{
    if units.len() > 0 {
        let init = units.drop_last();
        let n = units.len() - 1;
        assert forall|i: int| 0 <= i < init.len() implies #[trigger] init[i] == units[i] by {}
        if units.last().value.filename_spec(app_name) == name {
            assert forall|i: int| 0 <= i < init.len() implies (#[trigger] init[i]).value.filename_spec(app_name) != name by {
                assert(units[n] == units.last());
                assert(!(units[i].value.filename_spec(app_name) == name && units[n].value.filename_spec(app_name) == name));
            }
            lemma_count_zero(app_name, init, name);
        } else {
            assert forall|i: int, j: int| 0 <= i < j < init.len() implies !((#[trigger] init[i]).value.filename_spec(app_name)
                == name && (#[trigger] init[j]).value.filename_spec(app_name) == name) by {
                assert(!(units[i].value.filename_spec(app_name) == name && units[j].value.filename_spec(app_name) == name));
            }
            lemma_count_at_most_one(app_name, init, name);
        }
    }
}

/// Every unit has a file name of its own.
pub open spec fn names_distinct(app_name: Seq<char>, units: Seq<Spanned<SystemdUnitConfig>>) -> bool {
    forall|i: int, j: int|
        0 <= i < j < units.len() ==> (#[trigger] units[i]).value.filename_spec(app_name) != (#[trigger] units[j]).value.filename_spec(
            app_name,
        )
}

proof fn lemma_duplicate_errors_upto_empty(app_name: Seq<char>, units: Seq<Spanned<SystemdUnitConfig>>, n: int)
    requires
        0 <= n <= units.len(),
        names_distinct(app_name, units),
    ensures
        duplicate_errors_upto(app_name, units, n).len() == 0,
    decreases n,
{
    if n > 0 {
        lemma_duplicate_errors_upto_empty(app_name, units, n - 1);
        let name = units[n - 1].value.filename_spec(app_name);
        assert forall|i: int, j: int|
            0 <= i < j < units.len() implies !((#[trigger] units[i]).value.filename_spec(app_name) == name
                && (#[trigger] units[j]).value.filename_spec(app_name) == name) by {}
        lemma_count_at_most_one(app_name, units, name);
    }
}

/// Validation reports nothing exactly when every unit's file name is acceptable on its own
/// (see [`unit_name_acceptable`]) and no two units share a file name.
pub proof fn lemma_valid_iff(app_name: Seq<char>, units: Seq<Spanned<SystemdUnitConfig>>)
    ensures
        validation_errors(app_name, units).len() == 0 <==> (forall|i: int|
            0 <= i < units.len() ==> unit_name_acceptable(app_name, (#[trigger] units[i]).value)) && names_distinct(
            app_name,
            units,
        ),
{
    let all = all_unit_errors(app_name, units) + duplicate_errors(app_name, units);
    lemma_sort_len(all);
    lemma_all_unit_errors_empty(app_name, units);
    if names_distinct(app_name, units) {
        lemma_duplicate_errors_upto_empty(app_name, units, units.len() as int);
    } else {
        let (i, j) = choose|i: int, j: int|
            0 <= i < j < units.len() && (#[trigger] units[i]).value.filename_spec(app_name) == (#[trigger] units[j]).value.filename_spec(
                app_name,
            );
        lemma_duplicate_names_refused(app_name, units, i, j);
    }
}

} // verus!
