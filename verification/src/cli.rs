//! Command-line arguments, and the parsing of `--set PATH=JSON` overrides.

use vstd::prelude::*;
use crate::app_name::AppName;
use crate::config::{UserVar, is_json_user_var};
use crate::json::{parse_json, json_parse_result, JsonView};
use crate::text::{
    find_char, find_str, first_occurrence_from, parse_usize, parse_usize_spec, substring, split_once, split_once_str,
    has_prefix, starts_with, IntErrorKind, int_error_description, lemma_first_index_of,
};

verus! {

/// Arguments of `vade server-setup`.
pub struct ServerSetupCommand {
    /// The directory where the pyinfra deploy and related files should be generated
    pub out_dir: String,
}

/// Arguments of `vade create` (and `vade destroy`).
pub struct CreateCommand {
    /// The name of the app to create on the server
    pub app_name: AppName,
    /// The directory where the pyinfra deploy and related files should be generated
    pub out_dir: String,
}

/// Arguments of `vade deploy`.
pub struct DeployCommand {
    /// The name of the app that this deployment targets on the server
    pub app_name: AppName,
    /// The path to the project's configuration file (defaults to `vade.toml`)
    pub configuration_file: Option<String>,
    /// The directory where the pyinfra deploy and related files should be generated
    pub out_dir: String,
    /// Template variable overrides
    pub set_json: Vec<VarOverride>,
}

/// Which template's variables an override targets.
#[derive(Copy, Clone, Debug, PartialEq, Eq, Structural)]
pub enum OverrideScope {
    Caddyfile,
    SystemdUnit(usize),
}

/// A `--set PATH=JSON` override of a template variable.
#[derive(Debug)]
pub struct VarOverride {
    pub scope: OverrideScope,
    pub name: String,
    pub value: UserVar,
}

impl Clone for VarOverride {
    fn clone(&self) -> (r: Self)
        ensures
            r.scope == self.scope,
            r.name@ == self.name@,
            r.value@ == self.value@,
    {
        VarOverride { scope: self.scope, name: self.name.clone(), value: self.value.duplicate() }
    }
}

/// Why a `--set` argument was refused.
#[derive(Debug, PartialEq, Eq)]
pub enum OverrideError {
    /// There is no `=` in the argument.
    MissingEquals,
    /// The path does not have one of the accepted forms.
    BadPath { path: String },
    /// The index of `systemd-unit[<index>]` is not a `usize`.
    BadIndex { path: String, index: String, kind: IntErrorKind },
    /// The value is not valid JSON; `message` is the JSON parser's error.
    BadJson { raw: String, message: String },
}

/// The mathematical view of an [`OverrideError`].
pub enum OverrideErrorView {
    MissingEquals,
    BadPath { path: Seq<char> },
    BadIndex { path: Seq<char>, index: Seq<char>, kind: IntErrorKind },
    BadJson { raw: Seq<char>, message: Seq<char> },
}

impl View for OverrideError {
    type V = OverrideErrorView;

    open spec fn view(&self) -> OverrideErrorView {
        match self {
            OverrideError::MissingEquals => OverrideErrorView::MissingEquals,
            OverrideError::BadPath { path } => OverrideErrorView::BadPath { path: path@ },
            OverrideError::BadIndex { path, index, kind } => OverrideErrorView::BadIndex {
                path: path@,
                index: index@,
                kind: *kind,
            },
            OverrideError::BadJson { raw, message } => OverrideErrorView::BadJson {
                raw: raw@,
                message: message@,
            },
        }
    }
}

/// The message of an override error.
pub open spec fn override_error_message(e: OverrideErrorView) -> Seq<char> {
    match e {
        OverrideErrorView::MissingEquals => "expected the format `<path>=<value>`"@,
        OverrideErrorView::BadPath { path } => "failed to parse path `"@ + path
            + "`: it must start with `caddyfile.vars.` or `systemd-unit[<index>].vars.`"@,
        OverrideErrorView::BadIndex { path, index, kind } => "failed to parse path `"@ + path
            + "`: `"@ + index + "` is not a valid index ("@ + int_error_description(kind) + ")"@,
        OverrideErrorView::BadJson { raw, message } => "failed to parse JSON in `"@ + raw + "`, "@
            + message,
    }
}

impl OverrideError {
    /// The text that explains the refusal.
    pub fn message(&self) -> (r: String)
        ensures
            r@ == override_error_message(self@),
    {
        match self {
            OverrideError::MissingEquals => String::from_str("expected the format `<path>=<value>`"),
            OverrideError::BadPath { path } => String::from_str("failed to parse path `").concat(
                path.as_str(),
            ).concat("`: it must start with `caddyfile.vars.` or `systemd-unit[<index>].vars.`"),
            OverrideError::BadIndex { path, index, kind } => {
                let d = kind.description();
                proof {
                    assert(d@ == int_error_description(*kind));
                }
                String::from_str("failed to parse path `").concat(path.as_str()).concat(
                    "`: `",
                ).concat(index.as_str()).concat("` is not a valid index (").concat(d).concat(")")
            },
            OverrideError::BadJson { raw, message } => String::from_str(
                "failed to parse JSON in `",
            ).concat(raw.as_str()).concat("`, ").concat(message.as_str()),
        }
    }
}

pub open spec fn caddyfile_prefix() -> Seq<char> {
    "caddyfile.vars."@
}

pub open spec fn unit_prefix() -> Seq<char> {
    "systemd-unit["@
}

pub open spec fn unit_separator() -> Seq<char> {
    "].vars."@
}

/// How an override path is read: `caddyfile.vars.<name>` or `systemd-unit[<index>].vars.<name>`,
/// with a non-empty name.
pub open spec fn parse_path_spec(path: Seq<char>) -> Result<(OverrideScope, Seq<char>), OverrideErrorView> {
    let bad = OverrideErrorView::BadPath { path };
    if has_prefix(path, caddyfile_prefix()) {
        let name = path.subrange(caddyfile_prefix().len() as int, path.len() as int);
        if name.len() == 0 {
            Err(bad)
        } else {
            Ok((OverrideScope::Caddyfile, name))
        }
    } else if has_prefix(path, unit_prefix()) {
        let rest = path.subrange(unit_prefix().len() as int, path.len() as int);
        match split_once_str(rest, unit_separator()) {
            None => Err(bad),
            Some((index, var_name)) => match parse_usize_spec(index) {
                Err(kind) => Err(OverrideErrorView::BadIndex { path, index, kind }),
                Ok(i) => if var_name.len() == 0 {
                    Err(bad)
                } else {
                    Ok((OverrideScope::SystemdUnit(i as usize), var_name))
                },
            },
        }
    } else {
        Err(bad)
    }
}

/// An override path names a Caddyfile variable exactly when it is `caddyfile.vars.` followed by
/// a non-empty name, and it then names that variable.
pub proof fn lemma_caddyfile_path(p: Seq<char>, n: Seq<char>)
    ensures
        (parse_path_spec(p) matches Ok((OverrideScope::Caddyfile, m)) && m == n) <==> (p == caddyfile_prefix() + n
            && n.len() > 0),
{
    let pre = caddyfile_prefix();
    if p == pre + n {
        assert(p.subrange(0, pre.len() as int) =~= pre);
        assert(p.subrange(pre.len() as int, p.len() as int) =~= n);
    }
    if has_prefix(p, pre) {
        assert(p =~= pre + p.subrange(pre.len() as int, p.len() as int));
    }
}

/// The first occurrence of `pat` at or after `from` is at `k` when it occurs at `k` and nowhere
/// between.
proof fn lemma_first_occurrence_at(s: Seq<char>, pat: Seq<char>, from: int, k: int)
    requires
        0 <= from <= k,
        crate::text::occurs_at(s, pat, k),
        forall|j: int| from <= j < k ==> !crate::text::occurs_at(s, pat, j),
    ensures
        first_occurrence_from(s, pat, from) == Some(k),
    decreases k - from,
{
    if from < k {
        lemma_first_occurrence_at(s, pat, from + 1, k);
    }
}

/// An override path `systemd-unit[<index>].vars.<name>` whose index holds no `]` names the
/// variable `<name>` of the unit at that index when the index is a number and the name is not
/// empty; a bad index is reported with the index, and an empty name as a bad path.
pub proof fn lemma_unit_path(d: Seq<char>, n: Seq<char>)
    requires
        !d.contains(']'),
    ensures
        parse_path_spec(unit_prefix() + d + unit_separator() + n) == (match parse_usize_spec(d) {
            Err(kind) => Err(OverrideErrorView::BadIndex { path: unit_prefix() + d + unit_separator() + n, index: d, kind }),
            Ok(i) => if n.len() == 0 {
                Err(OverrideErrorView::BadPath { path: unit_prefix() + d + unit_separator() + n })
            } else {
                Ok((OverrideScope::SystemdUnit(i as usize), n))
            },
        }),
{
    reveal_strlit("systemd-unit[");
    reveal_strlit("caddyfile.vars.");
    reveal_strlit("].vars.");
    let pre = unit_prefix();
    let sep = unit_separator();
    let p = pre + d + sep + n;
    assert(p[0] == 's');
    assert(!has_prefix(p, caddyfile_prefix())) by {
        if has_prefix(p, caddyfile_prefix()) {
            assert(p.subrange(0, caddyfile_prefix().len() as int)[0] == caddyfile_prefix()[0]);
        }
    }
    assert(p.subrange(0, pre.len() as int) =~= pre);
    let rest = p.subrange(pre.len() as int, p.len() as int);
    assert(rest =~= d + sep + n);
    assert(crate::text::occurs_at(rest, sep, d.len() as int)) by {
        assert(rest.subrange(d.len() as int, (d.len() + sep.len()) as int) =~= sep);
    }
    assert forall|j: int| 0 <= j < d.len() implies !crate::text::occurs_at(rest, sep, j) by {
        if crate::text::occurs_at(rest, sep, j) {
            assert(rest.subrange(j, j + sep.len())[0] == sep[0]);
            assert(rest[j] == d[j]);
            assert(d.contains(']'));
        }
    }
    lemma_first_occurrence_at(rest, sep, 0, d.len() as int);
    assert(rest.subrange(0, d.len() as int) =~= d);
    assert(rest.subrange((d.len() + sep.len()) as int, rest.len() as int) =~= n);
}

/// An index that parses as a number holds no `]`.
proof fn lemma_index_has_no_bracket(d: Seq<char>)
    ensures
        parse_usize_spec(d) matches Ok(v) ==> !d.contains(']') && v <= usize::MAX,
{
    if d.len() > 0 && d[0] == '+' {
        crate::text::lemma_fold_digits_bound(d.drop_first(), 0);
        if parse_usize_spec(d) is Ok {
            assert forall|j: int| 0 <= j < d.len() implies d[j] != ']' by {
                if j > 0 {
                    assert(d[j] == d.drop_first()[j - 1]);
                }
            }
        }
    } else {
        crate::text::lemma_fold_digits_bound(d, 0);
    }
}

/// An override path names variable `n` of the systemd unit at index `i` exactly when it is
/// `systemd-unit[`, an index that parses as `i`, `].vars.` and `n`, not empty.
pub proof fn lemma_unit_path_iff(p: Seq<char>, i: usize, n: Seq<char>)
    ensures
        (parse_path_spec(p) matches Ok((OverrideScope::SystemdUnit(k), m)) && k == i && m == n) <==> (exists|d: Seq<char>|
            p == unit_prefix() + d + unit_separator() + n && (#[trigger] parse_usize_spec(d) matches Ok(v) && v == i)
                && n.len() > 0),
{
    reveal_strlit("systemd-unit[");
    reveal_strlit("caddyfile.vars.");
    reveal_strlit("].vars.");
    let pre = unit_prefix();
    let sep = unit_separator();
    if exists|d: Seq<char>| p == pre + d + sep + n && (#[trigger] parse_usize_spec(d) matches Ok(v) && v == i) && n.len() > 0 {
        let d = choose|d: Seq<char>| p == pre + d + sep + n && (#[trigger] parse_usize_spec(d) matches Ok(v) && v == i) && n.len() > 0;
        lemma_index_has_no_bracket(d);
        lemma_unit_path(d, n);
    }
    if parse_path_spec(p) matches Ok((OverrideScope::SystemdUnit(k), m)) && k == i && m == n {
        assert(!has_prefix(p, caddyfile_prefix()));
        assert(has_prefix(p, pre));
        let rest = p.subrange(pre.len() as int, p.len() as int);
        lemma_first_occurrence_some(rest, sep);
        let at = crate::text::first_occurrence(rest, sep).unwrap();
        let d = rest.subrange(0, at);
        assert(rest.subrange(at, at + sep.len()) == sep);
        assert(rest.subrange(at + sep.len(), rest.len() as int) == n);
        assert(rest =~= d + sep + n);
        assert(p =~= pre + rest) by {
            assert(p.subrange(0, pre.len() as int) == pre);
        }
        lemma_index_has_no_bracket(d);
        assert(parse_usize_spec(d) matches Ok(v) && v == i);
        assert(p == pre + d + sep + n);
    }
}

/// Parses the path part of an override (see [`parse_path_spec`]).
pub fn parse_path(path: &str) -> (r: Result<(OverrideScope, String), OverrideError>)
    ensures
        match parse_path_spec(path@) {
            Ok((scope, name)) => r matches Ok((s, n)) && s == scope && n@ == name,
            Err(e) => r matches Err(err) && err@ == e,
        },
{
    let n = path.unicode_len();
    if starts_with(path, "caddyfile.vars.") {
        let p = "caddyfile.vars.".unicode_len();
        let name = substring(path, p, n);
        if name.unicode_len() == 0 {
            return Err(OverrideError::BadPath { path: String::from_str(path) });
        }
        return Ok((OverrideScope::Caddyfile, name));
    }
    if starts_with(path, "systemd-unit[") {
        let p = "systemd-unit[".unicode_len();
        let rest = substring(path, p, n);
        let sep = "].vars.";
        match find_str(rest.as_str(), sep) {
            None => {
                return Err(OverrideError::BadPath { path: String::from_str(path) });
            },
            Some(at) => {
                let rn = rest.unicode_len();
                let sl = sep.unicode_len();
                proof {
                    assert(at + sep@.len() <= rest@.len()) by {
                        lemma_first_occurrence_some(rest@, sep@);
                    }
                }
                let index = substring(rest.as_str(), 0, at);
                let var_name = substring(rest.as_str(), at + sl, rn);
                match parse_usize(index.as_str()) {
                    Err(kind) => {
                        return Err(OverrideError::BadIndex { path: String::from_str(path), index, kind });
                    },
                    Ok(i) => {
                        if var_name.unicode_len() == 0 {
                            return Err(OverrideError::BadPath { path: String::from_str(path) });
                        }
                        return Ok((OverrideScope::SystemdUnit(i), var_name));
                    },
                }
            },
        }
    }
    Err(OverrideError::BadPath { path: String::from_str(path) })
}

/// How a `--set` argument is read: the text up to the first `=` is a path (see
/// [`parse_path_spec`]) and the rest is a JSON value.
pub open spec fn override_is_parsed_from(s: Seq<char>, r: Result<VarOverride, OverrideError>) -> bool {
    match split_once(s, '=') {
        None => r matches Err(e) && e@ == OverrideErrorView::MissingEquals,
        Some((path, raw)) => match parse_path_spec(path) {
            Err(pe) => r matches Err(e) && e@ == pe,
            Ok((scope, name)) => match json_parse_result(raw) {
                Err(m) => r matches Err(e) && e@ == (OverrideErrorView::BadJson { raw, message: m }),
                Ok(j) => r matches Ok(o) && o.scope == scope && o.name@ == name && is_json_user_var(
                    path,
                    j,
                    o.value@,
                ),
            },
        },
    }
}

impl VarOverride {
    /// Parses a `--set` argument of the form `<path>=<json>`.
    pub fn from_str(s: &str) -> (r: Result<VarOverride, OverrideError>)
        ensures
            override_is_parsed_from(s@, r),
    {
        let eq = match find_char(s, '=') {
            None => {
                return Err(OverrideError::MissingEquals);
            },
            Some(i) => i,
        };
        proof {
            lemma_first_index_of(s@, '=');
        }
        let n = s.unicode_len();
        let path = substring(s, 0, eq);
        let raw = substring(s, eq + 1, n);
        let (scope, name) = match parse_path(path.as_str()) {
            Ok(p) => p,
            Err(e) => {
                return Err(e);
            },
        };
        match parse_json(raw.as_str()) {
            Err(message) => Err(OverrideError::BadJson { raw, message }),
            Ok(json) => {
                let value = UserVar::from_json(path.as_str(), json);
                Ok(VarOverride { scope, name, value })
            },
        }
    }
}

proof fn lemma_first_occurrence_from_some(s: Seq<char>, pat: Seq<char>, from: int)
    ensures
        first_occurrence_from(s, pat, from) matches Some(i) ==> from <= i && i + pat.len() <= s.len()
            && crate::text::occurs_at(s, pat, i),
    decreases s.len() + 1 - from,
{
    if !(from < 0 || from + pat.len() > s.len()) && !crate::text::occurs_at(s, pat, from) {
        lemma_first_occurrence_from_some(s, pat, from + 1);
    }
}

proof fn lemma_first_occurrence_some(s: Seq<char>, pat: Seq<char>)
    ensures
        crate::text::first_occurrence(s, pat) matches Some(i) ==> 0 <= i && i + pat.len() <= s.len()
            && crate::text::occurs_at(s, pat, i),
{
    lemma_first_occurrence_from_some(s, pat, 0);
}

} // verus!

verus! {

/// `--set systemd-unit[I].vars.NAME=JSON`, with the index `I` written in decimal and `NAME` not
/// empty and free of `=`, sets the variable `NAME` of the systemd unit at index `I` to what the
/// JSON gives (whatever `=` the JSON holds), and is refused with the JSON's error when the JSON
/// does not parse.
pub proof fn lemma_unit_set_argument(i: usize, name: Seq<char>, raw: Seq<char>, r: Result<VarOverride, OverrideError>)
    requires
        override_is_parsed_from(unit_prefix() + crate::text::decimal(i as nat) + unit_separator() + name + seq!['='] + raw, r),
        name.len() > 0,
        !name.contains('='),
    ensures
        json_parse_result(raw) matches Ok(j) ==> (r matches Ok(o) && o.scope == OverrideScope::SystemdUnit(i) && o.name@
            == name && is_json_user_var(unit_prefix() + crate::text::decimal(i as nat) + unit_separator() + name, j, o.value@)),
        json_parse_result(raw) matches Err(m) ==> (r matches Err(e) && e@ == (OverrideErrorView::BadJson { raw, message: m })),
{
    reveal_strlit("systemd-unit[");
    reveal_strlit("].vars.");
    let d = crate::text::decimal(i as nat);
    let pre = unit_prefix();
    let sep = unit_separator();
    let p = pre + d + sep + name;
    crate::text::lemma_decimal_digits(i as nat);
    crate::text::lemma_decimal_round_trip(i as nat);
    assert(!d.contains(']')) by {
        if d.contains(']') {
            let j = choose|j: int| 0 <= j < d.len() && d[j] == ']';
            assert('0' <= d[j] && d[j] <= '9');
        }
    }
    assert(!p.contains('=')) by {
        if p.contains('=') {
            let j = choose|j: int| 0 <= j < p.len() && p[j] == '=';
            if j < pre.len() {
                assert(p[j] == pre[j]);
            } else if j < pre.len() + d.len() {
                assert(p[j] == d[j - pre.len()]);
                assert('0' <= d[j - pre.len()] && d[j - pre.len()] <= '9');
            } else if j < pre.len() + d.len() + sep.len() {
                assert(p[j] == sep[j - pre.len() - d.len()]);
            } else {
                assert(p[j] == name[j - pre.len() - d.len() - sep.len()]);
                assert(name.contains('='));
            }
        }
    }
    crate::text::lemma_split_once_at_first(p, '=', raw);
    lemma_unit_path(d, name);
}

} // verus!

verus! {

/// `--set caddyfile.vars.NAME=JSON`, with `NAME` not empty and free of `=`, sets the Caddyfile's
/// variable `NAME` to what the JSON gives, and is refused with the JSON's error when the JSON
/// does not parse.
pub proof fn lemma_caddyfile_set_argument(name: Seq<char>, raw: Seq<char>, r: Result<VarOverride, OverrideError>)
    requires
        override_is_parsed_from(caddyfile_prefix() + name + seq!['='] + raw, r),
        name.len() > 0,
        !name.contains('='),
    ensures
        json_parse_result(raw) matches Ok(j) ==> (r matches Ok(o) && o.scope == OverrideScope::Caddyfile && o.name@ == name
            && is_json_user_var(caddyfile_prefix() + name, j, o.value@)),
        json_parse_result(raw) matches Err(m) ==> (r matches Err(e) && e@ == (OverrideErrorView::BadJson { raw, message: m })),
{
    reveal_strlit("caddyfile.vars.");
    let pre = caddyfile_prefix();
    let p = pre + name;
    assert(!p.contains('=')) by {
        if p.contains('=') {
            let j = choose|j: int| 0 <= j < p.len() && p[j] == '=';
            if j < pre.len() {
                assert(p[j] == pre[j]);
            } else {
                assert(p[j] == name[j - pre.len()]);
                assert(name.contains('='));
            }
        }
    }
    crate::text::lemma_split_once_at_first(p, '=', raw);
    lemma_caddyfile_path(p, name);
}

} // verus!
