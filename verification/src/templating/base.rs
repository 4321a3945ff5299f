//! The `vade.*` variables that every template can read.

use vstd::prelude::*;
use crate::app_deployment::AppDeployment;
use crate::app_name::AppName;
use crate::templating::context::{
    CtxValue, CtxView, build_context, ctx_lookup, dotted_prefix, gatherable, gathered, holds_exactly, independent_paths,
    vars_view, visible,
};
use crate::config::keys_unique;
use crate::util::{join, join_path};

verus! {

/// The dotted paths of the base variables, in the order in which they are defined.
pub open spec fn context_paths() -> Seq<Seq<char>> {
    seq![
        "vade.internal.assign_ports_script.local"@,
        "vade.internal.assign_ports_script.remote"@,
        "vade.app.name"@,
        "vade.app.username"@,
        "vade.app.paths.home"@,
        "vade.app.paths.secrets"@,
        "vade.app.paths.storage"@,
        "vade.app.paths.active_deployment"@,
        "vade.app.paths.previous_deployment"@,
        "vade.app.paths.candidate_deployment"@,
        "vade.app.paths.active_systemd_unit_copies"@,
        "vade.app.artifacts.active"@,
        "vade.app.artifacts.candidate"@,
        "vade.app.caddyfile.active"@,
        "vade.app.systemd_units"@,
        "vade.app.artifacts.local"@,
        "vade.app.caddyfile.local"@,
        "vade.app.caddyfile.candidate"@,
        "vade.app.paths.artifacts"@,
    ]
}

/// `a` and `b` both have a character at position `d`, and these differ.
spec fn differ_at(a: Seq<char>, b: Seq<char>, d: int) -> bool {
    0 <= d < a.len() && d < b.len() && a[d] != b[d]
}

/// The second segment of each base path (`internal`, `app.name`, `app.paths`, ...), numbered.
spec fn path_group(i: int) -> int {
    if i <= 1 {
        0
    } else if i == 2 {
        1
    } else if i == 3 {
        2
    } else if i <= 10 || i == 18 {
        3
    } else if i == 11 || i == 12 || i == 15 {
        4
    } else if i == 14 {
        6
    } else {
        5
    }
}

/// A position at which the base paths `i` and `j` differ.
spec fn path_witness(i: int, j: int) -> int {
    if path_group(i) != path_group(j) {
        if path_group(i) == 0 || path_group(j) == 0 { 5 } else { 9 }
    } else if path_group(i) == 0 {
        34
    } else if path_group(i) == 3 {
        if (i == 5 && j == 6) || (i == 6 && j == 5) {
            16
        } else if (i == 7 && j == 10) || (i == 10 && j == 7) {
            22
        } else if i == 18 && (j == 7 || j == 10) || j == 18 && (i == 7 || i == 10) {
            16
        } else {
            15
        }
    } else {
        19
    }
}

proof fn lemma_differ_independent(a: Seq<char>, b: Seq<char>, d: int)
    requires
        differ_at(a, b, d),
    ensures
        a != b,
        !dotted_prefix(a, b),
{
    assert((a + seq!['.'])[d] == a[d]);
}

/// No two base paths are equal, and none is a dotted prefix of another.
proof fn lemma_context_paths_differ(i: int, j: int)
    requires
        0 <= i < 19,
        0 <= j < 19,
        i != j,
    ensures
        context_paths()[i] != context_paths()[j],
        !dotted_prefix(context_paths()[i], context_paths()[j]),
{
    reveal_strlit("vade.internal.assign_ports_script.local");
    reveal_strlit("vade.internal.assign_ports_script.remote");
    reveal_strlit("vade.app.name");
    reveal_strlit("vade.app.username");
    reveal_strlit("vade.app.paths.home");
    reveal_strlit("vade.app.paths.secrets");
    reveal_strlit("vade.app.paths.storage");
    reveal_strlit("vade.app.paths.active_deployment");
    reveal_strlit("vade.app.paths.previous_deployment");
    reveal_strlit("vade.app.paths.candidate_deployment");
    reveal_strlit("vade.app.paths.active_systemd_unit_copies");
    reveal_strlit("vade.app.artifacts.active");
    reveal_strlit("vade.app.artifacts.candidate");
    reveal_strlit("vade.app.caddyfile.active");
    reveal_strlit("vade.app.systemd_units");
    reveal_strlit("vade.app.artifacts.local");
    reveal_strlit("vade.app.caddyfile.local");
    reveal_strlit("vade.app.caddyfile.candidate");
    reveal_strlit("vade.app.paths.artifacts");
    let ps = context_paths();
    let d = path_witness(i, j);
    assert(differ_at(ps[i], ps[j], d)) by {
        assert(i == 0 || i == 1 || i == 2 || i == 3 || i == 4 || i == 5 || i == 6 || i == 7
            || i == 8 || i == 9 || i == 10 || i == 11 || i == 12 || i == 13 || i == 14 || i == 15
            || i == 16 || i == 17 || i == 18);
        assert(j == 0 || j == 1 || j == 2 || j == 3 || j == 4 || j == 5 || j == 6 || j == 7
            || j == 8 || j == 9 || j == 10 || j == 11 || j == 12 || j == 13 || j == 14 || j == 15
            || j == 16 || j == 17 || j == 18);
    }
    lemma_differ_independent(ps[i], ps[j], d);
}

} // verus!

verus! {

/// The home directory of an app on the server.
pub open spec fn app_home(name: Seq<char>) -> Seq<char> {
    "/opt/vade/apps/"@ + name
}

pub open spec fn active_deployment_dir(name: Seq<char>) -> Seq<char> {
    app_home(name) + "/active-deployment"@
}

pub open spec fn candidate_deployment_dir(name: Seq<char>) -> Seq<char> {
    app_home(name) + "/candidate-deployment"@
}

pub open spec fn str_var(path: Seq<char>, value: Seq<char>) -> (Seq<char>, CtxView) {
    (path, CtxView::Str(value))
}

/// The variables that need no app: where the port-assignment script is, locally and remotely.
pub open spec fn internal_vars(out_dir: Seq<char>) -> Seq<(Seq<char>, CtxView)> {
    let ps = context_paths();
    seq![
        str_var(ps[0], join_path(out_dir, "assign-ports.py"@)),
        str_var(ps[1], "/opt/vade/scripts/assign-ports.py"@),
    ]
}

/// The variables that describe an app's name and its directories on the server.
pub open spec fn app_vars(name: Seq<char>) -> Seq<(Seq<char>, CtxView)> {
    let ps = context_paths();
    let home = app_home(name);
    let active = active_deployment_dir(name);
    let candidate = candidate_deployment_dir(name);
    seq![
        str_var(ps[2], name),
        str_var(ps[3], name),
        str_var(ps[4], home),
        str_var(ps[5], home + "/secrets"@),
        str_var(ps[6], home + "/storage"@),
        str_var(ps[7], active),
        str_var(ps[8], home + "/previous-deployment"@),
        str_var(ps[9], candidate),
        str_var(ps[10], active + "/systemd-unit-copies"@),
        str_var(ps[11], active + "/artifacts"@),
        str_var(ps[12], candidate + "/artifacts"@),
        str_var(ps[13], active + "/Caddyfile"@),
        str_var(ps[18], active + "/artifacts"@),
    ]
}

/// What a template sees of one systemd unit: its name and where its file lies locally, in the
/// candidate and active deployments, and once installed.
pub open spec fn unit_view(out_dir: Seq<char>, name: Seq<char>, unit: Seq<char>) -> CtxView {
    CtxView::Object(
        seq![
            ("name"@, CtxView::Str(unit)),
            ("local_path"@, CtxView::Str(out_dir + "/"@ + unit)),
            ("candidate_path"@, CtxView::Str(candidate_deployment_dir(name) + "/systemd-unit-copies/"@ + unit)),
            ("active_path"@, CtxView::Str(active_deployment_dir(name) + "/systemd-unit-copies/"@ + unit)),
            ("installed_path"@, CtxView::Str("/etc/systemd/system/"@ + unit)),
        ],
    )
}

pub open spec fn unit_names(d: AppDeployment) -> Seq<Seq<char>> {
    d.systemd_units@.map_values(|u: crate::app_deployment::SystemdUnit| u.name@)
}

/// The variables that describe a deployment: its systemd units, then the local artifacts
/// directory if it has one, then where its Caddyfile goes if it has one.
pub open spec fn deployment_vars(out_dir: Seq<char>, name: Seq<char>, d: AppDeployment) -> Seq<(Seq<char>, CtxView)> {
    let ps = context_paths();
    let units = unit_names(d).map_values(|u: Seq<char>| unit_view(out_dir, name, u));
    let artifacts = match d.artifacts {
        Some(a) => seq![str_var(ps[15], a@)],
        None => Seq::empty(),
    };
    let caddyfile = if d.caddyfile is Some {
        seq![
            str_var(ps[16], join_path(out_dir, "Caddyfile"@)),
            str_var(ps[17], candidate_deployment_dir(name) + "/Caddyfile"@),
        ]
    } else {
        Seq::empty()
    };
    seq![(ps[14], CtxView::List(units))] + artifacts + caddyfile
}

pub open spec fn opt_name_view(n: Option<&AppName>) -> Option<Seq<char>> {
    match n {
        Some(n) => Some(n@),
        None => None,
    }
}

/// The base variables: the internal ones; with an app, those of the app; with a deployment too,
/// those of the deployment.
pub open spec fn base_context_vars(
    out_dir: Seq<char>,
    name: Option<Seq<char>>,
    deployment: Option<&AppDeployment>,
) -> Seq<(Seq<char>, CtxView)> {
    match name {
        None => internal_vars(out_dir),
        Some(n) => match deployment {
            None => internal_vars(out_dir) + app_vars(n),
            Some(d) => internal_vars(out_dir) + app_vars(n) + deployment_vars(out_dir, n, *d),
        },
    }
}

/// The map of the base variables, as [`build_context`] gathers them (it holds exactly
/// [`base_context_vars`]).
pub open spec fn base_context(
    out_dir: Seq<char>,
    name: Option<Seq<char>>,
    deployment: Option<&AppDeployment>,
) -> CtxView {
    gathered(base_context_vars(out_dir, name, deployment))
}

/// Variables whose paths are distinct base paths can all be defined at once.
proof fn lemma_selected_independent<V>(vars: Seq<(Seq<char>, V)>, idx: Seq<int>)
    requires
        vars.len() == idx.len(),
        forall|k: int| 0 <= k < idx.len() ==> 0 <= #[trigger] idx[k] < 19 && vars[k].0 == context_paths()[idx[k]],
        forall|k: int, l: int| 0 <= k < idx.len() && 0 <= l < idx.len() && k != l ==> idx[k] != idx[l],
    ensures
        independent_paths(vars),
{
    assert forall|i: int, j: int|
        #![trigger vars[i], vars[j]]
        0 <= i < vars.len() && 0 <= j < vars.len() && i != j implies vars[i].0 != vars[j].0
            && !dotted_prefix(vars[i].0, vars[j].0) by {
        assert(idx[i] != idx[j]);
        lemma_context_paths_differ(idx[i], idx[j]);
    }
}

/// The positions in [`context_paths`] of the base variables' paths, in order.
spec fn base_path_indices(name: Option<Seq<char>>, deployment: Option<&AppDeployment>) -> Seq<int> {
    match name {
        None => seq![0int, 1],
        Some(_) => {
            let first = Seq::new(14, |k: int| k) + seq![18int];
            match deployment {
                None => first,
                Some(d) => first + seq![14int] + (if d.artifacts is Some { seq![15int] } else { Seq::<int>::empty() })
                    + (if d.caddyfile is Some { seq![16int, 17] } else { Seq::<int>::empty() }),
            }
        },
    }
}

proof fn lemma_base_path_indices(out_dir: Seq<char>, name: Option<Seq<char>>, deployment: Option<&AppDeployment>)
    ensures
        base_path_indices(name, deployment).len() == base_context_vars(out_dir, name, deployment).len(),
        forall|k: int| 0 <= k < base_path_indices(name, deployment).len() ==> 0 <= #[trigger] base_path_indices(name, deployment)[k] < 19
            && base_context_vars(out_dir, name, deployment)[k].0 == context_paths()[base_path_indices(name, deployment)[k]],
{
    let vars = base_context_vars(out_dir, name, deployment);
    let idx = base_path_indices(name, deployment);
    if let Some(n) = name {
        if let Some(d) = deployment {
            let a: Seq<int> = if d.artifacts is Some { seq![15int] } else { Seq::empty() };
            let first = Seq::new(14, |k: int| k) + seq![18int];
            assert forall|k: int| 0 <= k < idx.len() implies 0 <= #[trigger] idx[k] < 19
                && vars[k].0 == context_paths()[idx[k]] by {
                if k >= 16 + a.len() {
                    assert(idx[k] == (if d.caddyfile is Some { seq![16int, 17] } else { Seq::<int>::empty() })[k - 16 - a.len()]);
                } else if k >= 16 {
                    assert(idx[k] == a[k - 16]);
                } else if k < 15 {
                    assert(idx[k] == first[k]);
                }
            }
        }
    }
}

proof fn lemma_base_vars_independent(out_dir: Seq<char>, name: Option<Seq<char>>, deployment: Option<&AppDeployment>)
    ensures
        independent_paths(base_context_vars(out_dir, name, deployment)),
{
    lemma_base_path_indices(out_dir, name, deployment);
    lemma_selected_independent(base_context_vars(out_dir, name, deployment), base_path_indices(name, deployment));
}

} // verus!

verus! {

/// Every base variable is found at its path in a map that holds exactly the base variables.
pub proof fn lemma_base_variable_found(
    c: CtxView,
    out_dir: Seq<char>,
    name: Option<Seq<char>>,
    deployment: Option<&AppDeployment>,
    i: int,
)
    requires
        holds_exactly(c, base_context_vars(out_dir, name, deployment)),
        0 <= i < base_context_vars(out_dir, name, deployment).len(),
    ensures
        ctx_lookup(c, base_context_vars(out_dir, name, deployment)[i].0) == Some(base_context_vars(out_dir, name, deployment)[i].1),
{
    let vars = base_context_vars(out_dir, name, deployment);
    lemma_base_vars_independent(out_dir, name, deployment);
    assert(visible(vars, i)) by {
        assert forall|m: int| i < m < vars.len() implies (#[trigger] vars[m]).0 != vars[i].0 && !dotted_prefix(vars[m].0, vars[i].0) by {
            assert(vars[m].0 != vars[i].0 && !dotted_prefix(vars[m].0, vars[i].0));
        }
    }
}

/// A base path that none of the base variables has is not found in a map that holds exactly
/// the base variables.
proof fn lemma_base_path_absent(c: CtxView, out_dir: Seq<char>, name: Option<Seq<char>>, deployment: Option<&AppDeployment>, j: int)
    requires
        holds_exactly(c, base_context_vars(out_dir, name, deployment)),
        0 <= j < 19,
        forall|k: int| 0 <= k < base_path_indices(name, deployment).len() ==> #[trigger] base_path_indices(name, deployment)[k] != j,
    ensures
        ctx_lookup(c, context_paths()[j]) is None,
{
    let vars = base_context_vars(out_dir, name, deployment);
    let idx = base_path_indices(name, deployment);
    let q = context_paths()[j];
    lemma_base_path_indices(out_dir, name, deployment);
    assert forall|i: int| 0 <= i < vars.len() implies #[trigger] vars[i].0 != q && !dotted_prefix(q, vars[i].0)
        && !dotted_prefix(vars[i].0, q) by {
        assert(idx[i] != j);
        lemma_context_paths_differ(j, idx[i]);
        lemma_context_paths_differ(idx[i], j);
    }
    if let Some(v) = ctx_lookup(c, q) {
        if exists|i: int| 0 <= i < vars.len() && visible(vars, i) && #[trigger] vars[i] == (q, v) {
            let i = choose|i: int| 0 <= i < vars.len() && visible(vars, i) && #[trigger] vars[i] == (q, v);
            assert(vars[i].0 != q);
        } else if v is Object && keys_unique(v->Object_0) && exists|i: int|
            0 <= i < vars.len() && visible(vars, i) && dotted_prefix(q, #[trigger] vars[i].0) {
            let i = choose|i: int| 0 <= i < vars.len() && visible(vars, i) && dotted_prefix(q, #[trigger] vars[i].0);
            assert(!dotted_prefix(q, vars[i].0));
        } else {
            let i = choose|i: int| 0 <= i < vars.len() && visible(vars, i) && dotted_prefix(#[trigger] vars[i].0, q);
            assert(!dotted_prefix(vars[i].0, q));
        }
    }
}

/// With a deployment, a map that holds exactly the base variables lists the systemd units in
/// order, and holds the local artifacts directory exactly when the deployment has one, and where
/// its Caddyfile goes exactly when it has one.
pub proof fn lemma_deployment_paths(c: CtxView, out_dir: Seq<char>, name: Seq<char>, d: AppDeployment)
    requires
        holds_exactly(c, base_context_vars(out_dir, Some(name), Some(&d))),
    ensures
        ctx_lookup(c, "vade.app.systemd_units"@)
            == Some(CtxView::List(unit_names(d).map_values(|u: Seq<char>| unit_view(out_dir, name, u)))),
        (ctx_lookup(c, "vade.app.artifacts.local"@) is Some) == (d.artifacts is Some),
        d.artifacts matches Some(a) ==> ctx_lookup(c, "vade.app.artifacts.local"@) == Some(CtxView::Str(a@)),
        (ctx_lookup(c, "vade.app.caddyfile.local"@) is Some) == (d.caddyfile is Some),
        (ctx_lookup(c, "vade.app.caddyfile.candidate"@) is Some) == (d.caddyfile is Some),
        d.caddyfile is Some ==> ctx_lookup(c, "vade.app.caddyfile.local"@) == Some(CtxView::Str(join_path(out_dir, "Caddyfile"@)))
            && ctx_lookup(c, "vade.app.caddyfile.candidate"@) == Some(CtxView::Str(candidate_deployment_dir(name) + "/Caddyfile"@)),
{
    let vars = base_context_vars(out_dir, Some(name), Some(&d));
    let idx = base_path_indices(Some(name), Some(&d));
    let head = internal_vars(out_dir) + app_vars(name);
    let dv = deployment_vars(out_dir, name, d);
    assert(forall|k: int| 0 <= k < dv.len() ==> #[trigger] vars[head.len() + k] == dv[k]);
    let na: int = if d.artifacts is Some { 1 } else { 0 };
    lemma_base_variable_found(c, out_dir, Some(name), Some(&d), 15);
    assert(vars[15] == dv[0]);
    if d.artifacts is Some {
        lemma_base_variable_found(c, out_dir, Some(name), Some(&d), 16);
        assert(vars[16] == dv[1]);
    } else {
        lemma_base_path_indices(out_dir, Some(name), Some(&d));
        assert forall|k: int| 0 <= k < idx.len() implies #[trigger] idx[k] != 15 by {}
        lemma_base_path_absent(c, out_dir, Some(name), Some(&d), 15);
    }
    if d.caddyfile is Some {
        lemma_base_variable_found(c, out_dir, Some(name), Some(&d), 16 + na);
        lemma_base_variable_found(c, out_dir, Some(name), Some(&d), 17 + na);
        assert(vars[16 + na] == dv[1 + na]);
        assert(vars[17 + na] == dv[2 + na]);
    } else {
        lemma_base_path_indices(out_dir, Some(name), Some(&d));
        assert forall|k: int| 0 <= k < idx.len() implies #[trigger] idx[k] != 16 && idx[k] != 17 by {}
        lemma_base_path_absent(c, out_dir, Some(name), Some(&d), 16);
        lemma_base_path_absent(c, out_dir, Some(name), Some(&d), 17);
    }
}

/// With an app, a map that holds exactly the base variables gives the app's name and user name,
/// and the paths of its secrets, its storage and its active artifacts.
pub proof fn lemma_app_paths_found(c: CtxView, out_dir: Seq<char>, name: Seq<char>, deployment: Option<&AppDeployment>)
    requires
        holds_exactly(c, base_context_vars(out_dir, Some(name), deployment)),
    ensures
        ctx_lookup(c, "vade.app.name"@) == Some(CtxView::Str(name)),
        ctx_lookup(c, "vade.app.username"@) == Some(CtxView::Str(name)),
        ctx_lookup(c, "vade.app.paths.secrets"@) == Some(CtxView::Str(app_home(name) + "/secrets"@)),
        ctx_lookup(c, "vade.app.paths.storage"@) == Some(CtxView::Str(app_home(name) + "/storage"@)),
        ctx_lookup(c, "vade.app.paths.artifacts"@) == Some(CtxView::Str(active_deployment_dir(name) + "/artifacts"@)),
{
    let vars = base_context_vars(out_dir, Some(name), deployment);
    let app = internal_vars(out_dir) + app_vars(name);
    assert(forall|k: int| 0 <= k < app.len() ==> #[trigger] vars[k] == app[k]);
    lemma_base_variable_found(c, out_dir, Some(name), deployment, 2);
    lemma_base_variable_found(c, out_dir, Some(name), deployment, 3);
    lemma_base_variable_found(c, out_dir, Some(name), deployment, 5);
    lemma_base_variable_found(c, out_dir, Some(name), deployment, 6);
    lemma_base_variable_found(c, out_dir, Some(name), deployment, 14);
    assert(vars[2] == app[2]);
    assert(vars[3] == app[3]);
    assert(vars[5] == app[5]);
    assert(vars[6] == app[6]);
    assert(vars[14] == app[14]);
}

} // verus!

verus! {

fn str_entry(path: &str, value: String) -> (r: (String, CtxValue))
    ensures
        r.0@ == path@,
        r.1@ == CtxView::Str(value@),
{
    (String::from_str(path), CtxValue::Str(value))
}

fn unit_entry(out_dir_abs: &str, name: &str, unit: &str) -> (r: CtxValue)
    ensures
        r@ == unit_view(out_dir_abs@, name@, unit@),
{
    let candidate = String::from_str("/opt/vade/apps/").concat(name).concat("/candidate-deployment");
    let active = String::from_str("/opt/vade/apps/").concat(name).concat("/active-deployment");
    let mut entries: Vec<(String, CtxValue)> = Vec::new();
    entries.push((String::from_str("name"), CtxValue::Str(String::from_str(unit))));
    entries.push((String::from_str("local_path"), CtxValue::Str(String::from_str(out_dir_abs).concat("/").concat(unit))));
    entries.push((
        String::from_str("candidate_path"),
        CtxValue::Str(candidate.concat("/systemd-unit-copies/").concat(unit)),
    ));
    entries.push((
        String::from_str("active_path"),
        CtxValue::Str(active.concat("/systemd-unit-copies/").concat(unit)),
    ));
    entries.push((String::from_str("installed_path"), CtxValue::Str(String::from_str("/etc/systemd/system/").concat(unit))));
    let r = CtxValue::Object(entries);
    proof {
        reveal_with_fuel(crate::templating::context::ctx_view, 2);
        assert(r@->Object_0 =~= unit_view(out_dir_abs@, name@, unit@)->Object_0);
    }
    r
}

/// The base variables as a map of values (see [`base_context_vars`]).
pub fn base_minijinja_context(
    out_dir_abs: &str,
    app_name: Option<&AppName>,
    deployment: Option<&AppDeployment>,
) -> (r: CtxValue)
    ensures
        holds_exactly(r@, base_context_vars(out_dir_abs@, opt_name_view(app_name), deployment)),
        r@ == base_context(out_dir_abs@, opt_name_view(app_name), deployment),
{
    let ghost target = base_context_vars(out_dir_abs@, opt_name_view(app_name), deployment);
    let mut vars: Vec<(String, CtxValue)> = Vec::new();
    vars.push(str_entry("vade.internal.assign_ports_script.local", join(out_dir_abs, "assign-ports.py")));
    vars.push(str_entry("vade.internal.assign_ports_script.remote", String::from_str("/opt/vade/scripts/assign-ports.py")));
    assert(vars_view(vars@) =~= internal_vars(out_dir_abs@));
    if let Some(app_name) = app_name {
        let name = app_name.as_str();
        let home = String::from_str("/opt/vade/apps/").concat(name);
        let active = home.clone().concat("/active-deployment");
        let candidate = home.clone().concat("/candidate-deployment");
        vars.push(str_entry("vade.app.name", String::from_str(name)));
        vars.push(str_entry("vade.app.username", String::from_str(name)));
        vars.push(str_entry("vade.app.paths.home", home.clone()));
        vars.push(str_entry("vade.app.paths.secrets", home.clone().concat("/secrets")));
        vars.push(str_entry("vade.app.paths.storage", home.clone().concat("/storage")));
        vars.push(str_entry("vade.app.paths.active_deployment", active.clone()));
        vars.push(str_entry("vade.app.paths.previous_deployment", home.clone().concat("/previous-deployment")));
        vars.push(str_entry("vade.app.paths.candidate_deployment", candidate.clone()));
        vars.push(str_entry("vade.app.paths.active_systemd_unit_copies", active.clone().concat("/systemd-unit-copies")));
        vars.push(str_entry("vade.app.artifacts.active", active.clone().concat("/artifacts")));
        vars.push(str_entry("vade.app.artifacts.candidate", candidate.clone().concat("/artifacts")));
        vars.push(str_entry("vade.app.caddyfile.active", active.clone().concat("/Caddyfile")));
        vars.push(str_entry("vade.app.paths.artifacts", active.clone().concat("/artifacts")));
        assert(vars_view(vars@) =~= internal_vars(out_dir_abs@) + app_vars(name@));
        if let Some(deployment) = deployment {
            let ghost before = vars_view(vars@);
            let mut units: Vec<CtxValue> = Vec::new();
            let n = deployment.systemd_units.len();
            let ghost names = unit_names(*deployment);
            let mut i: usize = 0;
            while i < n
                invariant
                    n == deployment.systemd_units@.len(),
                    names == unit_names(*deployment),
                    i <= n,
                    units@.len() == i,
                    forall|k: int| 0 <= k < i ==> #[trigger] units@[k]@ == unit_view(out_dir_abs@, name@, names[k]),
                decreases n - i,
            {
                units.push(unit_entry(out_dir_abs, name, deployment.systemd_units[i].name.as_str()));
                i = i + 1;
            }
            let list = CtxValue::List(units);
            proof {
                let expected = names.map_values(|u: Seq<char>| unit_view(out_dir_abs@, name@, u));
                assert forall|k: int| 0 <= k < n implies list@->List_0[k] == expected[k] by {
                    assert(units@[k]@ == unit_view(out_dir_abs@, name@, names[k]));
                }
                assert(list@->List_0 =~= expected);
            }
            vars.push((String::from_str("vade.app.systemd_units"), list));
            if let Some(artifacts_dir) = &deployment.artifacts {
                vars.push(str_entry("vade.app.artifacts.local", String::from_str(artifacts_dir.as_str())));
            }
            if deployment.caddyfile.is_some() {
                vars.push(str_entry("vade.app.caddyfile.local", join(out_dir_abs, "Caddyfile")));
                vars.push(str_entry("vade.app.caddyfile.candidate", candidate.concat("/Caddyfile")));
            }
            assert(vars_view(vars@) =~= before + deployment_vars(out_dir_abs@, name@, *deployment));
        }
    }
    assert(vars_view(vars@) == target);
    proof {
        lemma_base_vars_independent(out_dir_abs@, opt_name_view(app_name), deployment);
        assert(gatherable(target));
    }
    build_context(vars)
}

} // verus!
