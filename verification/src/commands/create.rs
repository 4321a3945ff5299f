//! `vade create`: the pyinfra deploy that creates an app on the server.

use vstd::prelude::*;
use crate::app_name::AppName;
use crate::commands::{OutputFile, render_execute_py, rendered_execute_py};
use crate::templating::BuiltinTemplates;
use crate::templating::base::base_context;
use crate::util::Diagnostic;

verus! {

/// The files of `vade create`: `execute.py`, the create deploy rendered for the app (see
/// [`rendered_execute_py`]).
pub fn execute(app_name: &AppName, out_dir: &str, builtins: &BuiltinTemplates) -> (r: Result<Vec<OutputFile>, Diagnostic>)
    ensures
        rendered_execute_py(r, *builtins, builtins.create@, base_context(out_dir@, Some(app_name@), None)),
{
    render_execute_py(out_dir, Some(app_name), builtins, "create.py.j2", builtins.create.as_str())
}

} // verus!
