//! The commands of vade. Each computes the files that it writes to the output directory; the
//! caller writes them.

use vstd::prelude::*;
use crate::app_name::AppName;
use crate::engine::engine_render_result;
use crate::templating::BuiltinTemplates;
use crate::templating::base::{base_context, base_minijinja_context, opt_name_view};
use crate::templating::context::CtxView;
use crate::templating::render::{
    base_env_error, base_env_view, base_minijinja_env, internal_error_root, internal_meta,
    lemma_env_error_message, lemma_report_message, render_internal,
};
use crate::util::Diagnostic;

pub mod create;
pub mod deploy;
pub mod destroy;
pub mod server_setup;

verus! {

/// A file to be written to the output directory.
#[derive(Debug)]
pub struct OutputFile {
    /// The file's name within the output directory.
    pub name: String,
    pub contents: String,
}

pub open spec fn file_names(files: Seq<OutputFile>) -> Seq<Seq<char>> {
    files.map_values(|f: OutputFile| f.name@)
}

/// `r` is the outcome of rendering the internal template `source` as `execute.py`, in the
/// environment of the built-in templates `b`, with the context `ctx`: on success the one file
/// `execute.py` holding the rendered text; success exactly when the building blocks compile and
/// `source` renders; errors are internal errors.
pub open spec fn rendered_execute_py(
    r: Result<Vec<OutputFile>, Diagnostic>,
    b: BuiltinTemplates,
    source: Seq<char>,
    ctx: CtxView,
) -> bool {
    &&& r matches Ok(files) ==> file_names(files@) == seq!["execute.py"@]
        && engine_render_result(base_env_view(b), source, ctx) == Ok::<Seq<char>, minijinja::Error>(files@[0].contents@)
    &&& r is Ok <==> (base_env_error(b) is None && engine_render_result(base_env_view(b), source, ctx) is Ok)
    &&& r matches Err(d) ==> d@.message == internal_error_root()
}

/// Renders the internal template `source` (named `id`) as `execute.py`, with the base variables
/// of the output directory and the app (if any).
fn render_execute_py(
    out_dir: &str,
    app_name: Option<&AppName>,
    builtins: &BuiltinTemplates,
    id: &str,
    source: &str,
) -> (r: Result<Vec<OutputFile>, Diagnostic>)
    ensures
        rendered_execute_py(r, *builtins, source@, base_context(out_dir@, opt_name_view(app_name), None)),
{
    let context = base_minijinja_context(out_dir, app_name, None);
    let env = match base_minijinja_env(builtins) {
        Ok(env) => env,
        Err(d) => {
            proof {
                lemma_env_error_message(d@, *builtins);
            }
            return Err(d);
        },
    };
    match render_internal(&env, &context, id, source) {
        Ok(contents) => {
            let mut files: Vec<OutputFile> = Vec::new();
            files.push(OutputFile { name: String::from_str("execute.py"), contents });
            proof {
                assert(file_names(files@) =~= seq!["execute.py"@]);
            }
            Ok(files)
        },
        Err(d) => {
            proof {
                lemma_report_message(d@, internal_error_root(), None, source@, internal_meta(id@));
            }
            Err(d)
        },
    }
}

} // verus!
