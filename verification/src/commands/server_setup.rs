//! `vade server-setup`: the pyinfra deploy that prepares a server for vade.

use vstd::prelude::*;
use crate::cli::ServerSetupCommand;
use crate::commands::{OutputFile, file_names, render_execute_py, rendered_execute_py};
use crate::engine::engine_render_result;
use crate::templating::BuiltinTemplates;
use crate::templating::base::base_context;
use crate::templating::render::{base_env_error, base_env_view, internal_error_root};
use crate::util::Diagnostic;

verus! {

/// The setup of a server.
pub struct ServerSetup {
    /// The (absolute) directory where the pyinfra deploy and related files are generated
    pub out_dir: String,
}

/// `r` is the outcome of setting up a server with the output directory `out_dir`: `execute.py`,
/// the server-setup deploy rendered with the internal variables of `out_dir` (see
/// [`base_context`]), and `assign-ports.py`, the port-assignment script as it ships. It succeeds
/// exactly when the building blocks compile and the deploy renders.
pub open spec fn server_setup_outcome(r: Result<Vec<OutputFile>, Diagnostic>, b: BuiltinTemplates, out_dir: Seq<char>) -> bool {
    let ctx = base_context(out_dir, None, None);
    &&& r matches Ok(files) ==> file_names(files@) == seq!["execute.py"@, "assign-ports.py"@]
        && files@[1].contents@ == b.assign_ports_script@
        && engine_render_result(base_env_view(b), b.server_setup@, ctx) == Ok::<Seq<char>, minijinja::Error>(files@[0].contents@)
    &&& r is Ok <==> (base_env_error(b) is None && engine_render_result(base_env_view(b), b.server_setup@, ctx) is Ok)
    &&& r matches Err(d) ==> d@.message == internal_error_root()
}

impl ServerSetup {
    /// The files of `vade server-setup` (see [`server_setup_outcome`]).
    pub fn execute(self, builtins: &BuiltinTemplates) -> (r: Result<Vec<OutputFile>, Diagnostic>)
        ensures
            server_setup_outcome(r, *builtins, self.out_dir@),
    {
        let r = render_execute_py(self.out_dir.as_str(), None, builtins, "server-setup.py.j2", builtins.server_setup.as_str());
        proof {
            assert(rendered_execute_py(r, *builtins, builtins.server_setup@, base_context(self.out_dir@, None, None)));
        }
        match r {
            Ok(files) => {
                let mut files = files;
                let ghost before = files@;
                files.push(OutputFile {
                    name: String::from_str("assign-ports.py"),
                    contents: builtins.assign_ports_script.clone(),
                });
                assert(file_names(files@) =~= file_names(before).push("assign-ports.py"@));
                assert(before.len() == 1);
                assert(files@[0] == before[0]);
                assert(file_names(files@) =~= seq!["execute.py"@, "assign-ports.py"@]);
                Ok(files)
            },
            Err(d) => Err(d),
        }
    }
}

/// Runs `vade server-setup` (the command's output directory made absolute by the caller): the
/// outcome of [`ServerSetup::execute`] for that directory.
pub fn server_setup(command: ServerSetupCommand, builtins: &BuiltinTemplates) -> (r: Result<Vec<OutputFile>, Diagnostic>)
    ensures
        server_setup_outcome(r, *builtins, command.out_dir@),
{
    ServerSetup { out_dir: command.out_dir }.execute(builtins)
}

} // verus!

verus! {

/// The name and text of each file.
pub open spec fn file_texts(files: Seq<OutputFile>) -> Seq<(Seq<char>, Seq<char>)> {
    files.map_values(|f: OutputFile| (f.name@, f.contents@))
}

/// Setting up a server has one outcome for a directory and the built-in templates: two runs
/// (such as [`server_setup`] and [`ServerSetup::execute`] for the same directory) both fail, or
/// both write the same files.
pub proof fn lemma_server_setup_outcome_unique(
    r1: Result<Vec<OutputFile>, Diagnostic>,
    r2: Result<Vec<OutputFile>, Diagnostic>,
    b: BuiltinTemplates,
    out_dir: Seq<char>,
)
    requires
        server_setup_outcome(r1, b, out_dir),
        server_setup_outcome(r2, b, out_dir),
    ensures
        (r1 is Ok) == (r2 is Ok),
        r1 matches Ok(f1) ==> r2 matches Ok(f2) && file_texts(f1@) == file_texts(f2@),
{
    if let Ok(f1) = r1 {
        if let Ok(f2) = r2 {
            let n1 = file_names(f1@);
            let n2 = file_names(f2@);
            assert(n1.len() == f1@.len() && n2.len() == f2@.len());
            assert(n1.len() == 2 && n2.len() == 2);
            assert(n1[0] == f1@[0].name@ && n1[1] == f1@[1].name@);
            assert(n2[0] == f2@[0].name@ && n2[1] == f2@[1].name@);
            assert(file_texts(f1@) =~= file_texts(f2@));
        }
    }
}

} // verus!
