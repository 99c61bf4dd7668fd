use vstd::prelude::*;

use crate::builtin::{builtin_effect, dir_target, run_builtin, BuiltinOutcome, BuiltinResult, World};
use crate::shell::{var_values, Shell};
use crate::text::{opt_str, parses_usize, same_text, strings_view};
use crate::tokenizer::ParsedCmd;

verus! {

/// Whether the shell goes on reading lines.
#[derive(Debug, Clone, Copy, PartialEq, Eq, Structural)]
pub enum ShellAction {
    Continue,
    Exit,
}

/// Runs one command line's single command: `exit` ends the shell; a builtin
/// runs here; any other command is left to be run as a program (the
/// outcome's result is then `NotBuiltin`) and the shell goes on.
pub fn run(parsed: &ParsedCmd, shell: &mut Shell, world: &World) -> (res: (
    ShellAction,
    BuiltinOutcome,
))
    requires
        parsed.cmd@ == "jobs"@ ==> world.finished@.len() == old(shell).jobs@.len(),
        parsed.cmd@ == "history"@ && parsed.args@.len() > 0 ==> parses_usize(parsed.args@[0]@),
    ensures
        parsed.cmd@ == "exit"@ ==> res.0 == ShellAction::Exit && res.1.result == BuiltinResult::Exit
            && res.1.out@.len() == 0 && res.1.err@.len() == 0 && res.1.console@.len() == 0
            && res.1.chdir is None && *final(shell) == *old(shell),
        parsed.cmd@ != "exit"@ ==> res.0 == ShellAction::Continue && ({
            let e = builtin_effect(
                parsed@,
                old(shell).jobs@,
                strings_view(old(shell).history@),
                var_values(old(shell).vars@),
                world.cwd@,
                opt_str(world.found),
                world.finished@,
            );
            &&& res.1.result == e.result
            &&& res.1.out@ == e.out
            &&& res.1.err@ == e.err
            &&& res.1.console@ == e.console
            &&& dir_target(res.1.chdir) == e.chdir
            &&& final(shell).jobs@ == e.jobs
            &&& var_values(final(shell).vars@) == e.vars
            &&& final(shell).history == old(shell).history
            &&& final(shell).next_job_id == old(shell).next_job_id
        }),
{
    if same_text(parsed.cmd.as_str(), "exit") {
        return (
            ShellAction::Exit,
            BuiltinOutcome {
                result: BuiltinResult::Exit,
                out: String::new(),
                err: String::new(),
                console: String::new(),
                chdir: None,
            },
        );
    }
    let outcome = run_builtin(parsed, shell, world);
    (ShellAction::Continue, outcome)
}

} // verus!
