use vstd::prelude::*;

use crate::builtin::{is_builtin, is_builtin_name};
use crate::text::opt_str;
use crate::tokenizer::{cmds_view, ParsedCmd, SpecParsedCmd};

verus! {

/// Where a pipeline stands: the next stage to run, and the output of the
/// last stage that ran, not yet handed on.
pub struct PipelineState {
    pub next: usize,
    pub input: Option<Vec<u8>>,
}

/// What the surroundings are asked to do next.
pub enum PipelineAction {
    /// Run stage `index` as a builtin; its output becomes the next input.
    RunBuiltin { index: usize },
    /// Run stage `index` as a program, feeding it `input` when there is one.
    RunExternal { index: usize, input: Option<Vec<u8>> },
    /// A stage failed: write `message` to the error stream and stop.
    Fail { message: String },
    /// All stages ran: write `output` to the file `path` of the last stage
    /// (appending when `append`), or to the standard output when there is
    /// no such file, and stop.
    Write { output: Vec<u8>, path: Option<String>, append: bool },
    /// Nothing ran: stop.
    Stop,
}

/// A pipeline before its first stage.
pub fn pipeline_start() -> (res: PipelineState)
    ensures
        res.next == 0,
        res.input is None,
{
    PipelineState { next: 0, input: None }
}

pub open spec fn opt_bytes(o: Option<Vec<u8>>) -> Option<Seq<u8>> {
    match o {
        Some(v) => Some(v@),
        None => None,
    }
}

/// The complaint of a pipeline whose stage `cmd` failed.
pub open spec fn not_found_text(cmd: Seq<char>) -> Seq<char> {
    cmd + ": not found\n"@
}

/// The mathematical value of a `PipelineAction`.
pub enum PipelineMove {
    RunBuiltin(int),
    RunExternal(int, Option<Seq<u8>>),
    Fail(Seq<char>),
    Write(Seq<u8>, Option<Seq<char>>, bool),
    Stop,
}

pub open spec fn action_view(a: PipelineAction) -> PipelineMove {
    match a {
        PipelineAction::RunBuiltin { index } => PipelineMove::RunBuiltin(index as int),
        PipelineAction::RunExternal { index, input } => PipelineMove::RunExternal(
            index as int,
            opt_bytes(input),
        ),
        PipelineAction::Fail { message } => PipelineMove::Fail(message@),
        PipelineAction::Write { output, path, append } => PipelineMove::Write(
            output@,
            opt_str(path),
            append,
        ),
        PipelineAction::Stop => PipelineMove::Stop,
    }
}

/// The mathematical value of a stage's outcome.
pub open spec fn outcome_view(last: Option<Result<Vec<u8>, ()>>) -> Option<Result<Seq<u8>, ()>> {
    match last {
        Some(Ok(v)) => Some(Ok(v@)),
        Some(Err(e)) => Some(Err(e)),
        None => None,
    }
}

/// The step of a pipeline over `cmds` that stands before stage `next`,
/// holding `input`, when the stage it last asked for had the outcome
/// `last`: the move it makes, and the next stage and input after it.
///
/// A failed stage stops it with a complaint; otherwise the stage's output
/// becomes the input of the next one, which runs as a builtin (the input
/// stays, unread) or as a program (which is fed the input); after the last
/// stage the input goes to the last stage's output file, or to the standard
/// output.
pub open spec fn pipeline_move(
    cmds: Seq<SpecParsedCmd>,
    next: int,
    input: Option<Seq<u8>>,
    last: Option<Result<Seq<u8>, ()>>,
) -> (PipelineMove, int, Option<Seq<u8>>) {
    match last {
        Some(Err(_)) => (PipelineMove::Fail(not_found_text(cmds[next - 1].cmd)), next, input),
        _ => {
            let inp = match last {
                Some(Ok(v)) => Some(v),
                _ => input,
            };
            if next < cmds.len() {
                if is_builtin_name(cmds[next].cmd) {
                    (PipelineMove::RunBuiltin(next), next + 1, inp)
                } else {
                    (PipelineMove::RunExternal(next, inp), next + 1, None)
                }
            } else {
                match inp {
                    Some(out) => if cmds.len() == 0 {
                        (PipelineMove::Stop, next, None)
                    } else {
                        (
                            PipelineMove::Write(out, cmds.last().stout, cmds.last().append),
                            next,
                            None,
                        )
                    },
                    None => (PipelineMove::Stop, next, None),
                }
            }
        },
    }
}

/// What a pipeline does next, given the outcome of the stage it last asked
/// for (`None` at the start), as `pipeline_move` says.
pub fn pipeline_step(
    commands: &Vec<ParsedCmd>,
    state: &mut PipelineState,
    last: Option<Result<Vec<u8>, ()>>,
) -> (res: PipelineAction)
    requires
        old(state).next <= commands@.len(),
        old(state).next == 0 ==> last is None,
    ensures
        ({
            let m = pipeline_move(
                cmds_view(commands@),
                old(state).next as int,
                opt_bytes(old(state).input),
                outcome_view(last),
            );
            &&& action_view(res) == m.0
            &&& final(state).next == m.1
            &&& opt_bytes(final(state).input) == m.2
        }),
{
    match last {
        Some(Err(_)) => {
            let mut message = String::new();
            message.append(commands[state.next - 1].cmd.as_str());
            message.append(": not found\n");
            return PipelineAction::Fail { message };
        },
        Some(Ok(v)) => {
            state.input = Some(v);
        },
        None => {},
    }
    if state.next < commands.len() {
        let index = state.next;
        state.next = state.next + 1;
        if is_builtin(commands[index].cmd.as_str()) {
            PipelineAction::RunBuiltin { index }
        } else {
            let input = state.input.take();
            PipelineAction::RunExternal { index, input }
        }
    } else {
        match state.input.take() {
            Some(output) => {
                if commands.len() == 0 {
                    return PipelineAction::Stop;
                }
                let lastcmd = &commands[commands.len() - 1];
                let path = match &lastcmd.stout {
                    Some(p) => Some(p.clone()),
                    None => None,
                };
                PipelineAction::Write { output, path, append: lastcmd.append }
            },
            None => PipelineAction::Stop,
        }
    }
}

/// The move a pipeline makes at its `k`-th step (counting from 0), and the
/// next stage and input after it, when stage `i` gave `outs[i]`.
pub open spec fn pipeline_run(cmds: Seq<SpecParsedCmd>, outs: Seq<Seq<u8>>, k: nat) -> (
    PipelineMove,
    int,
    Option<Seq<u8>>,
)
    decreases k,
{
    if k == 0 {
        pipeline_move(cmds, 0, None, None)
    } else {
        let prev = pipeline_run(cmds, outs, (k - 1) as nat);
        pipeline_move(cmds, prev.1, prev.2, Some(Ok(outs[k - 1])))
    }
}

} // verus!
