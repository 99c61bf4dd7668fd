use vstd::prelude::*;

use crate::jobs::{copy_job, kept_jobs, listing, marker};
use crate::shell::{var_values, Job, JobStatus, Shell};
use crate::text::{
    format_usize, index_of, join, joined, lemma_index_of, opt_str, parse_usize, parses_usize,
    same_text, split_once, strings_view, usize_value, chars_of,
};
use crate::tokenizer::{ParsedCmd, SpecParsedCmd};

verus! {

/// How a command ended as a builtin.
#[derive(Debug, Clone, Copy, PartialEq, Eq, Structural)]
pub enum BuiltinResult {
    NotBuiltin,
    Continue,
    Exit,
}

/// The names of the builtin commands.
pub open spec fn is_builtin_name(c: Seq<char>) -> bool {
    ||| c == "exit"@
    ||| c == "echo"@
    ||| c == "pwd"@
    ||| c == "cd"@
    ||| c == "type"@
    ||| c == "jobs"@
    ||| c == "history"@
    ||| c == "declare"@
}

/// Whether a command is one of the builtins.
pub fn is_builtin(cmd: &str) -> (res: bool)
    ensures
        res == is_builtin_name(cmd@),
{
    same_text(cmd, "exit") || same_text(cmd, "echo") || same_text(cmd, "pwd") || same_text(
        cmd,
        "cd",
    ) || same_text(cmd, "type") || same_text(cmd, "jobs") || same_text(cmd, "history")
        || same_text(cmd, "declare")
}

/// What `echo` writes: its arguments separated by spaces, and a newline.
pub open spec fn echo_text(args: Seq<Seq<char>>) -> Seq<char> {
    joined(args, " "@) + "\n"@
}

/// Writes the arguments separated by spaces, and a newline.
pub fn echo(args: &Vec<String>) -> (res: String)
    ensures
        res@ == echo_text(strings_view(args@)),
{
    let mut s = join(args, " ");
    s.append("\n");
    s
}

/// What `pwd` writes: the working directory and a newline.
pub fn pwd(cwd: &str) -> (res: String)
    ensures
        res@ == cwd@ + "\n"@,
{
    let mut s = String::new();
    s.append(cwd);
    s.append("\n");
    s
}

/// Where `cd` goes: to the home directory, or to a path.
pub enum ChangeDir {
    Home,
    To(String),
}

/// The mathematical value of a `ChangeDir`.
pub enum DirTarget {
    Home,
    To(Seq<char>),
}

pub open spec fn dir_target(c: Option<ChangeDir>) -> Option<DirTarget> {
    match c {
        Some(ChangeDir::Home) => Some(DirTarget::Home),
        Some(ChangeDir::To(p)) => Some(DirTarget::To(p@)),
        None => None,
    }
}

/// What `cd` does: with no argument it complains; `~` goes home; any other
/// first argument is the directory to go to.
pub open spec fn cd_effect(args: Seq<Seq<char>>) -> (Seq<char>, Option<DirTarget>) {
    if args.len() == 0 {
        ("cd: No directory specified\n"@, None)
    } else if args[0] == "~"@ {
        (Seq::empty(), Some(DirTarget::Home))
    } else {
        (Seq::empty(), Some(DirTarget::To(args[0])))
    }
}

/// Decides where `cd` goes. Returns the complaint for the error stream and
/// the directory change to make.
pub fn cd(args: &Vec<String>) -> (res: (String, Option<ChangeDir>))
    ensures
        res.0@ == cd_effect(strings_view(args@)).0,
        dir_target(res.1) == cd_effect(strings_view(args@)).1,
{
    if args.len() == 0 {
        let mut e = String::new();
        e.append("cd: No directory specified\n");
        return (e, None);
    }
    if same_text(args[0].as_str(), "~") {
        (String::new(), Some(ChangeDir::Home))
    } else {
        (String::new(), Some(ChangeDir::To(args[0].clone())))
    }
}

/// The complaint of `cd` when the directory cannot be entered.
pub fn cd_failure(path: &str) -> (res: String)
    ensures
        res@ == "cd: "@ + path@ + ": No such file or directory\n"@,
{
    let mut e = String::new();
    e.append("cd: ");
    e.append(path);
    e.append(": No such file or directory\n");
    e
}

/// What `type` writes (to the output and to the error stream), given where
/// the search path finds its argument as a program.
pub open spec fn type_effect(args: Seq<Seq<char>>, found: Option<Seq<char>>) -> (
    Seq<char>,
    Seq<char>,
) {
    if args.len() == 0 {
        ("type: missing argument\n"@, Seq::empty())
    } else if is_builtin_name(args[0]) {
        (args[0] + " is a shell builtin\n"@, Seq::empty())
    } else {
        match found {
            Some(p) => (args[0] + " is "@ + p + "\n"@, Seq::empty()),
            None => (Seq::empty(), args[0] + ": not found\n"@),
        }
    }
}

/// Tells what the first argument is: a builtin, a program found at a path
/// (`found` is where the search path finds it), or nothing.
/// Returns the text for the output and for the error stream.
pub fn type_cmd(args: &Vec<String>, found: &Option<String>) -> (res: (String, String))
    ensures
        res.0@ == type_effect(strings_view(args@), opt_str(*found)).0,
        res.1@ == type_effect(strings_view(args@), opt_str(*found)).1,
{
    let mut out = String::new();
    let mut err = String::new();
    if args.len() == 0 {
        out.append("type: missing argument\n");
        return (out, err);
    }
    let arg = &args[0];
    if is_builtin(arg.as_str()) {
        out.append(arg.as_str());
        out.append(" is a shell builtin\n");
    } else {
        match found {
            Some(path) => {
                out.append(arg.as_str());
                out.append(" is ");
                out.append(path.as_str());
                out.append("\n");
            },
            None => {
                err.append(arg.as_str());
                err.append(": not found\n");
            },
        }
    }
    (out, err)
}

/// What `cat` writes for the first `k` files, given what reading each
/// gave: its text, or nothing when it could not be read.
pub open spec fn cat_effect(files: Seq<Seq<char>>, contents: Seq<Option<Seq<char>>>, k: int) -> (
    Seq<char>,
    Seq<char>,
)
    decreases k,
{
    if k <= 0 {
        (Seq::empty(), Seq::empty())
    } else {
        let r = cat_effect(files, contents, k - 1);
        match contents[k - 1] {
            Some(c) => (r.0 + c, r.1),
            None => (r.0, r.1 + "cat: "@ + files[k - 1] + ": No such file or directory\n"@),
        }
    }
}

pub open spec fn opt_strs(v: Seq<Option<String>>) -> Seq<Option<Seq<char>>> {
    v.map_values(|o: Option<String>| opt_str(o))
}

/// Writes the text of each file (`contents[i]` is what reading file `i`
/// gave). Returns the text for the output and for the error stream.
pub fn cat(files: &Vec<String>, contents: &Vec<Option<String>>) -> (res: (String, String))
    requires
        contents@.len() == files@.len(),
    ensures
        res.0@ == cat_effect(strings_view(files@), opt_strs(contents@), files@.len() as int).0,
        res.1@ == cat_effect(strings_view(files@), opt_strs(contents@), files@.len() as int).1,
{
    let mut out = String::new();
    let mut err = String::new();
    let mut i: usize = 0;
    while i < files.len()
        invariant
            i <= files.len(),
            contents@.len() == files@.len(),
            out@ == cat_effect(strings_view(files@), opt_strs(contents@), i as int).0,
            err@ == cat_effect(strings_view(files@), opt_strs(contents@), i as int).1,
        decreases files.len() - i,
    {
        match &contents[i] {
            Some(c) => {
                out.append(c.as_str());
            },
            None => {
                err.append("cat: ");
                err.append(files[i].as_str());
                err.append(": No such file or directory\n");
            },
        }
        i = i + 1;
    }
    (out, err)
}

/// Lists every job, first marking as done those whose process has ended
/// (`finished[i]` tells of job `i`), and then forgets the jobs that are done.
/// Returns the listing, which goes to the terminal.
pub fn jobs(shell: &mut Shell, finished: &Vec<bool>) -> (res: String)
    requires
        finished@.len() == old(shell).jobs@.len(),
    ensures
        res@ == listing(old(shell).jobs@, finished@, old(shell).jobs@.len() as int),
        final(shell).jobs@ == kept_jobs(old(shell).jobs@, finished@, old(shell).jobs@.len() as int),
        final(shell).next_job_id == old(shell).next_job_id,
        final(shell).history == old(shell).history,
        final(shell).vars == old(shell).vars,
{
    let ghost jobs = shell.jobs@;
    let n = shell.jobs.len();
    let mut out = String::new();
    let mut kept: Vec<Job> = Vec::new();
    let mut i: usize = 0;
    while i < n
        invariant
            i <= n,
            n == jobs.len(),
            shell.jobs@ == jobs,
            finished@.len() == n,
            out@ == listing(jobs, finished@, i as int),
            kept@ == kept_jobs(jobs, finished@, i as int),
        decreases n - i,
    {
        let job = &shell.jobs[i];
        let status = if finished[i] {
            JobStatus::Done
        } else {
            job.status
        };
        out.append("[");
        let id = format_usize(job.id);
        out.append(id.as_str());
        out.append("]");
        out.append(marker(i, n));
        out.append("  ");
        match status {
            JobStatus::Running => out.append("Running"),
            JobStatus::Done => out.append("Done"),
        }
        out.append("                 ");
        out.append(job.token.as_str());
        if status == JobStatus::Running {
            out.append(" &");
        }
        out.append("\n");
        if status != JobStatus::Done {
            kept.push(copy_job(job));
        }
        i = i + 1;
    }
    shell.jobs = kept;
    out
}


/// The text of a list of lines, each followed by a newline.
pub open spec fn lines_text(s: Seq<Seq<char>>) -> Seq<char>
    decreases s.len(),
{
    if s.len() == 0 {
        Seq::empty()
    } else {
        lines_text(s.drop_last()) + s.last() + "\n"@
    }
}

/// How many history entries `history` shows: the number given, or all.
pub open spec fn history_count(len: nat, args: Seq<Seq<char>>) -> nat {
    if args.len() > 0 {
        usize_value(args[0])
    } else {
        len
    }
}

/// What `history` writes: the last entries, as many as asked for (all when
/// no number is given, or when more are asked for than there are).
pub open spec fn history_text(hist: Seq<Seq<char>>, args: Seq<Seq<char>>) -> Seq<char> {
    let n = history_count(hist.len(), args);
    let start = if n <= hist.len() {
        hist.len() - n
    } else {
        0
    };
    lines_text(hist.skip(start as int))
}

/// Writes the last entries of the history, one per line. A first argument
/// that is not a number is refused.
pub fn history(shell: &Shell, args: &Vec<String>) -> (res: String)
    requires
        args@.len() > 0 ==> parses_usize(args@[0]@),
    ensures
        res@ == history_text(strings_view(shell.history@), strings_view(args@)),
{
    let ghost hist = strings_view(shell.history@);
    let len = shell.history.len();
    let n = if args.len() > 0 {
        match parse_usize(args[0].as_str()) {
            Some(v) => v,
            None => {
                assert(false);
                0
            },
        }
    } else {
        len
    };
    let start = if n <= len {
        len - n
    } else {
        0
    };
    let mut out = String::new();
    let mut i = start;
    assert(hist.skip(start as int).take(0) == Seq::<Seq<char>>::empty());
    while i < len
        invariant
            start <= i <= len,
            len == shell.history@.len(),
            hist == strings_view(shell.history@),
            out@ == lines_text(hist.skip(start as int).take(i - start)),
        decreases len - i,
    {
        assert(hist.skip(start as int).take(i - start + 1).drop_last() == hist.skip(
            start as int,
        ).take(i - start));
        out.append(shell.history[i].as_str());
        out.append("\n");
        i = i + 1;
    }
    assert(hist.skip(start as int).take(len - start) == hist.skip(start as int));
    out
}

/// An identifier: `_` or an ASCII letter, then any of `_`, ASCII letters and
/// digits.
pub open spec fn is_identifier(name: Seq<char>) -> bool {
    &&& name.len() > 0
    &&& (name[0] == '_' || ('a' <= name[0] && name[0] <= 'z') || ('A' <= name[0] && name[0]
        <= 'Z'))
    &&& forall|i: int|
        1 <= i < name.len() ==> #[trigger] crate::expand::is_name_char(name[i])
}

/// Whether a name may be declared as a variable.
pub fn valid_identifier(name: &str) -> (res: bool)
    ensures
        res == is_identifier(name@),
{
    let c = chars_of(name);
    if c.len() == 0 {
        return false;
    }
    let f = c[0];
    if !(f == '_' || ('a' <= f && f <= 'z') || ('A' <= f && f <= 'Z')) {
        return false;
    }
    let mut i: usize = 1;
    while i < c.len()
        invariant
            c@ == name@,
            1 <= i <= c.len(),
            forall|k: int| 1 <= k < i ==> #[trigger] crate::expand::is_name_char(c@[k]),
        decreases c.len() - i,
    {
        let ch = c[i];
        if !(ch == '_' || ('a' <= ch && ch <= 'z') || ('A' <= ch && ch <= 'Z') || ('0' <= ch
            && ch <= '9')) {
            assert(!crate::expand::is_name_char(c@[i as int]));
            return false;
        }
        i = i + 1;
    }
    true
}

/// What `declare` does to the variables and what it writes (to the output
/// and to the error stream).
///
/// `declare -p NAME` shows a variable as `declare -- NAME="VALUE"`;
/// `declare NAME=VALUE` sets one, the name being the text before the first
/// `=`, which must be an identifier.
pub open spec fn declare_effect(args: Seq<Seq<char>>, vars: Map<Seq<char>, Seq<char>>) -> (
    Map<Seq<char>, Seq<char>>,
    Seq<char>,
    Seq<char>,
) {
    if args.len() > 0 && args[0] == "-p"@ {
        if args.len() > 1 {
            let name = args[1];
            if vars.contains_key(name) {
                (vars, "declare -- "@ + name + "=\""@ + vars[name] + "\"\n"@, Seq::empty())
            } else {
                (vars, Seq::empty(), "declare: "@ + name + ": not found\n"@)
            }
        } else {
            (vars, Seq::empty(), Seq::empty())
        }
    } else if args.len() > 0 {
        let arg = args[0];
        let k = index_of(arg, '=') as int;
        if k < arg.len() {
            let name = arg.take(k);
            let value = arg.skip(k + 1);
            if is_identifier(name) {
                (vars.insert(name, value), Seq::empty(), Seq::empty())
            } else {
                (vars, Seq::empty(), "declare: `"@ + arg + "': not a valid identifier\n"@)
            }
        } else {
            (vars, Seq::empty(), Seq::empty())
        }
    } else {
        (vars, Seq::empty(), Seq::empty())
    }
}

/// Shows or sets a variable. Returns the text for the output and for the
/// error stream.
pub fn declare(args: &Vec<String>, shell: &mut Shell) -> (res: (String, String))
    ensures
        var_values(final(shell).vars@) == declare_effect(
            strings_view(args@),
            var_values(old(shell).vars@),
        ).0,
        res.0@ == declare_effect(strings_view(args@), var_values(old(shell).vars@)).1,
        res.1@ == declare_effect(strings_view(args@), var_values(old(shell).vars@)).2,
        final(shell).jobs == old(shell).jobs,
        final(shell).history == old(shell).history,
        final(shell).next_job_id == old(shell).next_job_id,
{
    let mut out = String::new();
    let mut err = String::new();
    if args.len() > 0 && same_text(args[0].as_str(), "-p") {
        if args.len() > 1 {
            let name = &args[1];
            match shell.vars.get(name.as_str()) {
                Some(value) => {
                    out.append("declare -- ");
                    out.append(name.as_str());
                    out.append("=\"");
                    out.append(value.as_str());
                    out.append("\"\n");
                },
                None => {
                    err.append("declare: ");
                    err.append(name.as_str());
                    err.append(": not found\n");
                },
            }
        }
        return (out, err);
    }
    if args.len() > 0 {
        let arg = &args[0];
        proof {
            lemma_index_of(arg@, '=');
        }
        match split_once(arg.as_str(), '=') {
            Some((name, value)) => {
                if valid_identifier(name.as_str()) {
                    let ghost before = shell.vars@;
                    let ghost nv = name@;
                    let ghost vv = value@;
                    shell.vars.insert(name, value);
                    assert(var_values(shell.vars@) =~= var_values(before).insert(nv, vv));
                } else {
                    err.append("declare: `");
                    err.append(arg.as_str());
                    err.append("': not a valid identifier\n");
                }
            },
            None => {},
        }
    }
    (out, err)
}

/// What the shell's surroundings answer that the builtins need: the working
/// directory, where the search path finds the first argument as a program,
/// and, for each job, whether its process has ended.
pub struct World {
    pub cwd: String,
    pub found: Option<String>,
    pub finished: Vec<bool>,
}

/// What running a builtin gives: how it ended, the text for the output, the
/// error stream and the terminal, and the directory change to make.
pub struct BuiltinOutcome {
    pub result: BuiltinResult,
    pub out: String,
    pub err: String,
    pub console: String,
    pub chdir: Option<ChangeDir>,
}

/// The mathematical value of what a builtin does.
pub struct BuiltinEffect {
    pub result: BuiltinResult,
    pub out: Seq<char>,
    pub err: Seq<char>,
    pub console: Seq<char>,
    pub chdir: Option<DirTarget>,
    pub jobs: Seq<Job>,
    pub vars: Map<Seq<char>, Seq<char>>,
}

/// What the builtin that a command names does, in a shell with these jobs,
/// history and variables, in these surroundings.
pub open spec fn builtin_effect(
    p: SpecParsedCmd,
    jobs: Seq<Job>,
    hist: Seq<Seq<char>>,
    vars: Map<Seq<char>, Seq<char>>,
    cwd: Seq<char>,
    found: Option<Seq<char>>,
    finished: Seq<bool>,
) -> BuiltinEffect {
    let c = p.cmd;
    let quiet = BuiltinEffect {
        result: BuiltinResult::Continue,
        out: Seq::empty(),
        err: Seq::empty(),
        console: Seq::empty(),
        chdir: None,
        jobs: jobs,
        vars: vars,
    };
    if c == "exit"@ {
        BuiltinEffect { result: BuiltinResult::Exit, ..quiet }
    } else if c == "echo"@ {
        BuiltinEffect { out: echo_text(p.args), ..quiet }
    } else if c == "pwd"@ {
        BuiltinEffect { out: cwd + "\n"@, ..quiet }
    } else if c == "cd"@ {
        BuiltinEffect { err: cd_effect(p.args).0, chdir: cd_effect(p.args).1, ..quiet }
    } else if c == "type"@ {
        BuiltinEffect {
            out: type_effect(p.args, found).0,
            err: type_effect(p.args, found).1,
            ..quiet
        }
    } else if c == "jobs"@ {
        BuiltinEffect {
            console: listing(jobs, finished, jobs.len() as int),
            jobs: kept_jobs(jobs, finished, jobs.len() as int),
            ..quiet
        }
    } else if c == "history"@ {
        BuiltinEffect { out: history_text(hist, p.args), ..quiet }
    } else if c == "declare"@ {
        let d = declare_effect(p.args, vars);
        BuiltinEffect { vars: d.0, out: d.1, err: d.2, ..quiet }
    } else {
        BuiltinEffect { result: BuiltinResult::NotBuiltin, ..quiet }
    }
}

/// Runs the command if it is a builtin. The inputs on which the builtin
/// itself would fail are refused: a `history` count that is not a number,
/// and, for `jobs`, answers that do not cover every job.
pub fn run_builtin(parsed: &ParsedCmd, shell: &mut Shell, world: &World) -> (res: BuiltinOutcome)
    requires
        parsed.cmd@ == "jobs"@ ==> world.finished@.len() == old(shell).jobs@.len(),
        parsed.cmd@ == "history"@ && parsed.args@.len() > 0 ==> parses_usize(parsed.args@[0]@),
    ensures
        ({
            let e = builtin_effect(
                parsed@,
                old(shell).jobs@,
                strings_view(old(shell).history@),
                var_values(old(shell).vars@),
                world.cwd@,
                opt_str(world.found),
                world.finished@,
            );
            &&& res.result == e.result
            &&& res.out@ == e.out
            &&& res.err@ == e.err
            &&& res.console@ == e.console
            &&& dir_target(res.chdir) == e.chdir
            &&& final(shell).jobs@ == e.jobs
            &&& var_values(final(shell).vars@) == e.vars
        }),
        final(shell).history == old(shell).history,
        final(shell).next_job_id == old(shell).next_job_id,
{
    let cmd = parsed.cmd.as_str();
    let mut res = BuiltinOutcome {
        result: BuiltinResult::Continue,
        out: String::new(),
        err: String::new(),
        console: String::new(),
        chdir: None,
    };
    if same_text(cmd, "exit") {
        res.result = BuiltinResult::Exit;
    } else if same_text(cmd, "echo") {
        res.out = echo(&parsed.args);
    } else if same_text(cmd, "pwd") {
        res.out = pwd(world.cwd.as_str());
    } else if same_text(cmd, "cd") {
        let (e, c) = cd(&parsed.args);
        res.err = e;
        res.chdir = c;
    } else if same_text(cmd, "type") {
        let (o, e) = type_cmd(&parsed.args, &world.found);
        res.out = o;
        res.err = e;
    } else if same_text(cmd, "jobs") {
        res.console = jobs(shell, &world.finished);
    } else if same_text(cmd, "history") {
        res.out = history(shell, &parsed.args);
    } else if same_text(cmd, "declare") {
        let (o, e) = declare(&parsed.args, shell);
        res.out = o;
        res.err = e;
    } else {
        res.result = BuiltinResult::NotBuiltin;
    }
    res
}

} // verus!
