use vstd::hash_map::StringHashMap;
use vstd::prelude::*;

use crate::text::{decimal, format_usize, strings_view, trim, trimmed};

verus! {

/// Whether a background job still runs.
#[derive(Debug, Clone, Copy, PartialEq, Eq, Structural)]
pub enum JobStatus {
    Running,
    Done,
}

/// A background job: its number, the process it waits for, the command
/// text it was started with, and its status.
pub struct Job {
    pub id: usize,
    pub pid: u32,
    pub token: String,
    pub status: JobStatus,
}

/// The state a shell keeps between command lines.
pub struct Shell {
    pub jobs: Vec<Job>,
    pub next_job_id: usize,
    pub history: Vec<String>,
    pub vars: StringHashMap<String>,
}

/// The shell variables, each name with the characters of its value.
pub open spec fn var_values(m: Map<Seq<char>, String>) -> Map<Seq<char>, Seq<char>> {
    m.map_values(|v: String| v@)
}

impl Shell {
    /// A shell with no jobs, no history and no variables, whose next job is
    /// number 1.
    pub fn new() -> (res: Shell)
        ensures
            res.jobs@.len() == 0,
            res.next_job_id == 1,
            res.history@.len() == 0,
            res.vars@ == Map::<Seq<char>, String>::empty(),
    {
        Shell { jobs: Vec::new(), next_job_id: 1, history: Vec::new(), vars: StringHashMap::new() }
    }
}

/// The history entry of a command line: its number, a space, and the line
/// without surrounding white space.
pub open spec fn history_entry(number: nat, command: Seq<char>) -> Seq<char> {
    decimal(number) + " "@ + trimmed(command)
}

/// Records a command line in the history, numbering it with the next value
/// of the counter.
pub fn update_history(shell: &mut Shell, command: &str, counter: &mut usize)
    requires
        *old(counter) < usize::MAX,
    ensures
        *final(counter) == *old(counter) + 1,
        strings_view(final(shell).history@) == strings_view(old(shell).history@).push(
            history_entry(*final(counter) as nat, command@),
        ),
        final(shell).jobs == old(shell).jobs,
        final(shell).next_job_id == old(shell).next_job_id,
        final(shell).vars == old(shell).vars,
{
    *counter = *counter + 1;
    let mut entry = format_usize(*counter);
    entry.append(" ");
    let t = trim(command);
    entry.append(t.as_str());
    let ghost before = strings_view(shell.history@);
    shell.history.push(entry);
    assert(strings_view(shell.history@) == before.push(entry@));
}

/// The number the next job gets: one past the last job's, or 1 when there
/// is no job.
pub open spec fn next_id_after(jobs: Seq<Job>) -> int {
    if jobs.len() == 0 {
        1
    } else {
        jobs.last().id + 1
    }
}

/// Sets the number of the next job from the job list.
pub fn update_next_job_id(shell: &mut Shell)
    requires
        old(shell).jobs@.len() > 0 ==> old(shell).jobs@.last().id < usize::MAX,
    ensures
        final(shell).next_job_id == next_id_after(old(shell).jobs@),
        final(shell).jobs == old(shell).jobs,
        final(shell).history == old(shell).history,
        final(shell).vars == old(shell).vars,
{
    let n = shell.jobs.len();
    if n == 0 {
        shell.next_job_id = 1;
    } else {
        shell.next_job_id = shell.jobs[n - 1].id + 1;
    }
}

} // verus!
