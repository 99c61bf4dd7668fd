use vstd::prelude::*;

use crate::shell::{Job, JobStatus, Shell};
use crate::text::{decimal, format_usize};

verus! {

/// The mark of the job at position `i` in a list of `len` jobs: `+` for the
/// last (the current job), `-` for the one before it, a space otherwise.
pub open spec fn job_marker(i: int, len: int) -> Seq<char> {
    if i + 1 == len {
        "+"@
    } else if i + 2 == len {
        "-"@
    } else {
        " "@
    }
}

/// The name under which a status is listed.
pub open spec fn status_name(s: JobStatus) -> Seq<char> {
    match s {
        JobStatus::Running => "Running"@,
        JobStatus::Done => "Done"@,
    }
}

/// The gap between the status and the command in a job line.
pub open spec fn job_gap() -> Seq<char> {
    "                 "@
}

/// The status a job has once the answer to whether its process ended is in.
pub open spec fn status_after(job: Job, finished: bool) -> JobStatus {
    if finished {
        JobStatus::Done
    } else {
        job.status
    }
}

/// The line that lists a job: `[id]mark  Status<gap>command`, with ` &`
/// after a running job.
pub open spec fn listing_line(job: Job, mark: Seq<char>, status: JobStatus) -> Seq<char> {
    "["@ + decimal(job.id as nat) + "]"@ + mark + "  "@ + status_name(status) + job_gap()
        + job.token@ + (if status == JobStatus::Running {
        " &"@
    } else {
        Seq::empty()
    }) + "\n"@
}

/// The line that reports a job that has ended: `[id]mark  Done<gap>command`.
pub open spec fn done_line(job: Job, mark: Seq<char>) -> Seq<char> {
    "["@ + decimal(job.id as nat) + "]"@ + mark + "  Done"@ + job_gap() + job.token@ + "\n"@
}

/// The listing of the first `k` jobs.
pub open spec fn listing(jobs: Seq<Job>, finished: Seq<bool>, k: int) -> Seq<char>
    decreases k,
{
    if k <= 0 {
        Seq::empty()
    } else {
        listing(jobs, finished, k - 1) + listing_line(
            jobs[k - 1],
            job_marker(k - 1, jobs.len() as int),
            status_after(jobs[k - 1], finished[k - 1]),
        )
    }
}

/// The reports of the jobs among the first `k` that have ended.
pub open spec fn done_report(jobs: Seq<Job>, finished: Seq<bool>, k: int) -> Seq<char>
    decreases k,
{
    if k <= 0 {
        Seq::empty()
    } else {
        done_report(jobs, finished, k - 1) + if finished[k - 1] {
            done_line(jobs[k - 1], job_marker(k - 1, jobs.len() as int))
        } else {
            Seq::empty()
        }
    }
}

/// The jobs among the first `k` that are kept: those still running once
/// the answers are in, in their order.
pub open spec fn kept_jobs(jobs: Seq<Job>, finished: Seq<bool>, k: int) -> Seq<Job>
    decreases k,
{
    if k <= 0 {
        Seq::empty()
    } else if status_after(jobs[k - 1], finished[k - 1]) != JobStatus::Done {
        kept_jobs(jobs, finished, k - 1).push(jobs[k - 1])
    } else {
        kept_jobs(jobs, finished, k - 1)
    }
}

pub(crate) fn marker(i: usize, len: usize) -> (res: &'static str)
    requires
        i < len,
    ensures
        res@ == job_marker(i as int, len as int),
{
    if i + 1 == len {
        "+"
    } else if i + 2 == len {
        "-"
    } else {
        " "
    }
}

pub(crate) fn copy_job(job: &Job) -> (res: Job)
    ensures
        res == *job,
{
    Job { id: job.id, pid: job.pid, token: job.token.clone(), status: job.status }
}

/// Reports the jobs whose process has ended (`finished[i]` tells of job `i`)
/// and forgets every job that is done. Returns the report, which goes to the
/// terminal.
pub fn reap(shell: &mut Shell, finished: &Vec<bool>) -> (res: String)
    requires
        finished@.len() == old(shell).jobs@.len(),
    ensures
        res@ == done_report(old(shell).jobs@, finished@, old(shell).jobs@.len() as int),
        final(shell).jobs@ == kept_jobs(old(shell).jobs@, finished@, old(shell).jobs@.len() as int),
        final(shell).next_job_id == old(shell).next_job_id,
        final(shell).history == old(shell).history,
        final(shell).vars == old(shell).vars,
{
    let ghost jobs = shell.jobs@;
    let n = shell.jobs.len();
    let mut out = String::new();
    let mut kept: Vec<Job> = Vec::new();
    let mut i: usize = 0;
    while i < n
        invariant
            i <= n,
            n == jobs.len(),
            shell.jobs@ == jobs,
            finished@.len() == n,
            out@ == done_report(jobs, finished@, i as int),
            kept@ == kept_jobs(jobs, finished@, i as int),
        decreases n - i,
    {
        let job = &shell.jobs[i];
        if finished[i] {
            out.append("[");
            let id = format_usize(job.id);
            out.append(id.as_str());
            out.append("]");
            out.append(marker(i, n));
            out.append("  Done");
            out.append("                 ");
            out.append(job.token.as_str());
            out.append("\n");
        } else if job.status != JobStatus::Done {
            kept.push(copy_job(job));
        }
        i = i + 1;
    }
    shell.jobs = kept;
    out
}

} // verus!
