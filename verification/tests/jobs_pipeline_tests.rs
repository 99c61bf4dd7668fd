use minishell::builtin::{jobs, run_builtin, World};
use minishell::execute::is_exec;
use minishell::jobs::reap;
use minishell::pipeline::{pipeline_start, pipeline_step, PipelineAction};
use minishell::shell::{Job, JobStatus, Shell};
use minishell::text::{format_usize, join, parse_usize, same_text, split_char, split_once, trim};
use minishell::tokenizer::{parse_commands, tokenize};

fn job(id: usize, token: &str) -> Job {
    Job { id, pid: 100 + id as u32, token: token.to_string(), status: JobStatus::Running }
}

fn three_jobs() -> Shell {
    let mut shell = Shell::new();
    shell.jobs.push(job(1, "sleep 10"));
    shell.jobs.push(job(2, "sleep 20"));
    shell.jobs.push(job(3, "sleep 30"));
    shell
}

#[test]
fn jobs_lists_and_forgets_done() {
    let mut shell = three_jobs();
    let out = jobs(&mut shell, &vec![false, true, false]);
    assert_eq!(
        out,
        "[1]   Running                 sleep 10 &\n\
         [2]-  Done                 sleep 20\n\
         [3]+  Running                 sleep 30 &\n"
    );
    assert_eq!(shell.jobs.len(), 2);
    assert_eq!(shell.jobs[0].id, 1);
    assert_eq!(shell.jobs[1].id, 3);
}

#[test]
fn jobs_with_no_jobs() {
    let mut shell = Shell::new();
    assert_eq!(jobs(&mut shell, &Vec::new()), "");
}

#[test]
fn reap_reports_finished_only() {
    let mut shell = three_jobs();
    let out = reap(&mut shell, &vec![true, false, true]);
    assert_eq!(out, "[1]   Done                 sleep 10\n[3]+  Done                 sleep 30\n");
    assert_eq!(shell.jobs.len(), 1);
    assert_eq!(shell.jobs[0].id, 2);
    assert_eq!(shell.jobs[0].token, "sleep 20");
}

#[test]
fn reap_drops_jobs_already_done() {
    let mut shell = three_jobs();
    shell.jobs[0].status = JobStatus::Done;
    let out = reap(&mut shell, &vec![false, false, false]);
    assert_eq!(out, "");
    assert_eq!(shell.jobs.len(), 2);
    assert_eq!(shell.jobs[0].id, 2);
}

#[test]
fn law_kept_jobs_example() {
    let mut shell = three_jobs();
    let _ = reap(&mut shell, &vec![false, true, false]);
    assert!(shell.jobs.iter().all(|j| j.status == JobStatus::Running));
    let ids: Vec<usize> = shell.jobs.iter().map(|j| j.id).collect();
    assert_eq!(ids, vec![1, 3]);
}

#[test]
fn jobs_builtin_through_dispatch() {
    let mut shell = three_jobs();
    let w = World { cwd: String::new(), found: None, finished: vec![true, true, true] };
    let r = run_builtin(&tokenize("jobs"), &mut shell, &w);
    assert_eq!(r.out, "");
    assert!(r.console.starts_with("[1]   Done"));
    assert!(shell.jobs.is_empty());
}

#[test]
fn exec_bits() {
    assert!(is_exec(0o755));
    assert!(is_exec(0o001));
    assert!(is_exec(0o010));
    assert!(is_exec(0o100));
    assert!(!is_exec(0o644));
    assert!(!is_exec(0));
}

#[test]
fn pipeline_runs_each_stage_then_writes() {
    let cmds = parse_commands("ls | grep a > out.txt");
    let mut st = pipeline_start();
    match pipeline_step(&cmds, &mut st, None) {
        PipelineAction::RunExternal { index, input } => {
            assert_eq!(index, 0);
            assert!(input.is_none());
        }
        _ => panic!("expected the first stage"),
    }
    match pipeline_step(&cmds, &mut st, Some(Ok(b"abc\n".to_vec()))) {
        PipelineAction::RunExternal { index, input } => {
            assert_eq!(index, 1);
            assert_eq!(input, Some(b"abc\n".to_vec()));
        }
        _ => panic!("expected the second stage"),
    }
    match pipeline_step(&cmds, &mut st, Some(Ok(b"abc\n".to_vec()))) {
        PipelineAction::Write { output, path, append } => {
            assert_eq!(output, b"abc\n".to_vec());
            assert_eq!(path, Some("out.txt".to_string()));
            assert!(!append);
        }
        _ => panic!("expected the output"),
    }
}

#[test]
fn pipeline_builtin_stage_and_failure() {
    let cmds = parse_commands("echo hi | nosuch");
    let mut st = pipeline_start();
    match pipeline_step(&cmds, &mut st, None) {
        PipelineAction::RunBuiltin { index } => assert_eq!(index, 0),
        _ => panic!("expected a builtin stage"),
    }
    match pipeline_step(&cmds, &mut st, Some(Ok(b"hi\n".to_vec()))) {
        PipelineAction::RunExternal { index, input } => {
            assert_eq!(index, 1);
            assert_eq!(input, Some(b"hi\n".to_vec()));
        }
        _ => panic!("expected the second stage"),
    }
    match pipeline_step(&cmds, &mut st, Some(Err(()))) {
        PipelineAction::Fail { message } => assert_eq!(message, "nosuch: not found\n"),
        _ => panic!("expected a failure"),
    }
}

#[test]
fn pipeline_to_stdout() {
    let cmds = parse_commands("pwd");
    let mut st = pipeline_start();
    assert!(matches!(pipeline_step(&cmds, &mut st, None), PipelineAction::RunBuiltin { index: 0 }));
    match pipeline_step(&cmds, &mut st, Some(Ok(b"/\n".to_vec()))) {
        PipelineAction::Write { output, path, .. } => {
            assert_eq!(output, b"/\n".to_vec());
            assert_eq!(path, None);
        }
        _ => panic!("expected the output"),
    }
}

#[test]
fn decimal_numbers() {
    assert_eq!(format_usize(0), "0");
    assert_eq!(format_usize(7), "7");
    assert_eq!(format_usize(42), "42");
    assert_eq!(format_usize(1000), "1000");
    assert_eq!(format_usize(usize::MAX), usize::MAX.to_string());
}

#[test]
fn reading_numbers() {
    assert_eq!(parse_usize("0"), Some(0));
    assert_eq!(parse_usize("42"), Some(42));
    assert_eq!(parse_usize("+7"), Some(7));
    assert_eq!(parse_usize("007"), Some(7));
    assert_eq!(parse_usize(""), None);
    assert_eq!(parse_usize("+"), None);
    assert_eq!(parse_usize("-1"), None);
    assert_eq!(parse_usize("4a"), None);
    assert_eq!(parse_usize(" 4"), None);
    assert_eq!(parse_usize(&usize::MAX.to_string()), Some(usize::MAX));
    assert_eq!(parse_usize(&format!("{}0", usize::MAX)), None);
    assert_eq!(parse_usize("99999999999999999999999"), None);
}

#[test]
fn law_decimal_reads_back_example() {
    for n in [0usize, 5, 10, 99, 12345, usize::MAX] {
        assert_eq!(parse_usize(&format_usize(n)), Some(n));
    }
}

#[test]
fn trimming() {
    assert_eq!(trim("  a b  "), "a b");
    assert_eq!(trim("\t\n x\r\n"), "x");
    assert_eq!(trim("\u{a0}y\u{3000}"), "y");
    assert_eq!(trim("   "), "");
    assert_eq!(trim(""), "");
    assert_eq!(trim("z"), "z");
}

#[test]
fn splitting_and_joining() {
    assert_eq!(split_char("a|b||c", '|'), vec!["a", "b", "", "c"]);
    assert_eq!(split_char("", '|'), vec![""]);
    assert_eq!(split_char("|", '|'), vec!["", ""]);
    let parts: Vec<String> = vec!["x".to_string(), "y".to_string()];
    assert_eq!(join(&parts, ", "), "x, y");
    assert_eq!(join(&Vec::new(), ","), "");
    assert_eq!(split_once("a=b=c", '='), Some(("a".to_string(), "b=c".to_string())));
    assert_eq!(split_once("abc", '='), None);
    assert_eq!(split_once("=", '='), Some((String::new(), String::new())));
    assert!(same_text("abc", "abc"));
    assert!(!same_text("abc", "abd"));
    assert!(!same_text("ab", "abc"));
}

#[test]
fn law_pipeline_output_example() {
    let cmds = parse_commands("ls | echo hi");
    let mut st = pipeline_start();
    match pipeline_step(&cmds, &mut st, None) {
        PipelineAction::RunExternal { index, input } => {
            assert_eq!(index, 0);
            assert!(input.is_none());
        }
        _ => panic!("expected the first stage"),
    }
    match pipeline_step(&cmds, &mut st, Some(Ok(b"a.txt\nb.txt\n".to_vec()))) {
        PipelineAction::RunBuiltin { index } => assert_eq!(index, 1),
        _ => panic!("expected the builtin stage"),
    }
    match pipeline_step(&cmds, &mut st, Some(Ok(b"hi\n".to_vec()))) {
        PipelineAction::Write { output, path, append } => {
            assert_eq!(output, b"hi\n".to_vec());
            assert_eq!(path, None);
            assert!(!append);
        }
        _ => panic!("expected the output"),
    }
}
