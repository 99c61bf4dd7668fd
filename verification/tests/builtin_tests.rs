use minishell::builtin::{
    cat, cd, cd_failure, declare, echo, history, is_builtin, pwd, run_builtin, type_cmd,
    valid_identifier, BuiltinResult, ChangeDir, World,
};
use minishell::expand::{expand_command, expand_vars};
use minishell::runner::{run, ShellAction};
use minishell::shell::{update_history, update_next_job_id, Job, JobStatus, Shell};
use minishell::tokenizer::tokenize;

fn strings(v: &[&str]) -> Vec<String> {
    v.iter().map(|s| s.to_string()).collect()
}

fn world() -> World {
    World { cwd: "/home/user".to_string(), found: None, finished: Vec::new() }
}

fn set(shell: &mut Shell, assignment: &str) {
    let (out, err) = declare(&strings(&[assignment]), shell);
    assert_eq!(out, "");
    assert_eq!(err, "");
}

#[test]
fn echo_joins_with_spaces() {
    assert_eq!(echo(&strings(&["a", "b", "c"])), "a b c\n");
    assert_eq!(echo(&strings(&["one"])), "one\n");
    assert_eq!(echo(&Vec::new()), "\n");
}

#[test]
fn pwd_writes_directory() {
    assert_eq!(pwd("/tmp/x"), "/tmp/x\n");
}

#[test]
fn cd_without_argument_complains() {
    let (err, change) = cd(&Vec::new());
    assert_eq!(err, "cd: No directory specified\n");
    assert!(change.is_none());
}

#[test]
fn cd_tilde_goes_home() {
    let (err, change) = cd(&strings(&["~"]));
    assert_eq!(err, "");
    assert!(matches!(change, Some(ChangeDir::Home)));
}

#[test]
fn cd_to_path() {
    let (err, change) = cd(&strings(&["/usr", "ignored"]));
    assert_eq!(err, "");
    match change {
        Some(ChangeDir::To(p)) => assert_eq!(p, "/usr"),
        _ => panic!("expected a path"),
    }
}

#[test]
fn cd_failure_message() {
    assert_eq!(cd_failure("/nope"), "cd: /nope: No such file or directory\n");
}

#[test]
fn type_reports_builtins() {
    for name in ["exit", "echo", "pwd", "cd", "type", "jobs", "history", "declare"] {
        let (out, err) = type_cmd(&strings(&[name]), &None);
        assert_eq!(out, format!("{} is a shell builtin\n", name));
        assert_eq!(err, "");
    }
}

#[test]
fn type_reports_found_program() {
    let (out, err) = type_cmd(&strings(&["ls"]), &Some("/bin/ls".to_string()));
    assert_eq!(out, "ls is /bin/ls\n");
    assert_eq!(err, "");
}

#[test]
fn type_reports_missing_program() {
    let (out, err) = type_cmd(&strings(&["nosuch"]), &None);
    assert_eq!(out, "");
    assert_eq!(err, "nosuch: not found\n");
}

#[test]
fn type_without_argument() {
    let (out, err) = type_cmd(&Vec::new(), &None);
    assert_eq!(out, "type: missing argument\n");
    assert_eq!(err, "");
}

#[test]
fn cat_writes_contents_and_complains() {
    let files = strings(&["a.txt", "b.txt", "c.txt"]);
    let contents = vec![Some("one\n".to_string()), None, Some("three".to_string())];
    let (out, err) = cat(&files, &contents);
    assert_eq!(out, "one\nthree");
    assert_eq!(err, "cat: b.txt: No such file or directory\n");
}

#[test]
fn builtin_names() {
    for name in ["exit", "echo", "pwd", "cd", "type", "jobs", "history", "declare"] {
        assert!(is_builtin(name));
    }
    assert!(!is_builtin("cat"));
    assert!(!is_builtin("ls"));
    assert!(!is_builtin(""));
    assert!(!is_builtin("echo "));
}

#[test]
fn identifiers() {
    assert!(valid_identifier("x"));
    assert!(valid_identifier("_a1"));
    assert!(valid_identifier("HOME_DIR2"));
    assert!(!valid_identifier(""));
    assert!(!valid_identifier("1x"));
    assert!(!valid_identifier("a-b"));
    assert!(!valid_identifier("a b"));
}

#[test]
fn declare_sets_and_shows() {
    let mut shell = Shell::new();
    set(&mut shell, "NAME=value with = sign");
    let (out, err) = declare(&strings(&["-p", "NAME"]), &mut shell);
    assert_eq!(out, "declare -- NAME=\"value with = sign\"\n");
    assert_eq!(err, "");
}

#[test]
fn declare_overwrites() {
    let mut shell = Shell::new();
    set(&mut shell, "A=1");
    set(&mut shell, "A=2");
    let (out, _) = declare(&strings(&["-p", "A"]), &mut shell);
    assert_eq!(out, "declare -- A=\"2\"\n");
}

#[test]
fn declare_show_missing() {
    let mut shell = Shell::new();
    let (out, err) = declare(&strings(&["-p", "NOPE"]), &mut shell);
    assert_eq!(out, "");
    assert_eq!(err, "declare: NOPE: not found\n");
}

#[test]
fn declare_rejects_bad_name() {
    let mut shell = Shell::new();
    let (out, err) = declare(&strings(&["1x=3"]), &mut shell);
    assert_eq!(out, "");
    assert_eq!(err, "declare: `1x=3': not a valid identifier\n");
    let (_, err) = declare(&strings(&["-p", "1x"]), &mut shell);
    assert_eq!(err, "declare: 1x: not found\n");
}

#[test]
fn declare_without_equals_does_nothing() {
    let mut shell = Shell::new();
    let (out, err) = declare(&strings(&["X"]), &mut shell);
    assert_eq!(out, "");
    assert_eq!(err, "");
    let (out, err) = declare(&strings(&["-p"]), &mut shell);
    assert_eq!(out, "");
    assert_eq!(err, "");
    let (out, err) = declare(&Vec::new(), &mut shell);
    assert_eq!(out, "");
    assert_eq!(err, "");
}

#[test]
fn expansion_of_variables() {
    let mut shell = Shell::new();
    set(&mut shell, "X=hello");
    set(&mut shell, "Y_2=w");
    assert_eq!(expand_vars("$X", &shell), "hello");
    assert_eq!(expand_vars("${X}", &shell), "hello");
    assert_eq!(expand_vars("a$X-b", &shell), "ahello-b");
    assert_eq!(expand_vars("${X}world", &shell), "helloworld");
    assert_eq!(expand_vars("$Y_2$X", &shell), "whello");
    assert_eq!(expand_vars("$UNSET.", &shell), ".");
    assert_eq!(expand_vars("cost $", &shell), "cost $");
    assert_eq!(expand_vars("$-x", &shell), "$-x");
    assert_eq!(expand_vars("${}", &shell), "$");
    assert_eq!(expand_vars("${X", &shell), "hello");
}

#[test]
fn law_expand_without_references_example() {
    let shell = Shell::new();
    assert_eq!(expand_vars("plain text, no vars!", &shell), "plain text, no vars!");
    assert_eq!(expand_vars("", &shell), "");
}

#[test]
fn law_declare_then_expand_example() {
    let mut shell = Shell::new();
    set(&mut shell, "GREETING=hi there");
    assert_eq!(expand_vars("$GREETING", &shell), "hi there");
    assert_eq!(expand_vars("${GREETING}", &shell), "hi there");
}

#[test]
fn expand_command_everywhere() {
    let mut shell = Shell::new();
    set(&mut shell, "F=out.txt");
    set(&mut shell, "C=echo");
    let mut p = tokenize("$C a$F > $F 2> ${F}.err");
    expand_command(&mut p, &shell);
    assert_eq!(p.cmd, "echo");
    assert_eq!(p.args, strings(&["aout.txt"]));
    assert_eq!(p.stout, Some("out.txt".to_string()));
    assert_eq!(p.sterr, Some("out.txt.err".to_string()));
}

#[test]
fn history_numbers_and_trims() {
    let mut shell = Shell::new();
    let mut counter = 0usize;
    update_history(&mut shell, "  ls  ", &mut counter);
    update_history(&mut shell, "echo a", &mut counter);
    update_history(&mut shell, "pwd\t", &mut counter);
    assert_eq!(counter, 3);
    assert_eq!(shell.history, strings(&["1 ls", "2 echo a", "3 pwd"]));
}

#[test]
fn law_history_last_entries_example() {
    let mut shell = Shell::new();
    let mut counter = 0usize;
    for c in ["a", "b", "c"] {
        update_history(&mut shell, c, &mut counter);
    }
    assert_eq!(history(&shell, &strings(&["2"])), "2 b\n3 c\n");
    assert_eq!(history(&shell, &strings(&["+1"])), "3 c\n");
    assert_eq!(history(&shell, &strings(&["0"])), "");
    assert_eq!(history(&shell, &strings(&["10"])), "1 a\n2 b\n3 c\n");
    assert_eq!(history(&shell, &Vec::new()), "1 a\n2 b\n3 c\n");
}

#[test]
fn next_job_id_follows_last_job() {
    let mut shell = Shell::new();
    update_next_job_id(&mut shell);
    assert_eq!(shell.next_job_id, 1);
    shell.jobs.push(Job { id: 4, pid: 10, token: "sleep 5".to_string(), status: JobStatus::Running });
    update_next_job_id(&mut shell);
    assert_eq!(shell.next_job_id, 5);
}

#[test]
fn run_builtin_dispatch() {
    let mut shell = Shell::new();
    let w = world();
    let r = run_builtin(&tokenize("echo x y"), &mut shell, &w);
    assert_eq!(r.result, BuiltinResult::Continue);
    assert_eq!(r.out, "x y\n");
    let r = run_builtin(&tokenize("pwd"), &mut shell, &w);
    assert_eq!(r.out, "/home/user\n");
    let r = run_builtin(&tokenize("exit 3"), &mut shell, &w);
    assert_eq!(r.result, BuiltinResult::Exit);
    assert_eq!(r.out, "");
    let r = run_builtin(&tokenize("ls -l"), &mut shell, &w);
    assert_eq!(r.result, BuiltinResult::NotBuiltin);
    assert_eq!(r.out, "");
    assert_eq!(r.err, "");
    let r = run_builtin(&tokenize("cat f"), &mut shell, &w);
    assert_eq!(r.result, BuiltinResult::NotBuiltin);
    let r = run_builtin(&tokenize("cd"), &mut shell, &w);
    assert_eq!(r.err, "cd: No directory specified\n");
    let r = run_builtin(&tokenize("declare V=1"), &mut shell, &w);
    assert_eq!(r.result, BuiltinResult::Continue);
    let r = run_builtin(&tokenize("declare -p V"), &mut shell, &w);
    assert_eq!(r.out, "declare -- V=\"1\"\n");
    let w2 = World { cwd: String::new(), found: Some("/usr/bin/ls".to_string()), finished: Vec::new() };
    let r = run_builtin(&tokenize("type ls"), &mut shell, &w2);
    assert_eq!(r.out, "ls is /usr/bin/ls\n");
}

#[test]
fn run_exit_and_continue() {
    let mut shell = Shell::new();
    let w = world();
    let (action, outcome) = run(&tokenize("exit"), &mut shell, &w);
    assert_eq!(action, ShellAction::Exit);
    assert_eq!(outcome.result, BuiltinResult::Exit);
    let (action, outcome) = run(&tokenize("echo hi"), &mut shell, &w);
    assert_eq!(action, ShellAction::Continue);
    assert_eq!(outcome.out, "hi\n");
    let (action, outcome) = run(&tokenize("grep x"), &mut shell, &w);
    assert_eq!(action, ShellAction::Continue);
    assert_eq!(outcome.result, BuiltinResult::NotBuiltin);
}

#[test]
fn law_echo_repeats_words_example() {
    let mut shell = Shell::new();
    let r = run_builtin(&tokenize("echo alpha beta gamma"), &mut shell, &world());
    assert_eq!(r.result, BuiltinResult::Continue);
    assert_eq!(r.out, "alpha beta gamma\n");
    assert_eq!(r.err, "");
}

#[test]
fn law_builtin_names_example() {
    let mut shell = Shell::new();
    for line in ["exit", "echo", "pwd", "cd /", "type x", "jobs", "history", "declare"] {
        let r = run_builtin(&tokenize(line), &mut shell, &world());
        assert_ne!(r.result, BuiltinResult::NotBuiltin);
        assert_eq!(r.result == BuiltinResult::Exit, line == "exit");
    }
}

#[test]
fn law_type_names_builtins_example() {
    let (out, err) = type_cmd(&strings(&["echo", "more"]), &Some("/bin/echo".to_string()));
    assert_eq!(out, "echo is a shell builtin\n");
    assert_eq!(err, "");
    let (out, _) = type_cmd(&strings(&["ls", "echo"]), &Some("/bin/ls".to_string()));
    assert_eq!(out, "ls is /bin/ls\n");
}
