use minishell::tokenizer::{parse_commands, scan, tokenize, try_parse_commands};

fn strings(v: &[&str]) -> Vec<String> {
    v.iter().map(|s| s.to_string()).collect()
}

#[test]
fn plain_words_split_on_spaces() {
    let p = tokenize("echo hello world");
    assert_eq!(p.cmd, "echo");
    assert_eq!(p.args, strings(&["hello", "world"]));
    assert_eq!(p.stout, None);
    assert_eq!(p.sterr, None);
    assert!(!p.append);
}

#[test]
fn repeated_spaces_make_no_empty_words() {
    let p = tokenize("ls   -l    /tmp ");
    assert_eq!(p.cmd, "ls");
    assert_eq!(p.args, strings(&["-l", "/tmp"]));
}

#[test]
fn single_quotes_keep_text_as_is() {
    let p = tokenize("echo 'a  b\\c \"d\" > e'");
    assert_eq!(p.args, strings(&["a  b\\c \"d\" > e"]));
    assert_eq!(p.stout, None);
}

#[test]
fn double_quotes_group_and_keep_single_quotes() {
    let p = tokenize("echo \"it's  here\"");
    assert_eq!(p.args, strings(&["it's  here"]));
}

#[test]
fn quotes_join_with_adjacent_text() {
    let p = tokenize("echo ab'c d'ef");
    assert_eq!(p.args, strings(&["abc def"]));
}

#[test]
fn backslash_escapes_next_character() {
    let p = tokenize("echo a\\ b \\'x");
    assert_eq!(p.args, strings(&["a b", "'x"]));
}

#[test]
fn backslash_in_double_quotes_escapes() {
    let p = tokenize("echo \"a\\\"b\"");
    assert_eq!(p.args, strings(&["a\"b"]));
}

#[test]
fn trailing_backslash_is_kept() {
    let p = tokenize("echo a\\");
    assert_eq!(p.args, strings(&["a\\"]));
}

#[test]
fn redirect_stdout() {
    let p = tokenize("echo hi > out.txt");
    assert_eq!(p.cmd, "echo");
    assert_eq!(p.args, strings(&["hi"]));
    assert_eq!(p.stout, Some("out.txt".to_string()));
    assert_eq!(p.sterr, None);
    assert!(!p.append);
}

#[test]
fn redirect_stdout_with_descriptor() {
    let p = tokenize("echo hi 1> out.txt");
    assert_eq!(p.args, strings(&["hi"]));
    assert_eq!(p.stout, Some("out.txt".to_string()));
    assert!(!p.append);
}

#[test]
fn redirect_append() {
    let p = tokenize("echo hi >> out.txt");
    assert_eq!(p.args, strings(&["hi"]));
    assert_eq!(p.stout, Some("out.txt".to_string()));
    assert!(p.append);
}

#[test]
fn redirect_stderr() {
    let p = tokenize("ls nope 2> err.txt");
    assert_eq!(p.cmd, "ls");
    assert_eq!(p.args, strings(&["nope"]));
    assert_eq!(p.stout, None);
    assert_eq!(p.sterr, Some("err.txt".to_string()));
}

#[test]
fn redirect_target_without_space() {
    let p = tokenize("echo hi >out.txt");
    assert_eq!(p.stout, Some("out.txt".to_string()));
}

#[test]
fn gt_right_after_word_ends_the_word_only() {
    let p = tokenize("echo hi>out");
    assert_eq!(p.args, strings(&["hi", "out"]));
    assert_eq!(p.stout, None);
}

#[test]
fn quoted_gt_is_text() {
    let p = tokenize("echo '>' \">\"");
    assert_eq!(p.args, strings(&[">", ">"]));
    assert_eq!(p.stout, None);
}

#[test]
fn empty_line_has_no_words() {
    let s = scan("");
    assert!(s.tokens.is_empty());
    let s = scan("   ");
    assert!(s.tokens.is_empty());
}

#[test]
fn only_redirection_has_no_words() {
    let s = scan("> f");
    assert!(s.tokens.is_empty());
    assert_eq!(s.stout, Some("f".to_string()));
}

#[test]
fn pipeline_splits_at_bars() {
    let cmds = parse_commands("echo a b | grep a |wc -l");
    assert_eq!(cmds.len(), 3);
    assert_eq!(cmds[0].cmd, "echo");
    assert_eq!(cmds[0].args, strings(&["a", "b"]));
    assert_eq!(cmds[1].cmd, "grep");
    assert_eq!(cmds[1].args, strings(&["a"]));
    assert_eq!(cmds[2].cmd, "wc");
    assert_eq!(cmds[2].args, strings(&["-l"]));
}

#[test]
fn bar_inside_quotes_still_splits() {
    let cmds = try_parse_commands("echo 'a|b'").unwrap();
    assert_eq!(cmds.len(), 2);
    assert_eq!(cmds[0].cmd, "echo");
    assert_eq!(cmds[0].args, strings(&["a"]));
    assert_eq!(cmds[1].cmd, "b");
}

#[test]
fn empty_piece_is_refused() {
    assert!(try_parse_commands("echo a ||").is_none());
    assert!(try_parse_commands("").is_none());
}

#[test]
fn law_single_command_line_example() {
    let cmds = parse_commands("  cat file.txt  ");
    assert_eq!(cmds.len(), 1);
    assert_eq!(cmds[0].cmd, "cat");
    assert_eq!(cmds[0].args, strings(&["file.txt"]));
}

#[test]
fn law_joined_words_example() {
    let words = ["grep", "-n", "foo", "bar.txt"];
    let p = tokenize(&words.join(" "));
    assert_eq!(p.cmd, "grep");
    assert_eq!(p.args, strings(&words[1..]));
}

#[test]
fn law_unquoted_line_words_example() {
    let s = scan("a  b\tc  d ");
    assert_eq!(s.tokens, strings(&["a", "b\tc", "d"]));
    assert_eq!(s.stout, None);
    assert_eq!(s.sterr, None);
    assert!(!s.append);
}

#[test]
fn law_words_not_empty_example() {
    let s = scan("'' \"\" x '' >f 2> g");
    assert!(s.tokens.iter().all(|t| !t.is_empty()));
    assert_eq!(s.tokens, strings(&["x"]));
}

#[test]
fn law_append_has_target_example() {
    let s = scan("echo a >> ");
    assert!(s.append);
    assert_eq!(s.stout, Some(String::new()));
    let s = scan("echo a > b > c");
    assert!(s.append);
    assert_eq!(s.stout, Some("c".to_string()));
}

#[test]
fn law_first_letter_starts_command_example() {
    let p = tokenize("x'y z' w");
    assert_eq!(p.cmd, "xy z");
    assert_eq!(p.args, strings(&["w"]));
    let p = tokenize("e\\ cho");
    assert_eq!(p.cmd, "e cho");
}
