use vstd::prelude::*;

use crate::builtin::{type_effect, echo_text, builtin_effect, declare_effect, history_text, is_builtin_name, is_identifier, lines_text, BuiltinResult};
use crate::expand::{brace_end, expanded, is_name_char, name_run, reference, substitution};
use crate::jobs::{job_marker, kept_jobs};
use crate::shell::{Job, JobStatus};
use crate::text::{decimal, digit_char, digits_value, index_of, is_digit, joined, parses_usize, split_on, unsigned_digits, usize_value};
use crate::pipeline::{pipeline_move, pipeline_run, PipelineMove};
use crate::tokenizer::line_pieces;
use crate::tokenizer::{names_command, scan_finish, scan_step, scan_init, scan_line, scan_run, spec_tokenize, ScanModel, SpecParsedCmd};

verus! {

/// A character with no meaning to the scanner: not a quote, a backslash, a
/// space or `>`.
pub open spec fn is_plain_char(c: char) -> bool {
    c != '\\' && c != '\'' && c != '"' && c != ' ' && c != '>'
}

/// A non-empty word of plain characters.
pub open spec fn is_plain_word(w: Seq<char>) -> bool {
    w.len() > 0 && forall|i: int| 0 <= i < w.len() ==> is_plain_char(#[trigger] w[i])
}

/// The scanner outside any quote, escape or redirection, with these words
/// done and this word under way.
pub open spec fn clean(tokens: Seq<Seq<char>>, current: Seq<char>) -> ScanModel {
    ScanModel { tokens: tokens, current: current, ..scan_init() }
}

proof fn lemma_plain_run_from(a: Seq<char>, w: Seq<char>, st: ScanModel)
    requires
        scan_run(a) == st,
        !st.backslash,
        !st.in_quotes,
        !st.in_db_quotes,
        forall|i: int| 0 <= i < w.len() ==> is_plain_char(#[trigger] w[i]),
    ensures
        scan_run(a + w) == (ScanModel { current: st.current + w, ..st }),
    decreases w.len(),
{
    if w.len() == 0 {
        assert(a + w == a);
        assert(st.current + w == st.current);
    } else {
        let w0 = w.drop_last();
        assert forall|i: int| 0 <= i < w0.len() implies is_plain_char(#[trigger] w0[i]) by {
            assert(w0[i] == w[i]);
        }
        lemma_plain_run_from(a, w0, st);
        assert((a + w).drop_last() == a + w0);
        assert((a + w).last() == w.last());
        assert(is_plain_char(w[w.len() - 1]));
        assert(st.current + w == (st.current + w0).push(w.last()));
    }
}

proof fn lemma_plain_run(a: Seq<char>, w: Seq<char>, tokens: Seq<Seq<char>>, cur: Seq<char>)
    requires
        scan_run(a) == clean(tokens, cur),
        forall|i: int| 0 <= i < w.len() ==> is_plain_char(#[trigger] w[i]),
    ensures
        scan_run(a + w) == clean(tokens, cur + w),
{
    lemma_plain_run_from(a, w, clean(tokens, cur));
}

/// Inside single quotes, every character but a single quote is kept as it
/// is.
proof fn lemma_quoted_run(a: Seq<char>, w: Seq<char>, st: ScanModel)
    requires
        scan_run(a) == st,
        !st.backslash,
        st.in_quotes,
        !st.in_db_quotes,
        forall|i: int| 0 <= i < w.len() ==> #[trigger] w[i] != '\'',
    ensures
        scan_run(a + w) == (ScanModel { current: st.current + w, ..st }),
    decreases w.len(),
{
    if w.len() == 0 {
        assert(a + w == a);
        assert(st.current + w == st.current);
    } else {
        let w0 = w.drop_last();
        assert forall|i: int| 0 <= i < w0.len() implies #[trigger] w0[i] != '\'' by {
            assert(w0[i] == w[i]);
        }
        lemma_quoted_run(a, w0, st);
        assert((a + w).drop_last() == a + w0);
        assert((a + w).last() == w.last());
        assert(w[w.len() - 1] != '\'');
        assert(st.current + w == (st.current + w0).push(w.last()));
    }
}

proof fn lemma_run_push(a: Seq<char>, c: char)
    ensures
        scan_run(a.push(c)) == crate::tokenizer::scan_step(scan_run(a), c),
{
    assert(a.push(c).drop_last() == a);
}

proof fn lemma_joined_plain(ws: Seq<Seq<char>>)
    requires
        ws.len() >= 1,
        forall|i: int| 0 <= i < ws.len() ==> is_plain_word(#[trigger] ws[i]),
    ensures
        scan_run(joined(ws, " "@)) == clean(ws.drop_last(), ws.last()),
    decreases ws.len(),
{
    reveal_strlit(" ");
    if ws.len() == 1 {
        assert(scan_run(Seq::<char>::empty()) == clean(Seq::empty(), Seq::empty()));
        assert(is_plain_word(ws[0]));
        lemma_plain_run(Seq::empty(), ws[0], Seq::empty(), Seq::empty());
        assert(Seq::<char>::empty() + ws[0] == ws[0]);
        assert(ws.drop_last() == Seq::<Seq<char>>::empty());
    } else {
        let init = ws.drop_last();
        assert forall|i: int| 0 <= i < init.len() implies is_plain_word(#[trigger] init[i]) by {
            assert(init[i] == ws[i]);
        }
        lemma_joined_plain(init);
        let j = joined(init, " "@);
        assert(is_plain_word(init.last()));
        let j1 = j + " "@;
        assert(j1.drop_last() == j);
        assert(j1.last() == ' ');
        assert(init.drop_last().push(init.last()) == init);
        assert(scan_run(j1) == clean(init, Seq::empty()));
        assert(is_plain_word(ws.last()));
        lemma_plain_run(j1, ws.last(), init, Seq::empty());
        assert(Seq::<char>::empty() + ws.last() == ws.last());
        assert(joined(ws, " "@) == j1 + ws.last());
    }
}

/// Words of plain characters joined by single spaces scan back into the
/// same words, with no redirection.
pub proof fn law_scan_joined_words(ws: Seq<Seq<char>>)
    requires
        ws.len() >= 1,
        forall|i: int| 0 <= i < ws.len() ==> is_plain_word(#[trigger] ws[i]),
    ensures
        scan_line(joined(ws, " "@)).tokens == ws,
        scan_line(joined(ws, " "@)).stout is None,
        scan_line(joined(ws, " "@)).sterr is None,
        !scan_line(joined(ws, " "@)).append,
{
    lemma_joined_plain(ws);
    assert(is_plain_word(ws.last()));
    assert(ws.drop_last().push(ws.last()) == ws);
}

/// A command line of plain words separated by single spaces names its first
/// word as the command and the others as its arguments.
pub proof fn law_tokenize_joined_words(ws: Seq<Seq<char>>)
    requires
        ws.len() >= 1,
        forall|i: int| 0 <= i < ws.len() ==> is_plain_word(#[trigger] ws[i]),
    ensures
        spec_tokenize(joined(ws, " "@)) == (SpecParsedCmd {
            cmd: ws[0],
            args: ws.drop_first(),
            stout: None,
            sterr: None,
            append: false,
        }),
{
    law_scan_joined_words(ws);
}

/// The scanner after plain words and one space.
proof fn lemma_words_then_space(ws: Seq<Seq<char>>)
    requires
        ws.len() >= 1,
        forall|i: int| 0 <= i < ws.len() ==> is_plain_word(#[trigger] ws[i]),
    ensures
        scan_run(joined(ws, " "@).push(' ')) == clean(ws, Seq::empty()),
{
    lemma_joined_plain(ws);
    lemma_run_push(joined(ws, " "@), ' ');
    assert(is_plain_word(ws.last()));
    assert(ws.drop_last().push(ws.last()) == ws);
}

/// `words > file`: the words stay the command and its arguments, and the
/// standard output goes to the file, which is truncated.
pub proof fn law_redirect_stdout(ws: Seq<Seq<char>>, file: Seq<char>)
    requires
        ws.len() >= 1,
        forall|i: int| 0 <= i < ws.len() ==> is_plain_word(#[trigger] ws[i]),
        is_plain_word(file),
    ensures
        ({
            let f = scan_line(joined(ws, " "@) + seq![' ', '>', ' '] + file);
            &&& f.tokens == ws
            &&& f.stout == Some(file)
            &&& f.sterr is None
            &&& !f.append
        }),
{
    let j = joined(ws, " "@);
    lemma_words_then_space(ws);
    let a1 = j.push(' ');
    lemma_run_push(a1, '>');
    let a2 = a1.push('>');
    lemma_run_push(a2, ' ');
    let a3 = a2.push(' ');
    assert(a3 == j + seq![' ', '>', ' ']);
    lemma_plain_run_from(a3, file, scan_run(a3));
    assert(Seq::<char>::empty() + file == file);
}

/// `words >> file`: the words stay the command and its arguments, and the
/// standard output is appended to the file.
pub proof fn law_redirect_append(ws: Seq<Seq<char>>, file: Seq<char>)
    requires
        ws.len() >= 1,
        forall|i: int| 0 <= i < ws.len() ==> is_plain_word(#[trigger] ws[i]),
        is_plain_word(file),
    ensures
        ({
            let f = scan_line(joined(ws, " "@) + seq![' ', '>', '>', ' '] + file);
            &&& f.tokens == ws
            &&& f.stout == Some(file)
            &&& f.sterr is None
            &&& f.append
        }),
{
    let j = joined(ws, " "@);
    lemma_words_then_space(ws);
    let a1 = j.push(' ');
    lemma_run_push(a1, '>');
    let a2 = a1.push('>');
    lemma_run_push(a2, '>');
    let a3 = a2.push('>');
    lemma_run_push(a3, ' ');
    let a4 = a3.push(' ');
    assert(a4 == j + seq![' ', '>', '>', ' ']);
    lemma_plain_run_from(a4, file, scan_run(a4));
    assert(Seq::<char>::empty() + file == file);
}

/// `words 2> file`: the words stay the command and its arguments, and the
/// error stream goes to the file.
pub proof fn law_redirect_stderr(ws: Seq<Seq<char>>, file: Seq<char>)
    requires
        ws.len() >= 1,
        forall|i: int| 0 <= i < ws.len() ==> is_plain_word(#[trigger] ws[i]),
        is_plain_word(file),
    ensures
        ({
            let f = scan_line(joined(ws, " "@) + seq![' ', '2', '>', ' '] + file);
            &&& f.tokens == ws
            &&& f.stout is None
            &&& f.sterr == Some(file)
            &&& !f.append
        }),
{
    let j = joined(ws, " "@);
    lemma_words_then_space(ws);
    let a1 = j.push(' ');
    lemma_run_push(a1, '2');
    let a2 = a1.push('2');
    assert(Seq::<char>::empty().push('2') == seq!['2']);
    assert(scan_run(a2).current == seq!['2']);
    assert(scan_run(a2).current[0] != seq!['1'][0]);
    assert(scan_run(a2).current != seq!['1']);
    lemma_run_push(a2, '>');
    let a3 = a2.push('>');
    lemma_run_push(a3, ' ');
    let a4 = a3.push(' ');
    assert(a4 == j + seq![' ', '2', '>', ' ']);
    lemma_plain_run_from(a4, file, scan_run(a4));
    assert(Seq::<char>::empty() + file == file);
}

/// `words 'text'`: text in single quotes is one more argument, taken as it
/// is, spaces, backslashes, double quotes and `>` included.
pub proof fn law_single_quoted_argument(ws: Seq<Seq<char>>, text: Seq<char>)
    requires
        ws.len() >= 1,
        forall|i: int| 0 <= i < ws.len() ==> is_plain_word(#[trigger] ws[i]),
        text.len() > 0,
        forall|i: int| 0 <= i < text.len() ==> #[trigger] text[i] != '\'',
    ensures
        ({
            let f = scan_line(joined(ws, " "@) + seq![' ', '\''] + text + seq!['\'']);
            &&& f.tokens == ws.push(text)
            &&& f.stout is None
            &&& f.sterr is None
            &&& !f.append
        }),
{
    let j = joined(ws, " "@);
    lemma_words_then_space(ws);
    let a1 = j.push(' ');
    lemma_run_push(a1, '\'');
    let a2 = a1.push('\'');
    lemma_quoted_run(a2, text, scan_run(a2));
    let a3 = a2 + text;
    lemma_run_push(a3, '\'');
    assert(a3.push('\'') == j + seq![' ', '\''] + text + seq!['\'']);
    assert(Seq::<char>::empty() + text == text);
}

proof fn lemma_index_of_concat(a: Seq<char>, b: Seq<char>, c: char)
    requires
        forall|i: int| 0 <= i < a.len() ==> #[trigger] a[i] != c,
    ensures
        index_of(a + b, c) == a.len() + index_of(b, c),
    decreases a.len(),
{
    if a.len() == 0 {
        assert(a + b == b);
    } else {
        let a1 = a.drop_first();
        assert forall|i: int| 0 <= i < a1.len() implies #[trigger] a1[i] != c by {
            assert(a1[i] == a[i + 1]);
        }
        lemma_index_of_concat(a1, b, c);
        assert((a + b).drop_first() == a1 + b);
        assert((a + b)[0] == a[0]);
    }
}

proof fn lemma_identifier_chars(name: Seq<char>)
    requires
        is_identifier(name),
    ensures
        forall|i: int| 0 <= i < name.len() ==> is_name_char(#[trigger] name[i]),
{
    assert forall|i: int| 0 <= i < name.len() implies is_name_char(#[trigger] name[i]) by {
        if i >= 1 {
            assert(is_name_char(name[i]));
        }
    }
}

proof fn lemma_name_run_full(s: Seq<char>)
    requires
        forall|i: int| 0 <= i < s.len() ==> is_name_char(#[trigger] s[i]),
    ensures
        name_run(s) == s.len(),
    decreases s.len(),
{
    if s.len() > 0 {
        let s1 = s.drop_first();
        assert forall|i: int| 0 <= i < s1.len() implies is_name_char(#[trigger] s1[i]) by {
            assert(s1[i] == s[i + 1]);
        }
        assert(is_name_char(s[0]));
        lemma_name_run_full(s1);
    }
}

/// The text of `declare NAME=VALUE`'s argument.
pub open spec fn assignment(name: Seq<char>, value: Seq<char>) -> Seq<char> {
    name + seq!['='] + value
}

/// `declare NAME=VALUE`, for an identifier NAME, sets the variable NAME to
/// VALUE and leaves every other variable as it was, writing nothing.
pub proof fn law_declare_sets(vars: Map<Seq<char>, Seq<char>>, name: Seq<char>, value: Seq<char>)
    requires
        is_identifier(name),
    ensures
        declare_effect(seq![assignment(name, value)], vars) == (
            vars.insert(name, value),
            Seq::<char>::empty(),
            Seq::<char>::empty(),
        ),
{
    reveal_strlit("-p");
    let arg = assignment(name, value);
    lemma_identifier_chars(name);
    assert forall|i: int| 0 <= i < name.len() implies #[trigger] name[i] != '=' by {
        assert(is_name_char(name[i]));
    }
    lemma_index_of_concat(name, seq!['='] + value, '=');
    assert(arg == name + (seq!['='] + value));
    assert(index_of(seq!['='] + value, '=') == 0);
    assert(arg[0] == name[0]);
    assert(arg != "-p"@) by {
        assert("-p"@[0] == '-');
    }
    assert(arg.take(name.len() as int) == name);
    assert(arg.skip(name.len() as int + 1) == value);
}

/// What `declare NAME=VALUE` sets, `declare -p NAME` shows back as
/// `declare -- NAME="VALUE"`.
pub proof fn law_declare_then_show(vars: Map<Seq<char>, Seq<char>>, name: Seq<char>, value: Seq<char>)
    requires
        is_identifier(name),
    ensures
        ({
            let after = declare_effect(seq![assignment(name, value)], vars).0;
            let shown = declare_effect(seq!["-p"@, name], after);
            &&& shown.0 == after
            &&& shown.1 == "declare -- "@ + name + "=\""@ + value + "\"\n"@
            &&& shown.2 == Seq::<char>::empty()
        }),
{
    law_declare_sets(vars, name, value);
}

/// What `declare NAME=VALUE` sets, `$NAME` and `${NAME}` expand to.
pub proof fn law_declare_then_expand(
    vars: Map<Seq<char>, Seq<char>>,
    name: Seq<char>,
    value: Seq<char>,
)
    requires
        is_identifier(name),
    ensures
        ({
            let after = declare_effect(seq![assignment(name, value)], vars).0;
            &&& expanded(seq!['$'] + name, after) == value
            &&& expanded(seq!['$', '{'] + name + seq!['}'], after) == value
        }),
{
    law_declare_sets(vars, name, value);
    let after = vars.insert(name, value);
    lemma_identifier_chars(name);
    assert forall|i: int| 0 <= i < name.len() implies #[trigger] name[i] != '}' by {
        assert(is_name_char(name[i]));
    }
    law_expand_set_variable(after, name);
    law_expand_braced_variable(after, name);
}

/// `$NAME`, for a name of `_`, letters and digits that is set, expands to
/// the variable's value.
pub proof fn law_expand_set_variable(vars: Map<Seq<char>, Seq<char>>, name: Seq<char>)
    requires
        is_identifier(name),
        vars.contains_key(name),
    ensures
        expanded(seq!['$'] + name, vars) == vars[name],
{
    let s = seq!['$'] + name;
    lemma_identifier_chars(name);
    lemma_name_run_full(name);
    assert(s.drop_first() == name);
    assert(name[0] != '{') by {
        assert(is_name_char(name[0]));
    }
    assert(name.take(name.len() as int) == name);
    assert(name.skip(name.len() as int) == Seq::<char>::empty());
    assert(reference(name) == (name, Seq::<char>::empty()));
    assert(expanded(Seq::<char>::empty(), vars) == Seq::<char>::empty());
    assert(substitution(name, vars) + Seq::<char>::empty() == vars[name]);
}

proof fn lemma_brace_end_concat(a: Seq<char>)
    requires
        forall|i: int| 0 <= i < a.len() ==> #[trigger] a[i] != '}',
    ensures
        brace_end(a + seq!['}']) == a.len(),
    decreases a.len(),
{
    if a.len() == 0 {
        assert(a + seq!['}'] == seq!['}']);
    } else {
        let a1 = a.drop_first();
        assert forall|i: int| 0 <= i < a1.len() implies #[trigger] a1[i] != '}' by {
            assert(a1[i] == a[i + 1]);
        }
        lemma_brace_end_concat(a1);
        assert((a + seq!['}']).drop_first() == a1 + seq!['}']);
        assert((a + seq!['}'])[0] == a[0]);
    }
}

/// `${NAME}`, for a set variable whose name holds no `}`, expands to the
/// variable's value.
pub proof fn law_expand_braced_variable(vars: Map<Seq<char>, Seq<char>>, name: Seq<char>)
    requires
        name.len() > 0,
        forall|i: int| 0 <= i < name.len() ==> #[trigger] name[i] != '}',
        vars.contains_key(name),
    ensures
        expanded(seq!['$', '{'] + name + seq!['}'], vars) == vars[name],
{
    let s = seq!['$', '{'] + name + seq!['}'];
    let rest = s.drop_first();
    let body = rest.drop_first();
    assert(body == name + seq!['}']);
    lemma_brace_end_concat(name);
    assert(body.take(name.len() as int) == name);
    assert(body.skip(name.len() as int + 1) == Seq::<char>::empty());
    assert(reference(rest) == (name, Seq::<char>::empty()));
    assert(expanded(Seq::<char>::empty(), vars) == Seq::<char>::empty());
    assert(substitution(name, vars) + Seq::<char>::empty() == vars[name]);
}

/// A text without `$` expands to itself.
pub proof fn law_expand_without_references(s: Seq<char>, vars: Map<Seq<char>, Seq<char>>)
    requires
        forall|i: int| 0 <= i < s.len() ==> #[trigger] s[i] != '$',
    ensures
        expanded(s, vars) == s,
    decreases s.len(),
{
    if s.len() > 0 {
        let s1 = s.drop_first();
        assert forall|i: int| 0 <= i < s1.len() implies #[trigger] s1[i] != '$' by {
            assert(s1[i] == s[i + 1]);
        }
        law_expand_without_references(s1, vars);
        assert(s[0] != '$');
        assert(seq![s[0]] + s1 == s);
    }
}

proof fn lemma_decimal(n: nat)
    ensures
        decimal(n).len() > 0,
        forall|i: int| 0 <= i < decimal(n).len() ==> is_digit(#[trigger] decimal(n)[i]),
        digits_value(decimal(n)) == n,
    decreases n,
{
    if n < 10 {
        assert(decimal(n) == seq![digit_char(n)]);
        assert(seq![digit_char(n)].drop_last() == Seq::<char>::empty());
        assert(digit_char(n) as nat == 48 + n);
        assert(digits_value(Seq::<char>::empty()) == 0);
        assert(digits_value(decimal(n)) == digits_value(seq![digit_char(n)].drop_last()) * 10 + (
        (digit_char(n) as nat) - 48) as nat);
    } else {
        lemma_decimal(n / 10);
        let d = decimal(n);
        assert(digit_char(n % 10) as nat == 48 + n % 10);
        assert(d.last() == digit_char(n % 10));
        assert(digits_value(d) == digits_value(d.drop_last()) * 10 + ((d.last() as nat) - 48) as nat);
        assert((n / 10) * 10 + n % 10 == n) by (nonlinear_arith);
        assert(d.drop_last() == decimal(n / 10));
        assert forall|i: int| 0 <= i < d.len() implies is_digit(#[trigger] d[i]) by {
            if i < d.len() - 1 {
                assert(d[i] == decimal(n / 10)[i]);
            }
        }
    }
}

/// A number written in decimal reads back as the same number.
pub proof fn law_decimal_reads_back(n: nat)
    requires
        n <= usize::MAX,
    ensures
        parses_usize(decimal(n)),
        usize_value(decimal(n)) == n,
{
    lemma_decimal(n);
    assert(is_digit(decimal(n)[0]));
    assert(unsigned_digits(decimal(n)) == decimal(n));
}

/// `history N` writes the last N entries, one per line; `history` alone
/// writes them all.
pub proof fn law_history_last_entries(hist: Seq<Seq<char>>, n: nat)
    requires
        n <= hist.len(),
        n <= usize::MAX,
    ensures
        history_text(hist, seq![decimal(n)]) == lines_text(hist.skip(hist.len() - n)),
        history_text(hist, Seq::empty()) == lines_text(hist),
{
    law_decimal_reads_back(n);
    assert(hist.skip(0) == hist);
}

/// A command is run as a builtin exactly when it names one, and it ends the
/// shell exactly when it is `exit`.
pub proof fn law_builtin_names(
    p: crate::tokenizer::SpecParsedCmd,
    jobs: Seq<Job>,
    hist: Seq<Seq<char>>,
    vars: Map<Seq<char>, Seq<char>>,
    cwd: Seq<char>,
    found: Option<Seq<char>>,
    finished: Seq<bool>,
)
    ensures
        (builtin_effect(p, jobs, hist, vars, cwd, found, finished).result
            != BuiltinResult::NotBuiltin) <==> is_builtin_name(p.cmd),
        (builtin_effect(p, jobs, hist, vars, cwd, found, finished).result == BuiltinResult::Exit)
            <==> p.cmd == "exit"@,
{
}

/// The jobs kept after listing or reaping are exactly the running jobs whose
/// process has not ended, in their order.
pub proof fn law_kept_jobs(jobs: Seq<Job>, finished: Seq<bool>, k: int)
    requires
        0 <= k <= jobs.len(),
        finished.len() == jobs.len(),
    ensures
        forall|j: int|
            0 <= j < kept_jobs(jobs, finished, k).len() ==> (#[trigger] kept_jobs(
                jobs,
                finished,
                k,
            )[j]).status == JobStatus::Running,
        forall|i: int|
            0 <= i < k && !finished[i] && jobs[i].status == JobStatus::Running ==> kept_jobs(
                jobs,
                finished,
                k,
            ).contains(#[trigger] jobs[i]),
        forall|j: int|
            0 <= j < kept_jobs(jobs, finished, k).len() ==> jobs.contains(
                #[trigger] kept_jobs(jobs, finished, k)[j],
            ),
    decreases k,
{
    if k > 0 {
        law_kept_jobs(jobs, finished, k - 1);
        let prev = kept_jobs(jobs, finished, k - 1);
        let cur = kept_jobs(jobs, finished, k);
        let job = jobs[k - 1];
        if !finished[k - 1] && job.status != JobStatus::Done {
            assert(cur == prev.push(job));
            assert(cur[cur.len() - 1] == job);
            assert forall|j: int| 0 <= j < cur.len() implies (#[trigger] cur[j]).status
                == JobStatus::Running by {
                if j < prev.len() {
                    assert(cur[j] == prev[j]);
                }
            }
            assert forall|j: int| 0 <= j < cur.len() implies jobs.contains(#[trigger] cur[j]) by {
                if j < prev.len() {
                    assert(cur[j] == prev[j]);
                } else {
                    assert(jobs[k - 1] == cur[j]);
                }
            }
            assert forall|i: int|
                0 <= i < k && !finished[i] && jobs[i].status == JobStatus::Running implies cur.contains(
                #[trigger] jobs[i],
            ) by {
                if i < k - 1 {
                    let w = choose|w: int| 0 <= w < prev.len() && prev[w] == jobs[i];
                    assert(cur[w] == jobs[i]);
                } else {
                    assert(cur[cur.len() - 1] == jobs[i]);
                }
            }
        }
    }
}

proof fn lemma_split_without(s: Seq<char>, d: char)
    requires
        forall|i: int| 0 <= i < s.len() ==> #[trigger] s[i] != d,
    ensures
        split_on(s, d) == seq![s],
    decreases s.len(),
{
    if s.len() > 0 {
        let s0 = s.drop_last();
        assert forall|i: int| 0 <= i < s0.len() implies #[trigger] s0[i] != d by {
            assert(s0[i] == s[i]);
        }
        lemma_split_without(s0, d);
        assert(s[s.len() - 1] != d);
        assert(s0.push(s.last()) == s);
        assert(seq![s0].update(0, s0.push(s.last())) == seq![s]);
    } else {
        assert(s == Seq::<char>::empty());
    }
}

/// A line without `|` is a single command: the whole line, without
/// surrounding white space.
pub proof fn law_single_command_line(line: Seq<char>)
    requires
        forall|i: int| 0 <= i < line.len() ==> #[trigger] line[i] != '|',
    ensures
        line_pieces(line) == seq![crate::text::trimmed(line)],
{
    lemma_split_without(line, '|');
}

/// `echo` followed by plain words separated by single spaces writes the
/// words back, separated by single spaces, and a newline.
pub proof fn law_echo_repeats_words(
    ws: Seq<Seq<char>>,
    jobs: Seq<Job>,
    hist: Seq<Seq<char>>,
    vars: Map<Seq<char>, Seq<char>>,
    cwd: Seq<char>,
    found: Option<Seq<char>>,
    finished: Seq<bool>,
)
    requires
        forall|i: int| 0 <= i < ws.len() ==> is_plain_word(#[trigger] ws[i]),
    ensures
        ({
            let e = builtin_effect(
                spec_tokenize(joined(seq!["echo"@] + ws, " "@)),
                jobs,
                hist,
                vars,
                cwd,
                found,
                finished,
            );
            &&& e.result == BuiltinResult::Continue
            &&& e.out == joined(ws, " "@) + "\n"@
            &&& e.err.len() == 0
        }),
{
    reveal_strlit("echo");
    reveal_strlit("exit");
    let all = seq!["echo"@] + ws;
    assert(is_plain_word("echo"@));
    assert forall|i: int| 0 <= i < all.len() implies is_plain_word(#[trigger] all[i]) by {
        if i > 0 {
            assert(all[i] == ws[i - 1]);
        }
    }
    law_tokenize_joined_words(all);
    assert(all.drop_first() == ws);
    assert(all[0] == "echo"@);
    assert("echo"@ != "exit"@) by {
        assert("echo"@[1] != "exit"@[1]);
    }
    assert(echo_text(ws) == joined(ws, " "@) + "\n"@);
}

/// What the scanner keeps true along any line: no word is empty, and a
/// second redirection (which turns on appending) only ever follows a pending
/// or settled standard-output target.
pub open spec fn scan_sound(st: ScanModel) -> bool {
    &&& forall|i: int| 0 <= i < st.tokens.len() ==> (#[trigger] st.tokens[i]).len() > 0
    &&& (st.saw_redirect || st.append) ==> (st.expect_stdout || st.stout is Some)
}

proof fn lemma_scan_sound(s: Seq<char>)
    ensures
        scan_sound(scan_run(s)),
    decreases s.len(),
{
    if s.len() > 0 {
        lemma_scan_sound(s.drop_last());
        let st = scan_run(s.drop_last());
        let st2 = scan_step(st, s.last());
        assert forall|i: int| 0 <= i < st2.tokens.len() implies (#[trigger] st2.tokens[i]).len()
            > 0 by {
            if i < st.tokens.len() {
                assert(st2.tokens[i] == st.tokens[i]);
            }
        }
    } else {
        assert(scan_run(s) == scan_init());
    }
}

/// No word of any line is empty.
pub proof fn law_words_not_empty(line: Seq<char>)
    ensures
        forall|i: int|
            0 <= i < scan_line(line).tokens.len() ==> (#[trigger] scan_line(line).tokens[i]).len()
                > 0,
{
    lemma_scan_sound(line);
    let st = scan_run(line);
    let f = scan_line(line);
    assert forall|i: int| 0 <= i < f.tokens.len() implies (#[trigger] f.tokens[i]).len() > 0 by {
        if i < st.tokens.len() {
            assert(f.tokens[i] == st.tokens[i]);
        }
    }
}

/// A line that appends always has a standard-output target.
pub proof fn law_append_has_target(line: Seq<char>)
    ensures
        scan_line(line).append ==> scan_line(line).stout is Some,
{
    lemma_scan_sound(line);
}

/// An ASCII letter.
pub open spec fn is_letter(c: char) -> bool {
    ('a' <= c && c <= 'z') || ('A' <= c && c <= 'Z')
}

/// After a first letter `c`: either the first word is done and starts with
/// `c`, or it is still under way, starts with `c` and is no redirection
/// target.
pub open spec fn first_word_from(st: ScanModel, c: char) -> bool {
    ||| st.tokens.len() > 0 && st.tokens[0].len() > 0 && st.tokens[0][0] == c
    ||| st.tokens.len() == 0 && st.current.len() > 0 && st.current[0] == c && !st.expect_stdout
        && !st.expect_stderr
}

proof fn lemma_first_word(line: Seq<char>, k: int)
    requires
        1 <= k <= line.len(),
        is_letter(line[0]),
    ensures
        first_word_from(scan_run(line.take(k)), line[0]),
    decreases k,
{
    let c = line[0];
    let t = line.take(k);
    assert(t.drop_last() == line.take(k - 1));
    if k == 1 {
        assert(line.take(0) == Seq::<char>::empty());
        assert(scan_run(line.take(0)) == scan_init());
        assert(t.last() == c);
        assert(Seq::<char>::empty().push(c)[0] == c);
    } else {
        lemma_first_word(line, k - 1);
        let st = scan_run(line.take(k - 1));
        let d = t.last();
        let st2 = scan_step(st, d);
        if st.tokens.len() > 0 {
            assert(st2.tokens.len() > 0);
            assert(st2.tokens[0] == st.tokens[0]);
        } else {
            assert(st.current != seq!['1']) by {
                assert(seq!['1'][0] != c);
            }
            assert(st.current != seq!['2']) by {
                assert(seq!['2'][0] != c);
            }
            if st2.tokens.len() > 0 {
                assert(st2.tokens[0] == st.current);
            } else {
                assert(st2.current.len() > 0 && st2.current[0] == c);
            }
        }
    }
}

/// A line that starts with an ASCII letter names a command, and the command
/// starts with that letter.
pub proof fn law_first_letter_starts_command(line: Seq<char>)
    requires
        line.len() > 0,
        is_letter(line[0]),
    ensures
        names_command(line),
        spec_tokenize(line).cmd.len() > 0,
        spec_tokenize(line).cmd[0] == line[0],
{
    lemma_first_word(line, line.len() as int);
    assert(line.take(line.len() as int) == line);
    let st = scan_run(line);
    let f = scan_finish(st);
    if st.tokens.len() > 0 {
        assert(f.tokens[0] == st.tokens[0]);
    } else {
        let cur = if st.backslash { st.current.push('\\') } else { st.current };
        assert(cur[0] == line[0]);
        assert(f.tokens == seq![cur]);
    }
}

/// A character that is not a quote, a backslash or `>`.
pub open spec fn is_unquoted_char(c: char) -> bool {
    c != '\\' && c != '\'' && c != '"' && c != '>'
}

/// The non-empty pieces between spaces.
pub open spec fn space_words(s: Seq<char>) -> Seq<Seq<char>> {
    split_on(s, ' ').filter(|w: Seq<char>| w.len() > 0)
}

proof fn lemma_unquoted_run(s: Seq<char>)
    requires
        forall|i: int| 0 <= i < s.len() ==> is_unquoted_char(#[trigger] s[i]),
    ensures
        scan_run(s) == clean(
            split_on(s, ' ').drop_last().filter(|w: Seq<char>| w.len() > 0),
            split_on(s, ' ').last(),
        ),
    decreases s.len(),
{
    reveal(Seq::filter);
    let p = |w: Seq<char>| w.len() > 0;
    crate::text::lemma_split_on_nonempty(s, ' ');
    if s.len() == 0 {
        assert(split_on(s, ' ').drop_last() == Seq::<Seq<char>>::empty());
        assert(Seq::<Seq<char>>::empty().filter(p) == Seq::<Seq<char>>::empty());
        assert(scan_run(s) == scan_init());
    } else {
        let s0 = s.drop_last();
        assert forall|i: int| 0 <= i < s0.len() implies is_unquoted_char(#[trigger] s0[i]) by {
            assert(s0[i] == s[i]);
        }
        lemma_unquoted_run(s0);
        crate::text::lemma_split_on_nonempty(s0, ' ');
        let r = split_on(s0, ' ');
        let c = s.last();
        assert(is_unquoted_char(s[s.len() - 1]));
        if c == ' ' {
            assert(split_on(s, ' ') == r.push(Seq::<char>::empty()));
            assert(r.push(Seq::<char>::empty()).drop_last() == r);
            assert(r.drop_last().push(r.last()) == r);
            assert(r.filter(p) == if p(r.last()) {
                r.drop_last().filter(p).push(r.last())
            } else {
                r.drop_last().filter(p)
            });
        } else {
            let r2 = r.update(r.len() - 1, r.last().push(c));
            assert(split_on(s, ' ') == r2);
            assert(r2.drop_last() == r.drop_last());
        }
    }
}

/// A line without quotes, backslashes or `>` gives as its words the
/// non-empty pieces between its spaces, and no redirection.
pub proof fn law_unquoted_line_words(line: Seq<char>)
    requires
        forall|i: int| 0 <= i < line.len() ==> is_unquoted_char(#[trigger] line[i]),
    ensures
        scan_line(line).tokens == space_words(line),
        scan_line(line).stout is None,
        scan_line(line).sterr is None,
        !scan_line(line).append,
{
    reveal(Seq::filter);
    let p = |w: Seq<char>| w.len() > 0;
    lemma_unquoted_run(line);
    crate::text::lemma_split_on_nonempty(line, ' ');
    let r = split_on(line, ' ');
    assert(r.drop_last().push(r.last()) == r);
    assert(r.filter(p) == if p(r.last()) {
        r.drop_last().filter(p).push(r.last())
    } else {
        r.drop_last().filter(p)
    });
}

/// `type NAME` says that NAME is a shell builtin exactly when it is one,
/// whatever the program search found; only the first argument counts.
pub proof fn law_type_names_builtins(args: Seq<Seq<char>>, found: Option<Seq<char>>)
    requires
        args.len() >= 1,
    ensures
        type_effect(args, found) == type_effect(seq![args[0]], found),
        is_builtin_name(args[0]) ==> type_effect(args, found) == (
            args[0] + " is a shell builtin\n"@,
            Seq::<char>::empty(),
        ),
        !is_builtin_name(args[0]) && found != Some("a shell builtin"@) ==> type_effect(
            args,
            found,
        ).0 != args[0] + " is a shell builtin\n"@,
{
    reveal_strlit(" is a shell builtin\n");
    reveal_strlit(" is ");
    reveal_strlit("\n");
    reveal_strlit("a shell builtin");
    let a = args[0];
    let b = a + " is a shell builtin\n"@;
    if !is_builtin_name(a) {
        match found {
            Some(p) => {
                let o = a + " is "@ + p + "\n"@;
                if o == b && p != "a shell builtin"@ {
                    assert(o.len() == b.len());
                    assert(p.len() == 15);
                    assert forall|i: int| 0 <= i < 15 implies p[i] == "a shell builtin"@[i] by {
                        assert(o[a.len() + 4 + i] == p[i]);
                        assert(b[a.len() + 4 + i] == " is a shell builtin\n"@[4 + i]);
                    }
                    assert(p =~= "a shell builtin"@);
                }
            },
            None => {
                assert(b.len() > 0);
            },
        }
    }
}

proof fn lemma_pipeline_stages(cmds: Seq<SpecParsedCmd>, outs: Seq<Seq<u8>>, k: nat)
    requires
        k < cmds.len(),
        outs.len() == cmds.len(),
    ensures
        pipeline_run(cmds, outs, k).1 == k + 1,
        pipeline_run(cmds, outs, k).0 == if is_builtin_name(cmds[k as int].cmd) {
            PipelineMove::RunBuiltin(k as int)
        } else {
            PipelineMove::RunExternal(
                k as int,
                if k == 0 {
                    None
                } else {
                    Some(outs[k - 1])
                },
            )
        },
    decreases k,
{
    if k > 0 {
        lemma_pipeline_stages(cmds, outs, (k - 1) as nat);
    }
}

/// When every stage of a pipeline succeeds, the pipeline runs its stages in
/// order, each builtin without input and each program fed the output of the
/// stage before it, and then writes the output of its last stage (to the
/// last stage's file, if any): what the earlier stages gave does not reach
/// the output past a builtin last stage, which reads no input.
pub proof fn law_pipeline_output(cmds: Seq<SpecParsedCmd>, outs: Seq<Seq<u8>>)
    requires
        cmds.len() >= 1,
        outs.len() == cmds.len(),
    ensures
        forall|k: nat|
            k < cmds.len() ==> (#[trigger] pipeline_run(cmds, outs, k)).0 == if is_builtin_name(
                cmds[k as int].cmd,
            ) {
                PipelineMove::RunBuiltin(k as int)
            } else {
                PipelineMove::RunExternal(
                    k as int,
                    if k == 0 {
                        None
                    } else {
                        Some(outs[k - 1])
                    },
                )
            },
        pipeline_run(cmds, outs, cmds.len()).0 == PipelineMove::Write(
            outs.last(),
            cmds.last().stout,
            cmds.last().append,
        ),
        is_builtin_name(cmds.last().cmd) ==> pipeline_run(cmds, outs, (cmds.len() - 1) as nat).0
            == PipelineMove::RunBuiltin(cmds.len() - 1),
{
    assert forall|k: nat| k < cmds.len() implies (#[trigger] pipeline_run(cmds, outs, k)).0
        == if is_builtin_name(cmds[k as int].cmd) {
        PipelineMove::RunBuiltin(k as int)
    } else {
        PipelineMove::RunExternal(
            k as int,
            if k == 0 {
                None
            } else {
                Some(outs[k - 1])
            },
        )
    } by {
        lemma_pipeline_stages(cmds, outs, k);
    }
    lemma_pipeline_stages(cmds, outs, (cmds.len() - 1) as nat);
}

/// `words 2> f > g`: a standard-error target ended by a space is the error
/// target, not a word, and the standard output then goes to `g`.
pub proof fn law_redirect_stderr_then_stdout(ws: Seq<Seq<char>>, f: Seq<char>, g: Seq<char>)
    requires
        ws.len() >= 1,
        forall|i: int| 0 <= i < ws.len() ==> is_plain_word(#[trigger] ws[i]),
        is_plain_word(f),
        is_plain_word(g),
    ensures
        ({
            let r = scan_line(
                joined(ws, " "@) + seq![' ', '2', '>', ' '] + f + seq![' ', '>', ' '] + g,
            );
            &&& r.tokens == ws
            &&& r.sterr == Some(f)
            &&& r.stout == Some(g)
            &&& !r.append
        }),
{
    let j = joined(ws, " "@);
    lemma_words_then_space(ws);
    let a1 = j.push(' ');
    lemma_run_push(a1, '2');
    let a2 = a1.push('2');
    assert(Seq::<char>::empty().push('2') == seq!['2']);
    assert(scan_run(a2).current == seq!['2']);
    assert(scan_run(a2).current[0] != seq!['1'][0]);
    assert(scan_run(a2).current != seq!['1']);
    lemma_run_push(a2, '>');
    let a3 = a2.push('>');
    lemma_run_push(a3, ' ');
    let a4 = a3.push(' ');
    lemma_plain_run_from(a4, f, scan_run(a4));
    assert(Seq::<char>::empty() + f == f);
    let a5 = a4 + f;
    lemma_run_push(a5, ' ');
    let a6 = a5.push(' ');
    assert(scan_run(a6).sterr == Some(f));
    assert(scan_run(a6).current.len() == 0);
    lemma_run_push(a6, '>');
    let a7 = a6.push('>');
    lemma_run_push(a7, ' ');
    let a8 = a7.push(' ');
    lemma_plain_run_from(a8, g, scan_run(a8));
    assert(Seq::<char>::empty() + g == g);
    assert(a8 + g == j + seq![' ', '2', '>', ' '] + f + seq![' ', '>', ' '] + g);
}

proof fn lemma_name_run_stops(name: Seq<char>, t: Seq<char>)
    requires
        forall|i: int| 0 <= i < name.len() ==> is_name_char(#[trigger] name[i]),
        t.len() == 0 || !is_name_char(t[0]),
    ensures
        name_run(name + t) == name.len(),
    decreases name.len(),
{
    if name.len() == 0 {
        assert(name + t == t);
    } else {
        let n1 = name.drop_first();
        assert forall|i: int| 0 <= i < n1.len() implies is_name_char(#[trigger] n1[i]) by {
            assert(n1[i] == name[i + 1]);
        }
        lemma_name_run_stops(n1, t);
        assert((name + t).drop_first() == n1 + t);
        assert((name + t)[0] == name[0]);
        assert(is_name_char(name[0]));
    }
}

/// `$NAME` followed by any text that does not go on with a name character:
/// the reference gives the variable's value (nothing when it is unset), and
/// the text after it, its first character included, is expanded in turn.
pub proof fn law_expand_bare_reference(
    vars: Map<Seq<char>, Seq<char>>,
    name: Seq<char>,
    t: Seq<char>,
)
    requires
        is_identifier(name),
        t.len() == 0 || !is_name_char(t[0]),
    ensures
        vars.contains_key(name) ==> expanded(seq!['$'] + name + t, vars) == vars[name]
            + expanded(t, vars),
        !vars.contains_key(name) ==> expanded(seq!['$'] + name + t, vars) == expanded(t, vars),
{
    let s = seq!['$'] + name + t;
    let rest = name + t;
    lemma_identifier_chars(name);
    lemma_name_run_stops(name, t);
    assert(s.drop_first() == rest);
    assert(s[0] == '$');
    assert(rest[0] == name[0]);
    assert(name[0] != '{') by {
        assert(is_name_char(name[0]));
    }
    assert(rest.take(name.len() as int) == name);
    assert(rest.skip(name.len() as int) == t);
    assert(reference(rest) == (name, t));
}

/// A failed stage stops the pipeline wherever it stands: the complaint names
/// the stage that failed, and the pipeline's place and input stay as they
/// were.
pub proof fn law_failed_stage_stops(
    cmds: Seq<SpecParsedCmd>,
    next: int,
    input: Option<Seq<u8>>,
)
    requires
        0 < next <= cmds.len(),
    ensures
        pipeline_move(cmds, next, input, Some(Err(()))) == (
            PipelineMove::Fail(cmds[next - 1].cmd + ": not found\n"@),
            next,
            input,
        ),
{
}

/// The job marks count from the end of the list: `+` for the last job, `-`
/// for the one before it, and a space for every other.
pub proof fn law_job_marks(len: int)
    requires
        len >= 1,
    ensures
        job_marker(len - 1, len) == "+"@,
        len >= 2 ==> job_marker(len - 2, len) == "-"@,
        forall|i: int| 0 <= i < len - 2 ==> #[trigger] job_marker(i, len) == " "@,
{
}

/// `history N`, for a number N no larger than the history, writes the last
/// N entries, one per line, whatever follows N.
pub proof fn law_history_command(
    p: SpecParsedCmd,
    n: nat,
    jobs: Seq<Job>,
    hist: Seq<Seq<char>>,
    vars: Map<Seq<char>, Seq<char>>,
    cwd: Seq<char>,
    found: Option<Seq<char>>,
    finished: Seq<bool>,
)
    requires
        p.cmd == "history"@,
        p.args.len() >= 1,
        p.args[0] == decimal(n),
        n <= hist.len(),
        n <= usize::MAX,
    ensures
        builtin_effect(p, jobs, hist, vars, cwd, found, finished).out == lines_text(
            hist.subrange(hist.len() - n, hist.len() as int),
        ),
        builtin_effect(p, jobs, hist, vars, cwd, found, finished).result
            == BuiltinResult::Continue,
{
    reveal_strlit("history");
    reveal_strlit("exit");
    reveal_strlit("echo");
    reveal_strlit("pwd");
    reveal_strlit("cd");
    reveal_strlit("type");
    reveal_strlit("jobs");
    let h = "history"@;
    assert(h.len() == 7);
    assert(h != "exit"@ && h != "echo"@ && h != "pwd"@ && h != "cd"@ && h != "type"@ && h
        != "jobs"@);
    law_decimal_reads_back(n);
    assert(hist.skip(hist.len() - n) == hist.subrange(hist.len() - n, hist.len() as int));
}

} // verus!
